//! PINGRESP: the server's answer to a PINGREQ (MQTT v3.1.1, 3.13).
use vstd::prelude::*;

verus! {

/// A PINGRESP packet. It tells the client that the server is alive.
#[derive(Debug)]
pub struct PingResp;

/// Packet type of a PINGRESP, in the high nibble.
pub const PINGRESP_PACKET_TYPE: u8 = 0b11010000;
/// Reserved bits of a PINGRESP.
pub const PINGRESP_RESERVED_BYTES: u8 = 0b00000000;
/// Remaining length of a PINGRESP.
pub const REMAINING_LENGTH: u8 = 0b00000000;

impl PingResp {
    /// A PINGRESP packet.
    pub fn new() -> PingResp {
        PingResp
    }

    /// The bytes of the packet.
    pub fn encode(&self) -> (v: Vec<u8>)
        ensures
            v@ == seq![0b11010000u8, 0u8],
    {
        let first = PINGRESP_PACKET_TYPE | PINGRESP_RESERVED_BYTES;
        assert(first == 0b11010000u8) by (bit_vector)
            requires
                first == 0b11010000u8 | 0u8,
        ;
        vec![first, REMAINING_LENGTH]
    }
}

} // verus!
