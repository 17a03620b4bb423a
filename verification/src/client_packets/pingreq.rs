//! PINGREQ: a client asks whether the server is alive (MQTT v3.1.1, 3.12).
use crate::packets::packet_reader::{body_error, body_of, read_packet_body, ErrorKind, PacketError};
use vstd::prelude::*;

verus! {

/// Packet type of a PINGREQ, in the high nibble.
pub const PINGREQ_PACKET_TYPE: u8 = 0b11000000;
/// Remaining length of a PINGREQ.
pub const REMAINING_LENGTH: u8 = 0b00000000;
/// Mask of the reserved bits of the first byte.
pub const RESERVED_BYTES_MASK: u8 = 0b00001111;

/// Message of the error for a first byte of another packet type.
pub const MSG_NOT_PINGREQ: &'static str = "Packet type must be 12 for a PingReq packet";
/// Message of the error for nonzero reserved bits.
pub const MSG_INVALID_RESERVED: &'static str = "Reserved bits of a PingReq must be 0";
/// Message of the error for a PINGREQ with a body.
pub const MSG_NOT_EMPTY: &'static str = "A PingReq packet has no body";

/// What a PINGREQ whose first byte is `control_byte`, followed by
/// `stream` (remaining length first), decodes to: nothing, or the kind and
/// message of the error met first.
pub open spec fn pingreq_decoding(control_byte: u8, stream: Seq<u8>) -> Result<(), (ErrorKind, Seq<char>)> {
    if control_byte / 16 != 12 {
        Err((ErrorKind::InvalidControlPacketType, MSG_NOT_PINGREQ@))
    } else if control_byte % 16 != 0 {
        Err((ErrorKind::InvalidReservedBits, MSG_INVALID_RESERVED@))
    } else {
        match body_of(stream) {
            None => Err(body_error(stream)),
            Some((body, _)) => if body.len() != 0 {
                Err((ErrorKind::Other, MSG_NOT_EMPTY@))
            } else {
                Ok(())
            },
        }
    }
}

/// A PINGREQ packet.
#[derive(Debug)]
pub struct PingReq;

impl PingReq {
    /// A PINGREQ packet.
    pub fn new() -> PingReq {
        PingReq
    }

    /// Reads a PINGREQ whose first byte is `control_byte` from `stream`,
    /// which holds the rest of the packet (see [`pingreq_decoding`]).
    pub fn read_from(control_byte: u8, stream: &[u8]) -> (r: Result<PingReq, PacketError>)
        ensures
            match pingreq_decoding(control_byte, stream@) {
                Ok(()) => r is Ok,
                Err((k, m)) => r matches Err(e) && e.spec_kind() == k && e.message() == m,
            },
    {
        if control_byte / 16 != 12 {
            return Err(PacketError::new_kind(MSG_NOT_PINGREQ, ErrorKind::InvalidControlPacketType));
        }
        if control_byte % 16 != 0 {
            return Err(PacketError::new_kind(MSG_INVALID_RESERVED, ErrorKind::InvalidReservedBits));
        }
        let (body, _) = match read_packet_body(stream) {
            Ok(p) => p,
            Err(e) => return Err(e),
        };
        if body.len() != 0 {
            return Err(PacketError::new_kind(MSG_NOT_EMPTY, ErrorKind::Other));
        }
        Ok(PingReq)
    }

    /// The bytes of the packet.
    pub fn encode(&self) -> (v: Vec<u8>)
        ensures
            v@ == seq![PINGREQ_PACKET_TYPE, REMAINING_LENGTH],
    {
        vec![PINGREQ_PACKET_TYPE, REMAINING_LENGTH]
    }
}

} // verus!
