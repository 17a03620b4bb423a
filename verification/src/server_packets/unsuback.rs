//! UNSUBACK: the server confirms an UNSUBSCRIBE (MQTT v3.1.1, 3.11).
use crate::packets::packet_reader::{ErrorKind, PacketError};
use vstd::prelude::*;

verus! {

/// Message of the error raised for packet identifier zero.
pub const MSG_INVALID_PACKET_ID: &'static str = "Packet identifier must be greater than zero";
/// First byte of every UNSUBACK.
pub const CONTROL_BYTE: u8 = 0b10110000;
/// Remaining length of every UNSUBACK.
pub const FIXED_REMAINING_LENGTH: u8 = 0b10;

/// An UNSUBACK packet, for a nonzero packet identifier.
#[derive(Debug, PartialEq, Eq, Structural)]
pub struct Unsuback {
    packet_id: u16,
}

impl Unsuback {
    /// The packet identifier.
    pub closed spec fn spec_packet_id(&self) -> u16 {
        self.packet_id
    }

    /// An UNSUBACK for `packet_id`. Fails with kind
    /// [`ErrorKind::InvalidProtocol`] when `packet_id` is zero.
    pub fn new(packet_id: u16) -> (r: Result<Unsuback, PacketError>)
        ensures
            packet_id != 0 ==> (r matches Ok(u) && u.spec_packet_id() == packet_id),
            packet_id == 0 ==> (r matches Err(e) && e.spec_kind() == ErrorKind::InvalidProtocol
                && e.message() == MSG_INVALID_PACKET_ID@),
    {
        match Self::verify_packet_id(&packet_id) {
            Ok(()) => Ok(Self { packet_id }),
            Err(e) => Err(e),
        }
    }

    /// The packet identifier.
    pub fn packet_id(&self) -> (id: u16)
        ensures
            id == self.spec_packet_id(),
    {
        self.packet_id
    }

    /// The bytes of the packet: fixed header, then the packet identifier
    /// most significant byte first.
    pub fn encode(&self) -> (v: Vec<u8>)
        ensures
            v@ == seq![
                CONTROL_BYTE,
                FIXED_REMAINING_LENGTH,
                (self.spec_packet_id() / 256) as u8,
                (self.spec_packet_id() % 256) as u8,
            ],
    {
        let mut bytes: Vec<u8> = Vec::new();
        let mut fixed = self.fixed_header();
        let mut variable = self.variable_header();
        bytes.append(&mut fixed);
        bytes.append(&mut variable);
        bytes
    }

    fn verify_packet_id(packet_id: &u16) -> (r: Result<(), PacketError>)
        ensures
            *packet_id != 0 ==> r is Ok,
            *packet_id == 0 ==> (r matches Err(e) && e.spec_kind() == ErrorKind::InvalidProtocol
                && e.message() == MSG_INVALID_PACKET_ID@),
    {
        if *packet_id == 0 {
            return Err(PacketError::new_kind(MSG_INVALID_PACKET_ID, ErrorKind::InvalidProtocol));
        }
        Ok(())
    }

    fn fixed_header(&self) -> (v: Vec<u8>)
        ensures
            v@ == seq![CONTROL_BYTE, FIXED_REMAINING_LENGTH],
    {
        vec![CONTROL_BYTE, FIXED_REMAINING_LENGTH]
    }

    fn variable_header(&self) -> (v: Vec<u8>)
        ensures
            v@ == seq![(self.spec_packet_id() / 256) as u8, (self.spec_packet_id() % 256) as u8],
    {
        let mut buffer: Vec<u8> = Vec::new();
        buffer.push((self.packet_id / 256) as u8);
        buffer.push((self.packet_id % 256) as u8);
        buffer
    }
}

} // verus!
