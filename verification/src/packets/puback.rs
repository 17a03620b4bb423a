//! PUBACK: the acknowledgement of a QoS 1 PUBLISH (MQTT v3.1.1, 3.4).
use crate::packets::packet_reader::{body_error, body_of, read_packet_body, ErrorKind, PacketError};
use vstd::prelude::*;

verus! {

/// First byte of every PUBACK.
pub const PUBACK_CONTROL_BYTE: u8 = 0b01000000;
/// Remaining length of every PUBACK.
pub const PUBACK_REMAINING_LENGTH: u8 = 2;
/// Message of the error raised for packet identifier zero.
pub const MSG_INVALID_PACKET_ID: &'static str = "Packet identifier must be greater than zero";
/// Message of the error for a first byte of another packet type.
pub const MSG_NOT_PUBACK: &'static str = "Packet type must be 4 for a Puback packet";
/// Message of the error for nonzero reserved bits.
pub const MSG_INVALID_RESERVED: &'static str = "Reserved bits of a Puback must be 0";
/// Message of the error for a body that is not just a packet identifier.
pub const MSG_INVALID_LENGTH: &'static str = "Remaining length of a Puback must be 2";

/// What a PUBACK whose first byte is `control_byte`, followed by `stream`
/// (remaining length first), decodes to: the packet identifier it
/// acknowledges, or the kind and message of the error met first.
pub open spec fn puback_decoding(control_byte: u8, stream: Seq<u8>) -> Result<u16, (ErrorKind, Seq<char>)> {
    if control_byte / 16 != 4 {
        Err((ErrorKind::InvalidControlPacketType, MSG_NOT_PUBACK@))
    } else if control_byte % 16 != 0 {
        Err((ErrorKind::InvalidReservedBits, MSG_INVALID_RESERVED@))
    } else {
        match body_of(stream) {
            None => Err(body_error(stream)),
            Some((body, _)) => if body.len() != 2 {
                Err((ErrorKind::InvalidProtocol, MSG_INVALID_LENGTH@))
            } else if body[0] == 0 && body[1] == 0 {
                Err((ErrorKind::InvalidProtocol, MSG_INVALID_PACKET_ID@))
            } else {
                Ok((body[0] as nat * 256 + body[1] as nat) as u16)
            },
        }
    }
}

/// The packet identifier that a decoded PUBACK acknowledges is the
/// nonzero big-endian value of its two body bytes (MQTT v3.1.1, 3.4).
pub proof fn lemma_puback_packet_id(control_byte: u8, stream: Seq<u8>)
    requires
        puback_decoding(control_byte, stream) is Ok,
    ensures
        match (body_of(stream), puback_decoding(control_byte, stream)) {
            (Some((body, _)), Ok(id)) => body.len() == 2 && id as int == body[0] * 256 + body[1] && id != 0,
            _ => false,
        },
{
    if let Some((body, _)) = body_of(stream) {
        assert(body[0] * 256 + body[1] <= 65535) by (nonlinear_arith)
            requires
                body[0] <= 255,
                body[1] <= 255,
        ;
    }
}

/// Bytes of the PUBACK for `packet_id`.
pub open spec fn puback_bytes(packet_id: u16) -> Seq<u8> {
    seq![PUBACK_CONTROL_BYTE, PUBACK_REMAINING_LENGTH, (packet_id / 256) as u8, (packet_id % 256) as u8]
}

/// A PUBACK packet, for a nonzero packet identifier.
#[derive(Debug, PartialEq, Eq, Structural)]
pub struct Puback {
    packet_id: u16,
}

impl Puback {
    /// The packet identifier.
    pub closed spec fn spec_packet_id(&self) -> u16 {
        self.packet_id
    }

    /// A PUBACK for `packet_id`. Fails with kind
    /// [`ErrorKind::InvalidProtocol`] when `packet_id` is zero.
    pub fn new(packet_id: u16) -> (r: Result<Puback, PacketError>)
        ensures
            packet_id != 0 ==> (r matches Ok(p) && p.spec_packet_id() == packet_id),
            packet_id == 0 ==> (r matches Err(e) && e.spec_kind() == ErrorKind::InvalidProtocol
                && e.message() == MSG_INVALID_PACKET_ID@),
    {
        if packet_id == 0 {
            Err(PacketError::new_kind(MSG_INVALID_PACKET_ID, ErrorKind::InvalidProtocol))
        } else {
            Ok(Puback { packet_id })
        }
    }

    /// The packet identifier.
    pub fn packet_id(&self) -> (id: u16)
        ensures
            id == self.spec_packet_id(),
    {
        self.packet_id
    }

    /// Reads a PUBACK whose first byte is `control_byte` from `stream`,
    /// which holds the rest of the packet (see [`puback_decoding`]).
    pub fn read_from(control_byte: u8, stream: &[u8]) -> (r: Result<Puback, PacketError>)
        ensures
            match puback_decoding(control_byte, stream@) {
                Ok(id) => r matches Ok(p) && p.spec_packet_id() == id,
                Err((k, m)) => r matches Err(e) && e.spec_kind() == k && e.message() == m,
            },
    {
        if control_byte / 16 != 4 {
            return Err(PacketError::new_kind(MSG_NOT_PUBACK, ErrorKind::InvalidControlPacketType));
        }
        if control_byte % 16 != 0 {
            return Err(PacketError::new_kind(MSG_INVALID_RESERVED, ErrorKind::InvalidReservedBits));
        }
        let (body, _) = match read_packet_body(stream) {
            Ok(p) => p,
            Err(e) => return Err(e),
        };
        if body.len() != 2 {
            return Err(PacketError::new_kind(MSG_INVALID_LENGTH, ErrorKind::InvalidProtocol));
        }
        if body[0] == 0 && body[1] == 0 {
            return Err(PacketError::new_kind(MSG_INVALID_PACKET_ID, ErrorKind::InvalidProtocol));
        }
        Ok(Puback { packet_id: (body[0] as u16) * 256 + (body[1] as u16) })
    }

    /// The bytes of the packet: fixed header, then the packet identifier
    /// most significant byte first.
    pub fn encode(&self) -> (v: Vec<u8>)
        ensures
            v@ == puback_bytes(self.spec_packet_id()),
    {
        vec![PUBACK_CONTROL_BYTE, PUBACK_REMAINING_LENGTH, (self.packet_id / 256) as u8, (self.packet_id % 256) as u8]
    }
}

/// Reading back the bytes of the PUBACK for a nonzero packet identifier
/// gives that identifier.
pub proof fn lemma_puback_roundtrip(packet_id: u16)
    requires
        packet_id != 0,
    ensures
        puback_decoding(puback_bytes(packet_id)[0], puback_bytes(packet_id).skip(1)) == Ok::<u16, (ErrorKind, Seq<char>)>(packet_id),
{
    let b = puback_bytes(packet_id);
    let s = b.skip(1);
    let body = seq![(packet_id / 256) as u8, (packet_id % 256) as u8];
    assert(s == seq![2u8] + body);
    crate::packets::packet_reader::lemma_length_roundtrip(2, body);
    assert(crate::packets::packet_reader::encode_length(2) == seq![2u8]) by {
        reveal_with_fuel(crate::packets::packet_reader::encode_length, 2);
    }
    assert(s.subrange(1, 3) == body);
}

} // verus!
