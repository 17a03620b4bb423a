//! DISCONNECT: the last packet a client sends when it leaves cleanly
//! (MQTT v3.1.1, 3.14).
use crate::packets::packet_reader::{body_error, body_of, read_packet_body, ErrorKind, PacketError, MSG_UNEXPECTED_EOF};
use vstd::slice::slice_subrange;
use vstd::prelude::*;

verus! {

/// Packet type of a DISCONNECT, in the high nibble.
pub const DISCONNECT_PACKET_TYPE: u8 = 0b11100000;
/// Mask of the packet type.
pub const PACKET_TYPE_MASK: u8 = 0b11110000;
/// Mask of the reserved bits.
pub const RESERVED_MASK: u8 = 0b00001111;

/// Message of the error for a control byte of another packet type.
pub const MSG_INVALID_TYPE: &'static str = "Tipo de paquete invalido";
/// Message of the error for nonzero reserved bits.
pub const MSG_INVALID_RESERVED: &'static str = "Los bytes reservados del byte de control no son 0";
/// Message of the error for a packet with a body.
pub const MSG_UNEXPECTED_BYTES: &'static str = "El paquete contiene mas bytes de lo esperado";

/// What a DISCONNECT whose first byte is `control_byte`, followed by
/// `stream` (remaining length first), decodes to: nothing, or the kind and
/// message of the error met first.
pub open spec fn disconnect_decoding(control_byte: u8, stream: Seq<u8>) -> Result<(), (ErrorKind, Seq<char>)> {
    if control_byte / 16 != 14 {
        Err((ErrorKind::InvalidControlPacketType, MSG_INVALID_TYPE@))
    } else if control_byte % 16 != 0 {
        Err((ErrorKind::InvalidReservedBits, MSG_INVALID_RESERVED@))
    } else {
        match body_of(stream) {
            None => Err(body_error(stream)),
            Some((body, _)) => if body.len() != 0 {
                Err((ErrorKind::Other, MSG_UNEXPECTED_BYTES@))
            } else {
                Ok(())
            },
        }
    }
}

/// A DISCONNECT packet.
pub struct Disconnect {}

impl Disconnect {
    fn check_packet_type_is_disconnect(control_byte: u8) -> (r: Result<(), PacketError>)
        ensures
            control_byte / 16 == 14 ==> r is Ok,
            control_byte / 16 != 14 ==> (r matches Err(e) && e.spec_kind()
                == ErrorKind::InvalidControlPacketType && e.message() == MSG_INVALID_TYPE@),
    {
        let t = control_byte & PACKET_TYPE_MASK;
        assert(t == DISCONNECT_PACKET_TYPE <==> control_byte / 16 == 14) by (bit_vector)
            requires
                t == control_byte & 0b11110000u8,
        ;
        if t != DISCONNECT_PACKET_TYPE {
            Err(PacketError::new_kind(MSG_INVALID_TYPE, ErrorKind::InvalidControlPacketType))
        } else {
            Ok(())
        }
    }

    fn check_reserved_bytes(control_byte: u8) -> (r: Result<(), PacketError>)
        ensures
            control_byte % 16 == 0 ==> r is Ok,
            control_byte % 16 != 0 ==> (r matches Err(e) && e.spec_kind()
                == ErrorKind::InvalidReservedBits && e.message() == MSG_INVALID_RESERVED@),
    {
        let reserved = control_byte & RESERVED_MASK;
        assert(reserved == control_byte % 16) by (bit_vector)
            requires
                reserved == control_byte & 0b00001111u8,
        ;
        if reserved != 0 {
            Err(PacketError::new_kind(MSG_INVALID_RESERVED, ErrorKind::InvalidReservedBits))
        } else {
            Ok(())
        }
    }

    fn check_packet_end(body: &[u8]) -> (r: Result<(), PacketError>)
        ensures
            body@.len() == 0 ==> r is Ok,
            body@.len() != 0 ==> (r matches Err(e) && e.spec_kind() == ErrorKind::Other
                && e.message() == MSG_UNEXPECTED_BYTES@),
    {
        if body.len() > 0 {
            Err(PacketError::new_msg(MSG_UNEXPECTED_BYTES))
        } else {
            Ok(())
        }
    }

    /// Reads a DISCONNECT whose first byte is `control_byte` and whose
    /// remaining length and body follow in `stream`.
    ///
    /// Fails when the packet type is not DISCONNECT, when the reserved
    /// bits are not zero, when the remaining length cannot be read, or when
    /// it is not zero.
    pub fn read_from(control_byte: u8, stream: &[u8]) -> (r: Result<Disconnect, PacketError>)
        ensures
            match disconnect_decoding(control_byte, stream@) {
                Ok(()) => r is Ok,
                Err((k, m)) => r matches Err(e) && e.spec_kind() == k && e.message() == m,
            },
    {
        match Self::check_packet_type_is_disconnect(control_byte) {
            Ok(()) => {},
            Err(e) => return Err(e),
        }
        match Self::check_reserved_bytes(control_byte) {
            Ok(()) => {},
            Err(e) => return Err(e),
        }
        let (body, _) = match read_packet_body(stream) {
            Ok(p) => p,
            Err(e) => return Err(e),
        };
        match Self::check_packet_end(body.as_slice()) {
            Ok(()) => {},
            Err(e) => return Err(e),
        }
        Ok(Self {  })
    }

    /// Reads a whole DISCONNECT from `stream`: its control byte, then what
    /// [`Disconnect::read_from`] reads. Fails with kind
    /// [`ErrorKind::UnexpectedEof`] when `stream` is empty.
    pub fn new(stream: &[u8]) -> (r: Result<Disconnect, PacketError>)
        ensures
            stream@.len() == 0 ==> (r matches Err(e) && e.spec_kind() == ErrorKind::UnexpectedEof
                && e.message() == MSG_UNEXPECTED_EOF@),
            stream@.len() > 0 ==> match disconnect_decoding(stream@[0], stream@.drop_first()) {
                Ok(()) => r is Ok,
                Err((k, m)) => r matches Err(e) && e.spec_kind() == k && e.message() == m,
            },
    {
        if stream.len() == 0 {
            return Err(PacketError::new_kind(MSG_UNEXPECTED_EOF, ErrorKind::UnexpectedEof));
        }
        let rest = slice_subrange(stream, 1, stream.len());
        proof {
            assert(rest@ == stream@.drop_first());
        }
        Self::read_from(stream[0], rest)
    }
}

} // verus!
