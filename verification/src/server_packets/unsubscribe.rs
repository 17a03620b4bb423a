//! UNSUBSCRIBE: a client leaves topics (MQTT v3.1.1, 3.10).
use crate::packets::packet_reader::{body_error, body_of, read_packet_body, ErrorKind, PacketError};
use crate::packets::utf8::{decode_fields, Field};
use vstd::prelude::*;
use vstd::slice::slice_subrange;

verus! {

/// Control packet type of an UNSUBSCRIBE.
pub const UNSUBSCRIBE_CONTROL_PACKET_TYPE: u8 = 10;
/// Message of the error for a control byte of another packet type.
pub const MSG_PACKET_TYPE_UNSUBSCRIBE: &'static str = "Packet type must be 10 for a Unsubscribe packet";
/// Reserved bits that an UNSUBSCRIBE must carry.
pub const FIXED_RESERVED_BITS: u8 = 0b10;
/// Message of the error for other reserved bits.
pub const MSG_INVALID_RESERVED_BITS: &'static str = "Reserved bits are not equal to 2";
/// Message of the error for a packet without topic filters.
pub const MSG_AT_LEAST_ONE_TOPIC_FILTER: &'static str = "Unsubscribe packet must contain at least one topic filter";

/// An UNSUBSCRIBE packet.
#[derive(Debug)]
pub struct Unsubscribe {
    packet_id: u16,
    topic_filters: Vec<String>,
}

/// Packet identifier read from the start of a body: zero when the body
/// holds fewer than two bytes.
pub open spec fn body_packet_id(body: Seq<u8>) -> u16 {
    if body.len() >= 2 {
        (body[0] as nat * 256 + body[1] as nat) as u16
    } else {
        0
    }
}

/// Topic filters of a body: the fields after the packet identifier.
pub open spec fn body_topic_filters(body: Seq<u8>) -> Seq<Seq<char>> {
    if body.len() >= 2 {
        decode_fields(body.skip(2))
    } else {
        seq![]
    }
}

/// The packet identifier of a decoded UNSUBSCRIBE is the big-endian value
/// of the first two bytes of its body (MQTT v3.1.1, 2.3.1), and its topic
/// filters follow them.
pub proof fn lemma_unsubscribe_packet_id(control_byte: u8, stream: Seq<u8>)
    requires
        unsubscribe_decoding(control_byte, stream) is Ok,
    ensures
        match (body_of(stream), unsubscribe_decoding(control_byte, stream)) {
            (Some((body, _)), Ok((id, filters))) => body.len() >= 2 && id as int == body[0] * 256 + body[1] && filters
                == decode_fields(body.skip(2)),
            _ => false,
        },
{
    if let Some((body, _)) = body_of(stream) {
        assert(body[0] * 256 + body[1] <= 65535) by (nonlinear_arith)
            requires
                body[0] <= 255,
                body[1] <= 255,
        ;
    }
}

/// What an UNSUBSCRIBE whose first byte is `control_byte`, followed by
/// `stream` (remaining length first), decodes to: its packet identifier
/// and topic filters, or the kind and message of the error met first.
pub open spec fn unsubscribe_decoding(control_byte: u8, stream: Seq<u8>) -> Result<(u16, Seq<Seq<char>>), (ErrorKind, Seq<char>)> {
    if control_byte / 16 != 10 {
        Err((ErrorKind::InvalidControlPacketType, MSG_PACKET_TYPE_UNSUBSCRIBE@))
    } else if control_byte % 16 != 2 {
        Err((ErrorKind::InvalidProtocol, MSG_INVALID_RESERVED_BITS@))
    } else {
        match body_of(stream) {
            None => Err(body_error(stream)),
            Some((body, _)) => if body_topic_filters(body).len() > 0 {
                Ok((body_packet_id(body), body_topic_filters(body)))
            } else {
                Err((ErrorKind::InvalidProtocol, MSG_AT_LEAST_ONE_TOPIC_FILTER@))
            },
        }
    }
}

impl Unsubscribe {
    /// The packet identifier.
    pub closed spec fn spec_packet_id(&self) -> u16 {
        self.packet_id
    }

    /// The topic filters, in order.
    pub closed spec fn spec_topic_filters(&self) -> Seq<Seq<char>> {
        self.topic_filters@.map_values(|s: String| s@)
    }

    /// Reads an UNSUBSCRIBE whose first byte is `control_byte` and whose
    /// remaining length and body follow in `bytes`.
    ///
    /// Fails when the packet type is not UNSUBSCRIBE, when the reserved
    /// bits are not `0b10`, when the body cannot be read, or when it holds
    /// no topic filter.
    pub fn read_from(bytes: &[u8], control_byte: u8) -> (r: Result<Unsubscribe, PacketError>)
        ensures
            match unsubscribe_decoding(control_byte, bytes@) {
                Ok((id, filters)) => r matches Ok(u) && u.spec_packet_id() == id && u.spec_topic_filters() == filters,
                Err((k, m)) => r matches Err(e) && e.spec_kind() == k && e.message() == m,
            },
    {
        match Self::verify_control_packet_type(&control_byte) {
            Ok(()) => {},
            Err(e) => return Err(e),
        }
        match Self::verify_reserved_bits(&control_byte) {
            Ok(()) => {},
            Err(e) => return Err(e),
        }
        let (body, _) = match read_packet_body(bytes) {
            Ok(p) => p,
            Err(e) => return Err(e),
        };
        let packet_id = Self::read_packet_id(body.as_slice());
        let mut topic_filters: Vec<String> = Vec::new();
        if body.len() >= 2 {
            match Self::read_topic_filters(slice_subrange(body.as_slice(), 2, body.len()), &mut topic_filters) {
                Ok(()) => {},
                Err(e) => return Err(e),
            }
        } else {
            return Err(
                PacketError::new_kind(MSG_AT_LEAST_ONE_TOPIC_FILTER, ErrorKind::InvalidProtocol),
            );
        }
        proof {
            assert(body@.subrange(2, body@.len() as int) == body@.skip(2));
        }
        Ok(Unsubscribe { packet_id, topic_filters })
    }

    /// The packet identifier.
    pub fn packet_id(&self) -> (id: u16)
        ensures
            id == self.spec_packet_id(),
    {
        self.packet_id
    }

    /// The topic filters, in order.
    pub fn topic_filters(&self) -> (v: &[String])
        ensures
            v@.map_values(|s: String| s@) == self.spec_topic_filters(),
    {
        self.topic_filters.as_slice()
    }

    fn verify_control_packet_type(control_byte: &u8) -> (r: Result<(), PacketError>)
        ensures
            *control_byte / 16 == 10 ==> r is Ok,
            *control_byte / 16 != 10 ==> (r matches Err(e) && e.spec_kind()
                == ErrorKind::InvalidControlPacketType && e.message()
                == MSG_PACKET_TYPE_UNSUBSCRIBE@),
    {
        let cb = *control_byte;
        let control_packet_type = (cb & 0b11110000) >> 4;
        assert(control_packet_type == cb / 16) by (bit_vector)
            requires
                control_packet_type == (cb & 0b11110000u8) >> 4u8,
        ;
        if control_packet_type != UNSUBSCRIBE_CONTROL_PACKET_TYPE {
            return Err(
                PacketError::new_kind(
                    MSG_PACKET_TYPE_UNSUBSCRIBE,
                    ErrorKind::InvalidControlPacketType,
                ),
            );
        }
        Ok(())
    }

    fn verify_reserved_bits(control_byte: &u8) -> (r: Result<(), PacketError>)
        ensures
            *control_byte % 16 == 2 ==> r is Ok,
            *control_byte % 16 != 2 ==> (r matches Err(e) && e.spec_kind()
                == ErrorKind::InvalidProtocol && e.message() == MSG_INVALID_RESERVED_BITS@),
    {
        let cb = *control_byte;
        let reserved_bits = cb & 0b1111;
        assert(reserved_bits == cb % 16) by (bit_vector)
            requires
                reserved_bits == cb & 0b1111u8,
        ;
        if reserved_bits != FIXED_RESERVED_BITS {
            return Err(PacketError::new_kind(MSG_INVALID_RESERVED_BITS, ErrorKind::InvalidProtocol));
        }
        Ok(())
    }

    fn read_packet_id(bytes: &[u8]) -> (id: u16)
        ensures
            id == body_packet_id(bytes@),
    {
        if bytes.len() >= 2 {
            ((bytes[0] as u16) * 256 + (bytes[1] as u16)) as u16
        } else {
            0
        }
    }

    fn read_topic_filters(bytes: &[u8], topic_filters_buffer: &mut Vec<String>) -> (r: Result<
        (),
        PacketError,
    >)
        requires
            old(topic_filters_buffer)@.len() == 0,
        ensures
            final(topic_filters_buffer)@.map_values(|s: String| s@) == decode_fields(bytes@),
            r is Ok <==> decode_fields(bytes@).len() > 0,
            r matches Err(e) ==> e.spec_kind() == ErrorKind::InvalidProtocol && e.message()
                == MSG_AT_LEAST_ONE_TOPIC_FILTER@,
    {
        let mut pos: usize = 0;
        proof {
            assert(bytes@.skip(0) == bytes@);
            assert(topic_filters_buffer@.map_values(|s: String| s@) == Seq::<Seq<char>>::empty());
            assert(Seq::<Seq<char>>::empty() + decode_fields(bytes@) == decode_fields(bytes@));
        }
        loop
            invariant
                pos <= bytes@.len(),
                decode_fields(bytes@) == topic_filters_buffer@.map_values(|s: String| s@)
                    + decode_fields(bytes@.skip(pos as int)),
        ensures
            pos <= bytes@.len(),
            decode_fields(bytes@) == topic_filters_buffer@.map_values(|s: String| s@),
        decreases bytes@.len() - pos,
        {
            let rest = slice_subrange(bytes, pos, bytes.len());
            proof {
                assert(rest@ == bytes@.skip(pos as int));
            }
            match Field::new_from_stream(rest) {
                Some((field, n)) => {
                    proof {
                        assert(bytes@.skip(pos as int).skip(n as int) == bytes@.skip(pos + n));
                        assert(topic_filters_buffer@.push(field.value).map_values(|s: String| s@)
                            == topic_filters_buffer@.map_values(|s: String| s@).push(field.value@));
                    }
                    topic_filters_buffer.push(field.value);
                    pos = pos + n;
                },
                None => {
                    proof {
                        assert(topic_filters_buffer@.map_values(|s: String| s@) + seq![]
                            == topic_filters_buffer@.map_values(|s: String| s@));
                    }
                    break ;
                },
            }
        }
        if topic_filters_buffer.len() == 0 {
            return Err(
                PacketError::new_kind(MSG_AT_LEAST_ONE_TOPIC_FILTER, ErrorKind::InvalidProtocol),
            );
        }
        Ok(())
    }
}

} // verus!
