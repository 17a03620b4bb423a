//! SUBSCRIBE as the server reads it (MQTT v3.1.1, 3.8).
use crate::packets::packet_reader::{
    body_error, body_of, is_eof_error, read_packet_body, ErrorKind, PacketError, MSG_UNEXPECTED_EOF,
};
use crate::packets::qos::QoSLevel;
use crate::packets::utf8::{decode_field, Field};
use vstd::prelude::*;
use vstd::slice::slice_subrange;

verus! {

/// Message of the error for a packet without topic filters.
pub const MSG_NO_TOPIC_FILTERS: &'static str = "No topic filters found";

/// A topic filter of a SUBSCRIBE, with the QoS asked for it.
#[derive(Debug)]
pub struct TopicFilter {
    pub topic_name: String,
    pub qos: QoSLevel,
}

/// A SUBSCRIBE packet as the server keeps it.
#[derive(Debug)]
pub struct Subscribe {
    identifier: u16,
    topic_filters: Vec<TopicFilter>,
}

/// QoS asked by the byte that follows a topic filter: level 0 when its
/// two low bits are zero, level 1 otherwise (a request for level 2 is
/// served at level 1).
pub open spec fn requested_qos(b: u8) -> QoSLevel {
    if b % 4 == 0 {
        QoSLevel::QoSLevel0
    } else {
        QoSLevel::QoSLevel1
    }
}

/// Topic filters written one after the other in `s`, each followed by its
/// QoS byte, up to the first place where no field starts; `None` when a
/// field is not followed by its QoS byte.
pub open spec fn decode_topic_filters(s: Seq<u8>) -> Option<Seq<(Seq<char>, QoSLevel)>>
    decreases s.len(),
{
    match decode_field(s) {
        None => Some(seq![]),
        Some((text, used)) => if used >= s.len() {
            None
        } else {
            match decode_topic_filters(s.skip(used + 1 as int)) {
                Some(rest) => Some(seq![(text, requested_qos(s[used as int]))] + rest),
                None => None,
            }
        },
    }
}

/// What a SUBSCRIBE whose remaining length and body start `stream`
/// decodes to: its packet identifier and topic filters, or the kind and
/// message of the error met first.
pub open spec fn subscribe_decoding(stream: Seq<u8>) -> Result<(u16, Seq<(Seq<char>, QoSLevel)>), (ErrorKind, Seq<char>)> {
    match body_of(stream) {
        None => Err(body_error(stream)),
        Some((body, _)) => if body.len() < 2 {
            Err((ErrorKind::UnexpectedEof, MSG_UNEXPECTED_EOF@))
        } else {
            match decode_topic_filters(body.skip(2)) {
                None => Err((ErrorKind::UnexpectedEof, MSG_UNEXPECTED_EOF@)),
                Some(filters) => if filters.len() == 0 {
                    Err((ErrorKind::InvalidProtocol, MSG_NO_TOPIC_FILTERS@))
                } else {
                    Ok(((body[0] as nat * 256 + body[1] as nat) as u16, filters))
                },
            }
        },
    }
}

/// The packet identifier of a decoded SUBSCRIBE is the big-endian value of
/// the first two bytes of its body (MQTT v3.1.1, 2.3.1).
pub proof fn lemma_subscribe_packet_id(stream: Seq<u8>)
    requires
        subscribe_decoding(stream) is Ok,
    ensures
        match (body_of(stream), subscribe_decoding(stream)) {
            (Some((body, _)), Ok((id, filters))) => body.len() >= 2 && id as int == body[0] * 256 + body[1]
                && filters.len() > 0,
            _ => false,
        },
{
    if let Some((body, _)) = body_of(stream) {
        assert(body[0] * 256 + body[1] <= 65535) by (nonlinear_arith)
            requires
                body[0] <= 255,
                body[1] <= 255,
        ;
    }
}

/// View of a topic filter.
pub open spec fn filter_view(f: TopicFilter) -> (Seq<char>, QoSLevel) {
    (f.topic_name@, f.qos)
}

impl Subscribe {
    /// The packet identifier.
    pub closed spec fn spec_identifier(&self) -> u16 {
        self.identifier
    }

    /// The topic filters with their QoS, in order.
    pub closed spec fn spec_topic_filters(&self) -> Seq<(Seq<char>, QoSLevel)> {
        self.topic_filters@.map_values(|f: TopicFilter| filter_view(f))
    }

    fn get_identifier(stream: &[u8]) -> (r: Result<u16, PacketError>)
        ensures
            stream@.len() >= 2 ==> (r matches Ok(id) && id == stream@[0] as nat * 256
                + stream@[1] as nat),
            stream@.len() < 2 ==> (r matches Err(e) && is_eof_error(e)),
    {
        if stream.len() < 2 {
            return Err(PacketError::new_kind(MSG_UNEXPECTED_EOF, ErrorKind::UnexpectedEof));
        }
        Ok((stream[0] as u16) * 256 + (stream[1] as u16))
    }

    /// Reads a SUBSCRIBE whose first byte was already read: its remaining
    /// length and body are at the start of `stream`.
    ///
    /// Fails when the body cannot be read, when it is shorter than the
    /// packet identifier, when a topic filter lacks its QoS byte, or when
    /// there is no topic filter.
    pub fn new(stream: &[u8]) -> (r: Result<Subscribe, PacketError>)
        ensures
            match subscribe_decoding(stream@) {
                Ok((id, filters)) => r matches Ok(p) && p.spec_identifier() == id && p.spec_topic_filters() == filters,
                Err((k, m)) => r matches Err(e) && e.spec_kind() == k && e.message() == m,
            },
    {
        let (body, _) = match read_packet_body(stream) {
            Ok(p) => p,
            Err(e) => return Err(e),
        };
        let identifier = match Self::get_identifier(body.as_slice()) {
            Ok(id) => id,
            Err(e) => return Err(e),
        };
        let ghost body_seq = body@;
        assert(body_of(stream@) matches Some((b, _)) && b == body_seq);
        let bytes = slice_subrange(body.as_slice(), 2, body.len());
        let mut topic_filters: Vec<TopicFilter> = Vec::new();
        let mut pos: usize = 0;
        proof {
            assert(bytes@.skip(0) == bytes@);
            assert(bytes@ == body@.skip(2));
        }
        loop
            invariant
                pos <= bytes@.len(),
                bytes@ == body_seq.skip(2),
                body_of(stream@) matches Some((b, _)) && b == body_seq,
                decode_topic_filters(bytes@) == match decode_topic_filters(bytes@.skip(pos as int)) {
                    Some(rest) => Some(topic_filters@.map_values(|f: TopicFilter| filter_view(f)) + rest),
                    None => None::<Seq<(Seq<char>, QoSLevel)>>,
                },
            ensures
                decode_topic_filters(bytes@) == Some(topic_filters@.map_values(|f: TopicFilter| filter_view(f))),
            decreases bytes@.len() - pos,
        {
            let rest = slice_subrange(bytes, pos, bytes.len());
            proof {
                assert(rest@ == bytes@.skip(pos as int));
            }
            match Field::new_from_stream(rest) {
                Some((field, n)) => {
                    if n >= rest.len() {
                        proof {
                            assert(decode_topic_filters(bytes@.skip(pos as int)) is None);
                            assert(decode_topic_filters(bytes@) is None);
                            assert(decode_topic_filters(body_seq.skip(2)) is None);
                        }
                        return Err(PacketError::new_kind(MSG_UNEXPECTED_EOF, ErrorKind::UnexpectedEof));
                    }
                    let b = rest[n];
                    let low = b & 3;
                    assert(low == b % 4) by (bit_vector)
                        requires
                            low == b & 3u8,
                    ;
                    let qos = if low == 0 {
                        QoSLevel::QoSLevel0
                    } else {
                        QoSLevel::QoSLevel1
                    };
                    let filter = TopicFilter { topic_name: field.value, qos };
                    proof {
                        assert(bytes@.skip(pos as int).skip(n + 1) == bytes@.skip(pos + n + 1));
                        assert(topic_filters@.push(filter).map_values(|f: TopicFilter| filter_view(f))
                            == topic_filters@.map_values(|f: TopicFilter| filter_view(f)).push(filter_view(filter)));
                        let prev = topic_filters@.map_values(|f: TopicFilter| filter_view(f));
                        match decode_topic_filters(bytes@.skip(pos + n + 1)) {
                            Some(r2) => {
                                assert(prev.push(filter_view(filter)) + r2 == prev + (seq![filter_view(filter)] + r2));
                            },
                            None => {},
                        }
                    }
                    topic_filters.push(filter);
                    pos = pos + n + 1;
                },
                None => {
                    proof {
                        let prev = topic_filters@.map_values(|f: TopicFilter| filter_view(f));
                        assert(prev + seq![] == prev);
                    }
                    break ;
                },
            }
        }
        if topic_filters.len() == 0 {
            return Err(PacketError::new_kind(MSG_NO_TOPIC_FILTERS, ErrorKind::InvalidProtocol));
        }
        Ok(Subscribe { identifier, topic_filters })
    }

    /// The packet identifier.
    pub fn identifier(&self) -> (id: u16)
        ensures
            id == self.spec_identifier(),
    {
        self.identifier
    }

    /// The topic filters, in order.
    pub fn topic_filters(&self) -> (v: &[TopicFilter])
        ensures
            v@.map_values(|f: TopicFilter| filter_view(f)) == self.spec_topic_filters(),
    {
        self.topic_filters.as_slice()
    }
}

} // verus!
