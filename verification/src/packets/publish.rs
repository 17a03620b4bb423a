//! PUBLISH: an application message (MQTT v3.1.1, 3.3).
use crate::packets::packet_reader::{
    body_error, body_of, encode_length, encode_remaining_length, lemma_length_roundtrip, read_packet_body,
    ErrorKind, PacketError, MAX_REMAINING_LENGTH,
};
use crate::packets::qos::QoSLevel;
use crate::packets::utf8::{decode_field, encode_field, lemma_field_roundtrip, Field, MAX_FIELD_LEN};
use crate::text::{chars_of, contains_char, push_bytes, push_str_bytes, string_from_utf8};
use vstd::prelude::*;
use vstd::slice::{slice_subrange, slice_to_vec};
use vstd::utf8::{decode_utf8, encode_utf8, valid_utf8};

verus! {

/// Message of the error for a topic name that is empty, holds a wildcard
/// or is too long.
pub const MSG_INVALID_TOPIC_NAME: &'static str = "Invalid topic name";
/// Message of the error for a packet identifier that does not match the QoS.
pub const MSG_INVALID_PACKET_ID: &'static str = "A packet identifier is present exactly when QoS is greater than 0";
/// Message of the error for a packet too long to encode.
pub const MSG_PACKET_TOO_LONG: &'static str = "Packet too long";
/// Message of the error for a first byte that is not a PUBLISH's.
pub const MSG_NOT_PUBLISH: &'static str = "Packet type must be 3 for a Publish packet";
/// Message of the error for QoS flags other than 0 and 1.
pub const MSG_INVALID_QOS: &'static str = "Invalid QoS level";
/// Message of the error for a topic field that is cut short or not UTF-8.
pub const MSG_INVALID_TOPIC_FIELD: &'static str = "Invalid topic name encoding";
/// Message of the error for a QoS 1 message without packet identifier.
pub const MSG_MISSING_PACKET_ID: &'static str = "Missing packet identifier";
/// Message of the error for a payload that is not UTF-8.
pub const MSG_INVALID_PAYLOAD: &'static str = "Payload is not valid UTF-8";

/// Whether `topic` can name the topic of a message: it is not empty,
/// holds no wildcard (`+`, `#`) and fits in a field (MQTT v3.1.1, 4.7).
pub open spec fn valid_topic_name(topic: Seq<char>) -> bool {
    &&& topic.len() > 0
    &&& !topic.contains('+')
    &&& !topic.contains('#')
    &&& encode_utf8(topic).len() <= MAX_FIELD_LEN
}

/// Whether a packet identifier goes with a QoS: present exactly for QoS 1.
pub open spec fn packet_id_matches(qos: QoSLevel, packet_id: Option<u16>) -> bool {
    (qos == QoSLevel::QoSLevel1) == (packet_id is Some)
}

/// Contents of a PUBLISH packet.
pub struct PublishView {
    pub dup: bool,
    pub qos: QoSLevel,
    pub retain: bool,
    pub topic_name: Seq<char>,
    pub payload: Seq<char>,
    pub packet_id: Option<u16>,
}

/// A PUBLISH packet.
#[derive(Debug, Clone, PartialEq, Eq)]
pub struct Publish {
    dup: bool,
    qos: QoSLevel,
    retain: bool,
    topic_name: String,
    payload: String,
    packet_id: Option<u16>,
}

/// First byte of a PUBLISH with the given flags.
pub open spec fn publish_first_byte(dup: bool, qos: QoSLevel, retain: bool) -> u8 {
    (0x30 + (if dup { 8nat } else { 0 }) + (if qos == QoSLevel::QoSLevel1 { 2nat } else { 0 }) + (
    if retain { 1nat } else { 0 })) as u8
}

/// Bytes of the packet identifier, when present.
pub open spec fn packet_id_bytes(packet_id: Option<u16>) -> Seq<u8> {
    match packet_id {
        Some(id) => seq![(id / 256) as u8, (id % 256) as u8],
        None => seq![],
    }
}

/// Bytes after the fixed header of a PUBLISH.
pub open spec fn publish_body(p: PublishView) -> Seq<u8> {
    encode_field(p.topic_name) + packet_id_bytes(p.packet_id) + encode_utf8(p.payload)
}

/// Bytes of a PUBLISH.
pub open spec fn publish_bytes(p: PublishView) -> Seq<u8> {
    seq![publish_first_byte(p.dup, p.qos, p.retain)] + encode_length(publish_body(p).len())
        + publish_body(p)
}

/// QoS set in the flags of the first byte of a PUBLISH (bits 1 and 2),
/// when it is one that the broker handles.
pub open spec fn flags_qos(control_byte: u8) -> Option<QoSLevel> {
    let q = (control_byte / 2) % 4;
    if q == 0 {
        Some(QoSLevel::QoSLevel0)
    } else if q == 1 {
        Some(QoSLevel::QoSLevel1)
    } else {
        None
    }
}

/// The message of a PUBLISH read from the rest of its variable header
/// and its payload (`rest`, after the topic name), with the flags given.
pub open spec fn publish_from_rest(
    control_byte: u8,
    qos: QoSLevel,
    topic: Seq<char>,
    rest: Seq<u8>,
) -> Result<PublishView, (ErrorKind, Seq<char>)> {
    if qos == QoSLevel::QoSLevel1 && rest.len() < 2 {
        Err((ErrorKind::InvalidProtocol, MSG_MISSING_PACKET_ID@))
    } else {
        let packet_id: Option<u16> = if qos == QoSLevel::QoSLevel1 {
            Some((rest[0] as nat * 256 + rest[1] as nat) as u16)
        } else {
            None
        };
        let payload = if qos == QoSLevel::QoSLevel1 {
            rest.skip(2)
        } else {
            rest
        };
        if !valid_utf8(payload) {
            Err((ErrorKind::InvalidProtocol, MSG_INVALID_PAYLOAD@))
        } else {
            Ok(
                PublishView {
                    dup: (control_byte / 8) % 2 == 1,
                    qos,
                    retain: control_byte % 2 == 1,
                    topic_name: topic,
                    payload: decode_utf8(payload),
                    packet_id,
                },
            )
        }
    }
}

/// What a PUBLISH whose first byte is `control_byte`, followed by
/// `stream` (remaining length first), holds: its message, or the kind and
/// message of the error met first.
pub open spec fn publish_decoding(control_byte: u8, stream: Seq<u8>) -> Result<PublishView, (ErrorKind, Seq<char>)> {
    if control_byte / 16 != 3 {
        Err((ErrorKind::InvalidControlPacketType, MSG_NOT_PUBLISH@))
    } else {
        match flags_qos(control_byte) {
            None => Err((ErrorKind::InvalidFlags, MSG_INVALID_QOS@)),
            Some(qos) => match body_of(stream) {
                None => Err(body_error(stream)),
                Some((body, _)) => match decode_field(body) {
                    None => Err((ErrorKind::InvalidProtocol, MSG_INVALID_TOPIC_FIELD@)),
                    Some((topic, used)) => if !valid_topic_name(topic) {
                        Err((ErrorKind::InvalidProtocol, MSG_INVALID_TOPIC_NAME@))
                    } else {
                        publish_from_rest(control_byte, qos, topic, body.skip(used as int))
                    },
                },
            },
        }
    }
}

/// The flags of a PUBLISH's first byte read back as they were set.
proof fn lemma_first_byte_flags(dup: bool, qos: QoSLevel, retain: bool)
    ensures
        ({
            let b = publish_first_byte(dup, qos, retain);
            &&& b / 16 == 3
            &&& flags_qos(b) == Some(qos)
            &&& ((b / 8) % 2 == 1) == dup
            &&& (b % 2 == 1) == retain
        }),
{
    let b = publish_first_byte(dup, qos, retain);
    let d: nat = if dup { 1 } else { 0 };
    let q: nat = if qos == QoSLevel::QoSLevel1 { 1 } else { 0 };
    let r: nat = if retain { 1 } else { 0 };
    assert(b == 48 + 8 * d + 2 * q + r);
    assert(b / 2 == 24 + 4 * d + q);
    assert(b / 8 == 6 + d);
}

/// The rest of the body of a well-formed PUBLISH (after its topic name)
/// reads back as its packet identifier and payload.
proof fn lemma_rest_roundtrip(p: PublishView)
    requires
        packet_id_matches(p.qos, p.packet_id),
    ensures
        publish_from_rest(
            publish_first_byte(p.dup, p.qos, p.retain),
            p.qos,
            p.topic_name,
            packet_id_bytes(p.packet_id) + encode_utf8(p.payload),
        ) == Ok::<PublishView, (ErrorKind, Seq<char>)>(p),
{
    broadcast use {vstd::utf8::encode_utf8_valid_utf8, vstd::utf8::encode_utf8_decode_utf8};
    lemma_first_byte_flags(p.dup, p.qos, p.retain);
    let payload = encode_utf8(p.payload);
    let rest = packet_id_bytes(p.packet_id) + payload;
    match p.packet_id {
        Some(id) => {
            assert(rest[0] == (id / 256) as u8);
            assert(rest[1] == (id % 256) as u8);
            assert((rest[0] as nat * 256 + rest[1] as nat) as u16 == id);
            assert(rest.skip(2) == payload);
        },
        None => {
            assert(rest == payload);
        },
    }
}

/// Reading back the bytes of a well-formed PUBLISH (the first byte, then
/// the rest) gives the same message.
pub proof fn lemma_publish_roundtrip(p: PublishView)
    requires
        valid_topic_name(p.topic_name),
        packet_id_matches(p.qos, p.packet_id),
        publish_body(p).len() <= MAX_REMAINING_LENGTH,
    ensures
        publish_decoding(publish_bytes(p)[0], publish_bytes(p).skip(1)) == Ok::<PublishView, (ErrorKind, Seq<char>)>(p),
{
    let b = publish_first_byte(p.dup, p.qos, p.retain);
    assert(publish_bytes(p)[0] == b);
    lemma_first_byte_flags(p.dup, p.qos, p.retain);
    let body = publish_body(p);
    let stream = publish_bytes(p).skip(1);
    let used = encode_length(body.len()).len();
    assert(body_of(stream) == Some((body, used + body.len()))) by {
        assert(stream == encode_length(body.len()) + body);
        lemma_length_roundtrip(body.len(), body);
        assert(stream.subrange(used as int, (used + body.len()) as int) == body);
    }
    let rest = packet_id_bytes(p.packet_id) + encode_utf8(p.payload);
    let field_len = encode_field(p.topic_name).len();
    assert(decode_field(body) == Some((p.topic_name, field_len)) && body.skip(field_len as int) == rest) by {
        assert(body == encode_field(p.topic_name) + rest);
        lemma_field_roundtrip(p.topic_name, rest);
    }
    lemma_rest_roundtrip(p);
}

impl Publish {
    /// Contents of the packet.
    pub closed spec fn view_of(&self) -> PublishView {
        PublishView {
            dup: self.dup,
            qos: self.qos,
            retain: self.retain,
            topic_name: self.topic_name@,
            payload: self.payload@,
            packet_id: self.packet_id,
        }
    }

    /// Whether the topic name is valid and the packet identifier goes with
    /// the QoS.
    pub open spec fn wf(&self) -> bool {
        valid_topic_name(self.view_of().topic_name) && packet_id_matches(
            self.view_of().qos,
            self.view_of().packet_id,
        )
    }

    /// A PUBLISH with the given flags, topic, payload and packet
    /// identifier.
    ///
    /// Fails with kind [`ErrorKind::InvalidProtocol`] when the topic name
    /// is not valid or the packet identifier does not go with the QoS.
    pub fn new(
        dup: bool,
        qos: QoSLevel,
        retain: bool,
        topic_name: &str,
        payload: &str,
        packet_id: Option<u16>,
    ) -> (r: Result<Publish, PacketError>)
        ensures
            !valid_topic_name(topic_name@) ==> (r matches Err(e) && e.spec_kind()
                == ErrorKind::InvalidProtocol && e.message() == MSG_INVALID_TOPIC_NAME@),
            valid_topic_name(topic_name@) && !packet_id_matches(qos, packet_id) ==> (r matches Err(
                e,
            ) && e.spec_kind() == ErrorKind::InvalidProtocol && e.message()
                == MSG_INVALID_PACKET_ID@),
            valid_topic_name(topic_name@) && packet_id_matches(qos, packet_id) ==> (r matches Ok(p)
                && p.wf() && p.view_of() == (PublishView {
                dup,
                qos,
                retain,
                topic_name: topic_name@,
                payload: payload@,
                packet_id,
            })),
    {
        let topic = chars_of(topic_name);
        if topic.len() == 0 || contains_char(topic.as_slice(), '+') || contains_char(
            topic.as_slice(),
            '#',
        ) || topic_name.as_bytes().len() > MAX_FIELD_LEN {
            return Err(PacketError::new_kind(MSG_INVALID_TOPIC_NAME, ErrorKind::InvalidProtocol));
        }
        let has_id = match packet_id {
            Some(_) => true,
            None => false,
        };
        let is_qos1 = match qos {
            QoSLevel::QoSLevel1 => true,
            QoSLevel::QoSLevel0 => false,
        };
        if has_id != is_qos1 {
            return Err(PacketError::new_kind(MSG_INVALID_PACKET_ID, ErrorKind::InvalidProtocol));
        }
        Ok(
            Publish {
                dup,
                qos,
                retain,
                topic_name: String::from_str(topic_name),
                payload: String::from_str(payload),
                packet_id,
            },
        )
    }

    /// The QoS.
    pub fn qos(&self) -> (q: QoSLevel)
        ensures
            q == self.view_of().qos,
    {
        self.qos
    }

    /// The packet identifier.
    pub fn packet_id(&self) -> (id: Option<u16>)
        ensures
            id == self.view_of().packet_id,
    {
        self.packet_id
    }

    /// The topic name.
    pub fn topic_name(&self) -> (t: &str)
        ensures
            t@ == self.view_of().topic_name,
    {
        self.topic_name.as_str()
    }

    /// The payload.
    pub fn payload(&self) -> (p: &str)
        ensures
            p@ == self.view_of().payload,
    {
        self.payload.as_str()
    }

    /// The duplicate flag.
    pub fn dup(&self) -> (d: bool)
        ensures
            d == self.view_of().dup,
    {
        self.dup
    }

    /// The retain flag.
    pub fn retain(&self) -> (r: bool)
        ensures
            r == self.view_of().retain,
    {
        self.retain
    }

    /// Sets the duplicate flag.
    pub fn set_dup(&mut self, dup: bool)
        ensures
            final(self).view_of() == (PublishView { dup, ..old(self).view_of() }),
            old(self).wf() ==> final(self).wf(),
    {
        self.dup = dup;
    }

    /// Lowers the QoS to `max` when it is higher; a packet lowered to QoS 0
    /// loses its packet identifier.
    pub fn set_max_qos(&mut self, max: QoSLevel)
        ensures
            max == QoSLevel::QoSLevel0 && old(self).view_of().qos == QoSLevel::QoSLevel1
                ==> final(self).view_of() == (PublishView {
                qos: QoSLevel::QoSLevel0,
                packet_id: None,
                ..old(self).view_of()
            }),
            !(max == QoSLevel::QoSLevel0 && old(self).view_of().qos == QoSLevel::QoSLevel1)
                ==> final(self).view_of() == old(self).view_of(),
            old(self).wf() ==> final(self).wf(),
    {
        match (max, self.qos) {
            (QoSLevel::QoSLevel0, QoSLevel::QoSLevel1) => {
                self.qos = QoSLevel::QoSLevel0;
                self.packet_id = None;
            },
            _ => {},
        }
    }

    /// Reads a PUBLISH whose first byte is `control_byte` from `stream`,
    /// which holds the rest of the packet, remaining length first (see
    /// [`publish_decoding`]). Fails with the error that decoding meets
    /// first.
    pub fn read_from(stream: &[u8], control_byte: u8) -> (r: Result<Publish, PacketError>)
        ensures
            match publish_decoding(control_byte, stream@) {
                Ok(v) => r matches Ok(p) && p.wf() && p.view_of() == v,
                Err((k, m)) => r matches Err(e) && e.spec_kind() == k && e.message() == m,
            },
    {
        if control_byte / 16 != 3 {
            return Err(PacketError::new_kind(MSG_NOT_PUBLISH, ErrorKind::InvalidControlPacketType));
        }
        let q = (control_byte / 2) % 4;
        let qos = if q == 0 {
            QoSLevel::QoSLevel0
        } else if q == 1 {
            QoSLevel::QoSLevel1
        } else {
            return Err(PacketError::new_kind(MSG_INVALID_QOS, ErrorKind::InvalidFlags));
        };
        let body = match read_packet_body(stream) {
            Ok((b, _)) => b,
            Err(e) => {
                proof {
                    assert(body_of(stream@) is None);
                }
                return Err(e);
            },
        };
        let (topic, used) = match Field::new_from_stream(body.as_slice()) {
            Some(p) => p,
            None => return Err(PacketError::new_kind(MSG_INVALID_TOPIC_FIELD, ErrorKind::InvalidProtocol)),
        };
        let topic_chars = chars_of(topic.value.as_str());
        if topic_chars.len() == 0 || contains_char(topic_chars.as_slice(), '+') || contains_char(
            topic_chars.as_slice(),
            '#',
        ) || topic.value.as_str().as_bytes().len() > MAX_FIELD_LEN {
            return Err(PacketError::new_kind(MSG_INVALID_TOPIC_NAME, ErrorKind::InvalidProtocol));
        }
        let mut start = used;
        let packet_id: Option<u16> = if q == 1 {
            if body.len() - used < 2 {
                return Err(PacketError::new_kind(MSG_MISSING_PACKET_ID, ErrorKind::InvalidProtocol));
            }
            start = used + 2;
            Some((body[used] as u16) * 256 + (body[used + 1] as u16))
        } else {
            None
        };
        let payload_bytes = slice_to_vec(slice_subrange(body.as_slice(), start, body.len()));
        proof {
            let rest = body@.skip(used as int);
            if q == 1 {
                assert(rest.skip(2) == body@.subrange(start as int, body@.len() as int));
            } else {
                assert(rest == body@.subrange(start as int, body@.len() as int));
            }
        }
        let payload = match string_from_utf8(payload_bytes) {
            Ok(s) => s,
            Err(_) => return Err(PacketError::new_kind(MSG_INVALID_PAYLOAD, ErrorKind::InvalidProtocol)),
        };
        Ok(
            Publish {
                dup: (control_byte / 8) % 2 == 1,
                qos,
                retain: control_byte % 2 == 1,
                topic_name: topic.value,
                payload,
                packet_id,
            },
        )
    }

    /// The bytes of the packet. Fails when the packet is longer than a
    /// remaining length can announce.
    pub fn encode(&self) -> (r: Result<Vec<u8>, PacketError>)
        requires
            self.wf(),
        ensures
            publish_body(self.view_of()).len() <= MAX_REMAINING_LENGTH ==> (r matches Ok(v) && v@
                == publish_bytes(self.view_of())),
            publish_body(self.view_of()).len() > MAX_REMAINING_LENGTH ==> (r matches Err(e)
                && e.spec_kind() == ErrorKind::Other && e.message() == MSG_PACKET_TOO_LONG@),
    {
        let field = Field { value: String::from_str(self.topic_name.as_str()) };
        let mut body = field.encode();
        match self.packet_id {
            Some(id) => {
                body.push((id / 256) as u8);
                body.push((id % 256) as u8);
            },
            None => {},
        }
        push_str_bytes(&mut body, self.payload.as_str());
        if body.len() > MAX_REMAINING_LENGTH {
            return Err(PacketError::new_msg(MSG_PACKET_TOO_LONG));
        }
        let first: u8 = 0x30 + (if self.dup {
            8u8
        } else {
            0
        }) + (if self.qos == QoSLevel::QoSLevel1 {
            2u8
        } else {
            0
        }) + (if self.retain {
            1u8
        } else {
            0
        });
        let mut bytes: Vec<u8> = Vec::new();
        bytes.push(first);
        let length = encode_remaining_length(body.len());
        push_bytes(&mut bytes, length.as_slice());
        push_bytes(&mut bytes, body.as_slice());
        proof {
            assert(body@ == publish_body(self.view_of()));
        }
        Ok(bytes)
    }
}

} // verus!
