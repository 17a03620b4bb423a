//! What the broker does with the packets that a connected client sends.
use crate::client_packets::pingreq::{pingreq_decoding, PingReq};
use crate::io_error::{IoError, IoErrorKind};
use crate::packets::packet_reader::{ErrorKind, PacketError};
use crate::packets::puback::{puback_decoding, Puback};
use crate::packets::publish::{publish_decoding, Publish};
use crate::server::server_error::{packet_error_kind, ServerError, ServerErrorKind, ServerResult};
use crate::server_packets::connack::Connack;
use crate::server_packets::disconnect::{disconnect_decoding, Disconnect};
use crate::server_packets::pingresp::PingResp;
use crate::server_packets::unsubscribe::{unsubscribe_decoding, Unsubscribe};
use crate::subscribe::{subscribe_decoding, Subscribe};
use vstd::prelude::*;

verus! {

/// Message of the error for a packet that a connected client may not send.
pub const MSG_UNEXPECTED_PACKET: &'static str = "Codigo de paquete inesperado";
/// Message of the error for a first byte that names no packet type.
pub const MSG_INVALID_PACKET_TYPE: &'static str = "Invalid control packet type";
/// Message of the error for a client that dropped its connection.
pub const MSG_CLIENT_LEFT: &'static str = "Cliente se desconecto sin avisar";

/// Type of an MQTT control packet (MQTT v3.1.1, 2.2.1).
#[derive(Debug, Clone, Copy, PartialEq, Eq, Structural)]
pub enum PacketType {
    Connect,
    Connack,
    Publish,
    Puback,
    Pubrec,
    Pubrel,
    Pubcomp,
    Subscribe,
    Suback,
    Unsubscribe,
    Unsuback,
    PingReq,
    PingResp,
    Disconnect,
}

/// The packet type named by the high nibble of `control_byte`, if any
/// (0 and 15 are reserved).
pub open spec fn packet_type_of(control_byte: u8) -> Option<PacketType> {
    let t = control_byte / 16;
    if t == 1 {
        Some(PacketType::Connect)
    } else if t == 2 {
        Some(PacketType::Connack)
    } else if t == 3 {
        Some(PacketType::Publish)
    } else if t == 4 {
        Some(PacketType::Puback)
    } else if t == 5 {
        Some(PacketType::Pubrec)
    } else if t == 6 {
        Some(PacketType::Pubrel)
    } else if t == 7 {
        Some(PacketType::Pubcomp)
    } else if t == 8 {
        Some(PacketType::Subscribe)
    } else if t == 9 {
        Some(PacketType::Suback)
    } else if t == 10 {
        Some(PacketType::Unsubscribe)
    } else if t == 11 {
        Some(PacketType::Unsuback)
    } else if t == 12 {
        Some(PacketType::PingReq)
    } else if t == 13 {
        Some(PacketType::PingResp)
    } else if t == 14 {
        Some(PacketType::Disconnect)
    } else {
        None
    }
}

/// The packet type of a first byte follows the table of MQTT v3.1.1
/// (2.2.1), by ranges of the byte: 0x10-0x1F CONNECT, 0x20-0x2F CONNACK,
/// 0x30-0x3F PUBLISH, 0x40-0x4F PUBACK, 0x50-0x5F PUBREC, 0x60-0x6F PUBREL,
/// 0x70-0x7F PUBCOMP, 0x80-0x8F SUBSCRIBE, 0x90-0x9F SUBACK, 0xA0-0xAF
/// UNSUBSCRIBE, 0xB0-0xBF UNSUBACK, 0xC0-0xCF PINGREQ, 0xD0-0xDF PINGRESP,
/// 0xE0-0xEF DISCONNECT; 0x00-0x0F and 0xF0-0xFF are reserved.
pub proof fn lemma_packet_type_table(b: u8)
    ensures
        b <= 0x0F ==> packet_type_of(b) is None,
        0x10 <= b <= 0x1F ==> packet_type_of(b) == Some(PacketType::Connect),
        0x20 <= b <= 0x2F ==> packet_type_of(b) == Some(PacketType::Connack),
        0x30 <= b <= 0x3F ==> packet_type_of(b) == Some(PacketType::Publish),
        0x40 <= b <= 0x4F ==> packet_type_of(b) == Some(PacketType::Puback),
        0x50 <= b <= 0x5F ==> packet_type_of(b) == Some(PacketType::Pubrec),
        0x60 <= b <= 0x6F ==> packet_type_of(b) == Some(PacketType::Pubrel),
        0x70 <= b <= 0x7F ==> packet_type_of(b) == Some(PacketType::Pubcomp),
        0x80 <= b <= 0x8F ==> packet_type_of(b) == Some(PacketType::Subscribe),
        0x90 <= b <= 0x9F ==> packet_type_of(b) == Some(PacketType::Suback),
        0xA0 <= b <= 0xAF ==> packet_type_of(b) == Some(PacketType::Unsubscribe),
        0xB0 <= b <= 0xBF ==> packet_type_of(b) == Some(PacketType::Unsuback),
        0xC0 <= b <= 0xCF ==> packet_type_of(b) == Some(PacketType::PingReq),
        0xD0 <= b <= 0xDF ==> packet_type_of(b) == Some(PacketType::PingResp),
        0xE0 <= b <= 0xEF ==> packet_type_of(b) == Some(PacketType::Disconnect),
        0xF0 <= b ==> packet_type_of(b) is None,
{
}

impl PacketType {
    /// The packet type of a packet whose first byte is `control_byte` (see
    /// [`packet_type_of`]). Fails with kind
    /// [`ErrorKind::InvalidControlPacketType`] for a reserved type.
    pub fn from_control_byte(control_byte: u8) -> (r: Result<PacketType, PacketError>)
        ensures
            match packet_type_of(control_byte) {
                Some(t) => r matches Ok(x) && x == t,
                None => r matches Err(e) && e.spec_kind() == ErrorKind::InvalidControlPacketType
                    && e.message() == MSG_INVALID_PACKET_TYPE@,
            },
    {
        let t = control_byte / 16;
        if t == 1 {
            Ok(PacketType::Connect)
        } else if t == 2 {
            Ok(PacketType::Connack)
        } else if t == 3 {
            Ok(PacketType::Publish)
        } else if t == 4 {
            Ok(PacketType::Puback)
        } else if t == 5 {
            Ok(PacketType::Pubrec)
        } else if t == 6 {
            Ok(PacketType::Pubrel)
        } else if t == 7 {
            Ok(PacketType::Pubcomp)
        } else if t == 8 {
            Ok(PacketType::Subscribe)
        } else if t == 9 {
            Ok(PacketType::Suback)
        } else if t == 10 {
            Ok(PacketType::Unsubscribe)
        } else if t == 11 {
            Ok(PacketType::Unsuback)
        } else if t == 12 {
            Ok(PacketType::PingReq)
        } else if t == 13 {
            Ok(PacketType::PingResp)
        } else if t == 14 {
            Ok(PacketType::Disconnect)
        } else {
            Err(PacketError::new_kind(MSG_INVALID_PACKET_TYPE, ErrorKind::InvalidControlPacketType))
        }
    }
}

/// A packet that a connected client sent, decoded.
#[derive(Debug)]
pub enum ClientPacket {
    /// A message to publish.
    Publish(Publish),
    /// The acknowledgement of a QoS 1 message sent to the client.
    Puback(Puback),
    /// Topics the client subscribes to.
    Subscribe(Subscribe),
    /// Topics the client leaves.
    Unsubscribe(Unsubscribe),
    /// A question whether the server is alive.
    PingReq,
    /// The client leaves cleanly.
    Disconnect,
}

/// Whether `r` is the broker error made of the packet error of kind `k`
/// and message `m`.
pub open spec fn packet_failure<T>(r: &ServerResult<T>, k: ErrorKind, m: Seq<char>) -> bool {
    r matches Err(e) && e.spec_kind() == packet_error_kind(k) && e.message() == m
}

/// What reading a packet whose first byte is `control_byte`, followed by
/// `stream` (remaining length first), from a connected client gives (`r`):
/// the packet decoded by the reader of its type, or the error of that
/// reader; a packet type that a client may not send after connecting is a
/// protocol violation.
pub open spec fn client_packet_outcome(control_byte: u8, stream: Seq<u8>, r: &ServerResult<ClientPacket>) -> bool {
    match packet_type_of(control_byte) {
        None => packet_failure(r, ErrorKind::InvalidControlPacketType, MSG_INVALID_PACKET_TYPE@),
        Some(PacketType::Publish) => match publish_decoding(control_byte, stream) {
            Ok(v) => r matches Ok(ClientPacket::Publish(p)) && p.wf() && p.view_of() == v,
            Err((k, m)) => packet_failure(r, k, m),
        },
        Some(PacketType::Puback) => match puback_decoding(control_byte, stream) {
            Ok(id) => r matches Ok(ClientPacket::Puback(p)) && p.spec_packet_id() == id,
            Err((k, m)) => packet_failure(r, k, m),
        },
        Some(PacketType::Subscribe) => match subscribe_decoding(stream) {
            Ok((id, filters)) => r matches Ok(ClientPacket::Subscribe(p)) && p.spec_identifier() == id
                && p.spec_topic_filters() == filters,
            Err((k, m)) => packet_failure(r, k, m),
        },
        Some(PacketType::Unsubscribe) => match unsubscribe_decoding(control_byte, stream) {
            Ok((id, filters)) => r matches Ok(ClientPacket::Unsubscribe(u)) && u.spec_packet_id() == id
                && u.spec_topic_filters() == filters,
            Err((k, m)) => packet_failure(r, k, m),
        },
        Some(PacketType::PingReq) => match pingreq_decoding(control_byte, stream) {
            Ok(()) => r matches Ok(ClientPacket::PingReq),
            Err((k, m)) => packet_failure(r, k, m),
        },
        Some(PacketType::Disconnect) => match disconnect_decoding(control_byte, stream) {
            Ok(()) => r matches Ok(ClientPacket::Disconnect),
            Err((k, m)) => packet_failure(r, k, m),
        },
        Some(_) => r matches Err(e) && e.spec_kind() == ServerErrorKind::ProtocolViolation
            && e.message() == MSG_UNEXPECTED_PACKET@,
    }
}

/// A well-formed SUBSCRIBE or UNSUBSCRIBE read from a connected client is
/// that packet, with what its body holds: a client may subscribe and
/// unsubscribe once connected.
pub proof fn lemma_client_subscriptions_read(control_byte: u8, stream: Seq<u8>, r: &ServerResult<ClientPacket>)
    requires
        client_packet_outcome(control_byte, stream, r),
    ensures
        0x80 <= control_byte <= 0x8F ==> match subscribe_decoding(stream) {
            Ok((id, filters)) => r matches Ok(ClientPacket::Subscribe(p)) && p.spec_identifier() == id
                && p.spec_topic_filters() == filters,
            Err(_) => r is Err,
        },
        0xA0 <= control_byte <= 0xAF ==> match unsubscribe_decoding(control_byte, stream) {
            Ok((id, filters)) => r matches Ok(ClientPacket::Unsubscribe(u)) && u.spec_packet_id() == id
                && u.spec_topic_filters() == filters,
            Err(_) => r is Err,
        },
{
    lemma_packet_type_table(control_byte);
}

/// Reads the packet that a connected client sent, whose first byte is
/// `control_byte` and whose remaining length and body start `stream` (see
/// [`client_packet_outcome`]).
pub fn read_client_packet(control_byte: u8, stream: &[u8]) -> (r: ServerResult<ClientPacket>)
    ensures
        client_packet_outcome(control_byte, stream@, &r),
{
    let packet_type = match PacketType::from_control_byte(control_byte) {
        Ok(t) => t,
        Err(e) => return Err(ServerError::from_packet(e)),
    };
    match packet_type {
        PacketType::Publish => match Publish::read_from(stream, control_byte) {
            Ok(p) => Ok(ClientPacket::Publish(p)),
            Err(e) => Err(ServerError::from_packet(e)),
        },
        PacketType::Puback => match Puback::read_from(control_byte, stream) {
            Ok(p) => Ok(ClientPacket::Puback(p)),
            Err(e) => Err(ServerError::from_packet(e)),
        },
        PacketType::Subscribe => match Subscribe::new(stream) {
            Ok(p) => Ok(ClientPacket::Subscribe(p)),
            Err(e) => Err(ServerError::from_packet(e)),
        },
        PacketType::Unsubscribe => match Unsubscribe::read_from(stream, control_byte) {
            Ok(p) => Ok(ClientPacket::Unsubscribe(p)),
            Err(e) => Err(ServerError::from_packet(e)),
        },
        PacketType::PingReq => match PingReq::read_from(control_byte, stream) {
            Ok(_) => Ok(ClientPacket::PingReq),
            Err(e) => Err(ServerError::from_packet(e)),
        },
        PacketType::Disconnect => match Disconnect::read_from(control_byte, stream) {
            Ok(_) => Ok(ClientPacket::Disconnect),
            Err(e) => Err(ServerError::from_packet(e)),
        },
        _ => Err(ServerError::new_kind(MSG_UNEXPECTED_PACKET, ServerErrorKind::ProtocolViolation)),
    }
}

impl ClientPacket {
    /// The type of the packet.
    pub fn packet_type(&self) -> (t: PacketType)
        ensures
            t == match self {
                ClientPacket::Publish(_) => PacketType::Publish,
                ClientPacket::Puback(_) => PacketType::Puback,
                ClientPacket::Subscribe(_) => PacketType::Subscribe,
                ClientPacket::Unsubscribe(_) => PacketType::Unsubscribe,
                ClientPacket::PingReq => PacketType::PingReq,
                ClientPacket::Disconnect => PacketType::Disconnect,
            },
    {
        match self {
            ClientPacket::Publish(_) => PacketType::Publish,
            ClientPacket::Puback(_) => PacketType::Puback,
            ClientPacket::Subscribe(_) => PacketType::Subscribe,
            ClientPacket::Unsubscribe(_) => PacketType::Unsubscribe,
            ClientPacket::PingReq => PacketType::PingReq,
            ClientPacket::Disconnect => PacketType::Disconnect,
        }
    }
}

/// The PUBACK that the broker owes the sender of `publish`: one for its
/// packet identifier when it has one (QoS 1), none for QoS 0. Fails with
/// kind [`ErrorKind::InvalidProtocol`] for packet identifier zero.
pub fn publish_acknowledgement(publish: &Publish) -> (r: Result<Option<Puback>, PacketError>)
    ensures
        match publish.view_of().packet_id {
            None => r matches Ok(None),
            Some(id) => if id == 0 {
                r matches Err(e) && e.spec_kind() == ErrorKind::InvalidProtocol
            } else {
                r matches Ok(Some(p)) && p.spec_packet_id() == id
            },
        },
{
    match publish.packet_id() {
        None => Ok(None),
        Some(id) => match Puback::new(id) {
            Ok(p) => Ok(Some(p)),
            Err(e) => Err(e),
        },
    }
}

/// The broker error for a failed read of the first byte of a packet: a
/// connection that ended or was reset means that the client left without
/// notice; any other error is converted as usual.
pub fn read_error(error: IoError) -> (e: ServerError)
    ensures
        error.spec_kind() == IoErrorKind::UnexpectedEof || error.spec_kind() == IoErrorKind::ConnectionReset
            ==> e.spec_kind() == ServerErrorKind::ClientDisconnected && e.message() == MSG_CLIENT_LEFT@,
        !(error.spec_kind() == IoErrorKind::UnexpectedEof || error.spec_kind() == IoErrorKind::ConnectionReset)
            ==> e.spec_kind() == crate::server::server_error::io_error_kind(error.spec_kind())
            && e.message() == crate::server::server_error::io_error_message(error.spec_kind(), error.message()),
{
    match error.kind() {
        IoErrorKind::UnexpectedEof | IoErrorKind::ConnectionReset => ServerError::new_kind(
            MSG_CLIENT_LEFT,
            ServerErrorKind::ClientDisconnected,
        ),
        _ => ServerError::from_io(error),
    }
}

/// The CONNACK owed to a client whose connection failed with `error`: one
/// that refuses it with the refusal's code when the error is a refusal
/// (MQTT v3.1.1, 3.2.2.3), none otherwise.
pub fn refusal_connack(error: &ServerError) -> (r: Option<Connack>)
    ensures
        match error.spec_kind() {
            ServerErrorKind::ConnectionRefused(code) => r matches Some(c) && !c.spec_session_present()
                && c.spec_return_code() == code,
            _ => r is None,
        },
{
    match error.kind() {
        ServerErrorKind::ConnectionRefused(code) => Some(Connack::new(false, code)),
        _ => None,
    }
}

/// What the server does with a packet read from a client.
pub enum PacketAction {
    /// The client acknowledged the message with this packet identifier.
    Acknowledge(u16),
    /// These bytes go back to the client.
    Reply(Vec<u8>),
    /// The packet goes to the workers: a PUBLISH, SUBSCRIBE or UNSUBSCRIBE.
    Defer(ClientPacket),
    /// Nothing is done: the client leaves.
    Nothing,
}

/// What the server does with `packet`: a PUBACK acknowledges a message, a
/// PINGREQ is answered with a PINGRESP, a DISCONNECT asks for nothing more,
/// and any other packet goes to the workers.
pub fn packet_action(packet: ClientPacket) -> (a: PacketAction)
    ensures
        match packet {
            ClientPacket::Puback(p) => a == PacketAction::Acknowledge(p.spec_packet_id()),
            ClientPacket::PingReq => a matches PacketAction::Reply(b) && b@ == seq![0b11010000u8, 0u8],
            ClientPacket::Disconnect => a is Nothing,
            _ => a == PacketAction::Defer(packet),
        },
{
    match packet {
        ClientPacket::Puback(p) => PacketAction::Acknowledge(p.packet_id()),
        ClientPacket::PingReq => PacketAction::Reply(PingResp::new().encode()),
        ClientPacket::Disconnect => PacketAction::Nothing,
        other => PacketAction::Defer(other),
    }
}

} // verus!
