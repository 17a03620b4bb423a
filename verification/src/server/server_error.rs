//! Errors of the broker.
use crate::io_error::{IoError, IoErrorKind};
use crate::packets::packet_reader::{ErrorKind, PacketError};
use crate::server_packets::connack::ConnackReturnCode;
use vstd::prelude::*;

verus! {

/// An error of the broker: a message and its kind.
#[derive(Debug)]
pub struct ServerError {
    msg: String,
    kind: ServerErrorKind,
}

/// Kind of an error of the broker.
#[derive(Debug, Clone, Copy, PartialEq, Eq, Structural)]
pub enum ServerErrorKind {
    ProtocolViolation,
    ClientDisconnected,
    ClientNotFound,
    ClientNotInWhitelist,
    /// The connection is refused; a CONNACK with this code is owed.
    ConnectionRefused(ConnackReturnCode),
    DumpError,
    Timeout,
    PoinsonedLock,
    Irrecoverable,
    Idle,
    Other,
}

/// Result of the operations of the broker.
pub type ServerResult<T> = Result<T, ServerError>;

/// Message of the error for a client that dropped its connection.
pub const MSG_DISCONNECTED: &'static str = "Se desconecto sin avisar";
/// Message of the error for a read that timed out.
pub const MSG_TIMEOUT: &'static str = "Connection timeout";

/// Kind of the broker error made of an input/output error.
pub open spec fn io_error_kind(kind: IoErrorKind) -> ServerErrorKind {
    match kind {
        IoErrorKind::UnexpectedEof | IoErrorKind::NotConnected | IoErrorKind::BrokenPipe
        | IoErrorKind::ConnectionReset => ServerErrorKind::ClientDisconnected,
        IoErrorKind::WouldBlock => ServerErrorKind::Timeout,
        _ => ServerErrorKind::Other,
    }
}

/// Message of the broker error made of an input/output error of kind
/// `kind` and message `msg`.
pub open spec fn io_error_message(kind: IoErrorKind, msg: Seq<char>) -> Seq<char> {
    match io_error_kind(kind) {
        ServerErrorKind::ClientDisconnected => MSG_DISCONNECTED@,
        ServerErrorKind::Timeout => MSG_TIMEOUT@,
        _ => msg,
    }
}

/// Kind of the broker error made of a packet error.
pub open spec fn packet_error_kind(kind: ErrorKind) -> ServerErrorKind {
    match kind {
        ErrorKind::WouldBlock => ServerErrorKind::Timeout,
        ErrorKind::UnexpectedEof => ServerErrorKind::ClientDisconnected,
        _ => ServerErrorKind::Other,
    }
}

impl ServerError {
    /// The message of the error.
    pub closed spec fn message(&self) -> Seq<char> {
        self.msg@
    }

    /// The kind of the error.
    pub closed spec fn spec_kind(&self) -> ServerErrorKind {
        self.kind
    }

    /// An error of kind [`ServerErrorKind::Other`].
    pub fn new_msg(msg: &str) -> (e: ServerError)
        ensures
            e.message() == msg@,
            e.spec_kind() == ServerErrorKind::Other,
    {
        ServerError { msg: String::from_str(msg), kind: ServerErrorKind::Other }
    }

    /// An error of the given kind.
    pub fn new_kind(msg: &str, kind: ServerErrorKind) -> (e: ServerError)
        ensures
            e.message() == msg@,
            e.spec_kind() == kind,
    {
        ServerError { msg: String::from_str(msg), kind }
    }

    /// An error of the given kind, whose message is `msg` followed by `detail`.
    pub fn new_kind_with(msg: &str, detail: &str, kind: ServerErrorKind) -> (e: ServerError)
        ensures
            e.message() == msg@ + detail@,
            e.spec_kind() == kind,
    {
        let mut s = String::from_str(msg);
        s.append(detail);
        ServerError { msg: s, kind }
    }

    /// The kind of the error.
    pub fn kind(&self) -> (k: ServerErrorKind)
        ensures
            k == self.spec_kind(),
    {
        self.kind
    }

    /// The message of the error.
    pub fn msg(&self) -> (m: &str)
        ensures
            m@ == self.message(),
    {
        self.msg.as_str()
    }

    /// The broker error that an input/output error stands for: a dropped
    /// connection, a timeout, or another error with the same message.
    pub fn from_io(error: IoError) -> (e: ServerError)
        ensures
            e.spec_kind() == io_error_kind(error.spec_kind()),
            e.message() == io_error_message(error.spec_kind(), error.message()),
    {
        match error.kind() {
            IoErrorKind::UnexpectedEof | IoErrorKind::NotConnected | IoErrorKind::BrokenPipe
            | IoErrorKind::ConnectionReset => ServerError::new_kind(
                MSG_DISCONNECTED,
                ServerErrorKind::ClientDisconnected,
            ),
            IoErrorKind::WouldBlock => ServerError::new_kind(MSG_TIMEOUT, ServerErrorKind::Timeout),
            _ => ServerError::new_msg(error.msg()),
        }
    }

    /// The broker error that a packet error stands for: a timeout, a
    /// dropped connection, or another error with the same message.
    pub fn from_packet(error: PacketError) -> (e: ServerError)
        ensures
            e.spec_kind() == packet_error_kind(error.spec_kind()),
            e.message() == error.message(),
    {
        match error.kind() {
            ErrorKind::WouldBlock => ServerError::new_kind(error.msg(), ServerErrorKind::Timeout),
            ErrorKind::UnexpectedEof => ServerError::new_kind(
                error.msg(),
                ServerErrorKind::ClientDisconnected,
            ),
            _ => ServerError::new_msg(error.msg()),
        }
    }
}

} // verus!
