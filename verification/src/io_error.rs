//! Errors of the streams and files that the server uses.
use vstd::prelude::*;

verus! {

/// Kind of an input/output error.
#[derive(Debug, Clone, Copy, PartialEq, Eq, Structural)]
pub enum IoErrorKind {
    NotFound,
    UnexpectedEof,
    WouldBlock,
    ConnectionReset,
    NotConnected,
    BrokenPipe,
    InvalidData,
    Other,
}

/// An input/output error: its kind and a message.
#[derive(Debug)]
pub struct IoError {
    kind: IoErrorKind,
    msg: String,
}

impl IoError {
    /// The kind of the error.
    pub closed spec fn spec_kind(&self) -> IoErrorKind {
        self.kind
    }

    /// The message of the error.
    pub closed spec fn message(&self) -> Seq<char> {
        self.msg@
    }

    /// An error of the given kind and message.
    pub fn new(kind: IoErrorKind, msg: &str) -> (e: IoError)
        ensures
            e.spec_kind() == kind,
            e.message() == msg@,
    {
        IoError { kind, msg: String::from_str(msg) }
    }

    /// The kind of the error.
    pub fn kind(&self) -> (k: IoErrorKind)
        ensures
            k == self.spec_kind(),
    {
        self.kind
    }

    /// The message of the error.
    pub fn msg(&self) -> (m: &str)
        ensures
            m@ == self.message(),
    {
        self.msg.as_str()
    }
}

} // verus!
