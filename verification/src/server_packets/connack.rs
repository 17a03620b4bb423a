//! CONNACK: the server's answer to a CONNECT (MQTT v3.1.1, 3.2).
use vstd::prelude::*;

verus! {

/// Connect return code of a CONNACK.
#[derive(Debug, Clone, Copy, PartialEq, Eq, Structural)]
pub enum ConnackReturnCode {
    Accepted,
    UnacceptableProtocolVersion,
    IdentifierRejected,
    ServerUnavailable,
    BadUserNameOrPassword,
    NotAuthorized,
}

/// A CONNACK packet.
#[derive(Debug, Clone, Copy)]
pub struct Connack {
    session_present: bool,
    return_code: ConnackReturnCode,
}

/// First byte of every CONNACK.
pub const CONNACK_FIXED_FIRST_BYTE: u8 = 32;
/// Remaining length of every CONNACK.
pub const CONNACK_FIXED_REMAINING_LENGTH: u8 = 2;

/// The byte that carries a return code.
pub open spec fn return_code_byte(code: ConnackReturnCode) -> u8 {
    match code {
        ConnackReturnCode::Accepted => 0,
        ConnackReturnCode::UnacceptableProtocolVersion => 1,
        ConnackReturnCode::IdentifierRejected => 2,
        ConnackReturnCode::ServerUnavailable => 3,
        ConnackReturnCode::BadUserNameOrPassword => 4,
        ConnackReturnCode::NotAuthorized => 5,
    }
}

impl ConnackReturnCode {
    /// The byte that carries this return code.
    pub fn to_byte(self) -> (b: u8)
        ensures
            b == return_code_byte(self),
    {
        match self {
            ConnackReturnCode::Accepted => 0,
            ConnackReturnCode::UnacceptableProtocolVersion => 1,
            ConnackReturnCode::IdentifierRejected => 2,
            ConnackReturnCode::ServerUnavailable => 3,
            ConnackReturnCode::BadUserNameOrPassword => 4,
            ConnackReturnCode::NotAuthorized => 5,
        }
    }
}

impl From<ConnackReturnCode> for u8 {
    fn from(code: ConnackReturnCode) -> (b: u8) {
        code.to_byte()
    }
}

impl vstd::std_specs::convert::FromSpecImpl<ConnackReturnCode> for u8 {
    open spec fn obeys_from_spec() -> bool {
        true
    }

    open spec fn from_spec(code: ConnackReturnCode) -> u8 {
        return_code_byte(code)
    }
}

impl Connack {
    /// Whether the server already held a session for the client.
    pub closed spec fn spec_session_present(&self) -> bool {
        self.session_present
    }

    /// The return code.
    pub closed spec fn spec_return_code(&self) -> ConnackReturnCode {
        self.return_code
    }

    /// A CONNACK with the given session-present flag and return code.
    pub fn new(session_present: bool, return_code: ConnackReturnCode) -> (c: Connack)
        ensures
            c.spec_session_present() == session_present,
            c.spec_return_code() == return_code,
    {
        Connack { session_present, return_code }
    }

    /// The bytes of the packet.
    pub fn encode(&self) -> (v: Vec<u8>)
        ensures
            v@ == seq![
                CONNACK_FIXED_FIRST_BYTE,
                CONNACK_FIXED_REMAINING_LENGTH,
                if self.spec_session_present() { 1u8 } else { 0u8 },
                return_code_byte(self.spec_return_code()),
            ],
    {
        let mut bytes = vec![CONNACK_FIXED_FIRST_BYTE, CONNACK_FIXED_REMAINING_LENGTH];
        if self.session_present {
            bytes.push(1)
        } else {
            bytes.push(0)
        }
        bytes.push(u8::from(self.return_code));
        bytes
    }
}

} // verus!
