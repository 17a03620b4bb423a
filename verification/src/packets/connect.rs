//! CONNECT: the first packet of a client (MQTT v3.1.1, 3.1).
use crate::packets::packet_reader::{body_of, body_read_fails_with, read_packet_bytes, ErrorKind, PacketError, MSG_UNEXPECTED_EOF};
use crate::packets::publish::{valid_topic_name, MSG_INVALID_TOPIC_NAME};
use crate::packets::qos::QoSLevel;
use crate::packets::utf8::{decode_field, Field};
use crate::text::{chars_eq, chars_of, contains_char};
use vstd::prelude::*;
use vstd::slice::slice_subrange;

verus! {

/// Protocol level of MQTT v3.1.1.
pub const PROTOCOL_LEVEL: u8 = 4;
/// Message of the error for a protocol name other than "MQTT".
pub const MSG_INVALID_PROTOCOL: &'static str = "Invalid protocol";
/// Message of the error for a protocol name that cannot be read.
pub const MSG_INVALID_ENCODING: &'static str = "Invalid packet encoding";
/// Message of the error for a protocol level other than 4.
pub const MSG_INVALID_PROTOCOL_LEVEL: &'static str = "Invalid protocol level";
/// Message of the error that ends the reading of a CONNECT once its
/// protocol name and level are checked: the rest is not read yet.
pub const MSG_NOT_READ: &'static str = "error temporal";

/// The message that a client leaves to be published when it disconnects
/// without notice.
#[derive(Debug, Clone, PartialEq, Eq)]
pub struct LastWill {
    topic_name: String,
    topic_message: String,
    qos: QoSLevel,
    retain_flag: bool,
}

/// Contents of a last will.
pub struct LastWillView {
    pub topic_name: Seq<char>,
    pub topic_message: Seq<char>,
    pub qos: QoSLevel,
    pub retain_flag: bool,
}

impl LastWill {
    /// Contents of the last will.
    pub closed spec fn view_of(&self) -> LastWillView {
        LastWillView {
            topic_name: self.topic_name@,
            topic_message: self.topic_message@,
            qos: self.qos,
            retain_flag: self.retain_flag,
        }
    }

    /// Whether its topic can name the topic of a message.
    pub open spec fn wf(&self) -> bool {
        valid_topic_name(self.view_of().topic_name)
    }

    /// A last will to publish `topic_message` on `topic_name`. Fails with
    /// kind [`ErrorKind::InvalidProtocol`] when the topic name is not valid.
    pub fn new(topic_name: &str, topic_message: &str, qos: QoSLevel, retain_flag: bool) -> (r: Result<LastWill, PacketError>)
        ensures
            valid_topic_name(topic_name@) ==> (r matches Ok(w) && w.wf() && w.view_of() == (LastWillView {
                topic_name: topic_name@,
                topic_message: topic_message@,
                qos,
                retain_flag,
            })),
            !valid_topic_name(topic_name@) ==> (r matches Err(e) && e.spec_kind()
                == ErrorKind::InvalidProtocol && e.message() == MSG_INVALID_TOPIC_NAME@),
    {
        let topic = chars_of(topic_name);
        if topic.len() == 0 || contains_char(topic.as_slice(), '+') || contains_char(
            topic.as_slice(),
            '#',
        ) || topic_name.as_bytes().len() > crate::packets::utf8::MAX_FIELD_LEN {
            return Err(PacketError::new_kind(MSG_INVALID_TOPIC_NAME, ErrorKind::InvalidProtocol));
        }
        Ok(
            LastWill {
                topic_name: String::from_str(topic_name),
                topic_message: String::from_str(topic_message),
                qos,
                retain_flag,
            },
        )
    }

    /// The topic name.
    pub fn topic_name(&self) -> (t: &str)
        ensures
            t@ == self.view_of().topic_name,
    {
        self.topic_name.as_str()
    }

    /// The message.
    pub fn topic_message(&self) -> (t: &str)
        ensures
            t@ == self.view_of().topic_message,
    {
        self.topic_message.as_str()
    }

    /// The QoS.
    pub fn qos(&self) -> (q: QoSLevel)
        ensures
            q == self.view_of().qos,
    {
        self.qos
    }

    /// The retain flag.
    pub fn retain_flag(&self) -> (r: bool)
        ensures
            r == self.view_of().retain_flag,
    {
        self.retain_flag
    }
}

/// A CONNECT packet.
#[derive(Debug, Clone, PartialEq, Eq)]
pub struct Connect {
    client_id: String,
    clean_session: bool,
    user_name: Option<String>,
    password: Option<String>,
    last_will: Option<LastWill>,
    keep_alive: u16,
}

/// Contents of a CONNECT packet.
pub struct ConnectView {
    pub client_id: Seq<char>,
    pub clean_session: bool,
    pub user_name: Option<Seq<char>>,
    pub password: Option<Seq<char>>,
    pub last_will: Option<LastWillView>,
    pub keep_alive: u16,
}

/// View of an optional string.
pub open spec fn opt_view(s: Option<String>) -> Option<Seq<char>> {
    match s {
        Some(x) => Some(x@),
        None => None,
    }
}

impl Connect {
    /// Contents of the packet.
    pub closed spec fn view_of(&self) -> ConnectView {
        ConnectView {
            client_id: self.client_id@,
            clean_session: self.clean_session,
            user_name: opt_view(self.user_name),
            password: opt_view(self.password),
            last_will: match self.last_will {
                Some(w) => Some(w.view_of()),
                None => None,
            },
            keep_alive: self.keep_alive,
        }
    }

    /// Whether its last will, if any, is well formed.
    pub closed spec fn wf(&self) -> bool {
        self.last_will matches Some(w) ==> w.wf()
    }

    /// A CONNECT for `client_id` without user name, password or last will.
    pub fn with_id(client_id: &str, keep_alive: u16, clean_session: bool) -> (c: Connect)
        ensures
            c.wf(),
            c.view_of() == (ConnectView {
                client_id: client_id@,
                clean_session,
                user_name: None,
                password: None,
                last_will: None,
                keep_alive,
            }),
    {
        Connect {
            client_id: String::from_str(client_id),
            clean_session,
            user_name: None,
            password: None,
            last_will: None,
            keep_alive,
        }
    }

    /// Sets the user name.
    pub fn set_user_name(&mut self, user_name: &str)
        ensures
            final(self).view_of() == (ConnectView { user_name: Some(user_name@), ..old(self).view_of() }),
            old(self).wf() ==> final(self).wf(),
    {
        self.user_name = Some(String::from_str(user_name));
    }

    /// Sets the password.
    pub fn set_password(&mut self, password: &str)
        ensures
            final(self).view_of() == (ConnectView { password: Some(password@), ..old(self).view_of() }),
            old(self).wf() ==> final(self).wf(),
    {
        self.password = Some(String::from_str(password));
    }

    /// Sets the last will.
    pub fn set_last_will(&mut self, last_will: LastWill)
        requires
            last_will.wf(),
        ensures
            final(self).view_of() == (ConnectView { last_will: Some(last_will.view_of()), ..old(self).view_of() }),
            old(self).wf() ==> final(self).wf(),
    {
        self.last_will = Some(last_will);
    }

    /// Replaces the client identifier.
    pub fn set_id(&mut self, id: String)
        ensures
            final(self).view_of() == (ConnectView { client_id: id@, ..old(self).view_of() }),
            old(self).wf() ==> final(self).wf(),
    {
        self.client_id = id;
    }

    /// The client identifier.
    pub fn client_id(&self) -> (id: &str)
        ensures
            id@ == self.view_of().client_id,
    {
        self.client_id.as_str()
    }

    /// The clean session flag.
    pub fn clean_session(&self) -> (b: bool)
        ensures
            b == self.view_of().clean_session,
    {
        self.clean_session
    }

    /// The user name.
    pub fn user_name(&self) -> (u: Option<&String>)
        ensures
            match u {
                Some(s) => self.view_of().user_name == Some(s@),
                None => self.view_of().user_name is None,
            },
    {
        match &self.user_name {
            Some(s) => Some(s),
            None => None,
        }
    }

    /// The password.
    pub fn password(&self) -> (p: Option<&String>)
        ensures
            match p {
                Some(s) => self.view_of().password == Some(s@),
                None => self.view_of().password is None,
            },
    {
        match &self.password {
            Some(s) => Some(s),
            None => None,
        }
    }

    /// The keep alive, in seconds.
    pub fn keep_alive(&self) -> (k: u16)
        ensures
            k == self.view_of().keep_alive,
    {
        self.keep_alive
    }

    /// The last will.
    pub fn last_will(&self) -> (w: Option<&LastWill>)
        ensures
            match w {
                Some(x) => self.view_of().last_will == Some(x.view_of()) && (self.wf() ==> x.wf()),
                None => self.view_of().last_will is None,
            },
    {
        match &self.last_will {
            Some(x) => Some(x),
            None => None,
        }
    }

    /// Removes the last will and returns it.
    pub fn take_last_will(&mut self) -> (w: Option<LastWill>)
        ensures
            final(self).view_of() == (ConnectView { last_will: None, ..old(self).view_of() }),
            final(self).wf(),
            match w {
                Some(x) => old(self).view_of().last_will == Some(x.view_of()) && (old(self).wf() ==> x.wf()),
                None => old(self).view_of().last_will is None,
            },
    {
        self.last_will.take()
    }
}


/// Outcome of reading the start of a CONNECT body: its protocol name must
/// be "MQTT" and its protocol level 4; the error met first, or `None`
/// when both are right.
pub open spec fn connect_header_error(body: Seq<u8>) -> Option<(ErrorKind, Seq<char>)> {
    match decode_field(body) {
        None => Some((ErrorKind::Other, MSG_INVALID_ENCODING@)),
        Some((name, used)) => if name != "MQTT"@ {
            Some((ErrorKind::Other, MSG_INVALID_PROTOCOL@))
        } else if used >= body.len() {
            Some((ErrorKind::Other, MSG_UNEXPECTED_EOF@))
        } else if body[used as int] != PROTOCOL_LEVEL {
            Some((ErrorKind::InvalidProtocolLevel, MSG_INVALID_PROTOCOL_LEVEL@))
        } else {
            None
        },
    }
}

impl Connect {
    fn verify_protocol(bytes: &[u8]) -> (r: Result<usize, PacketError>)
        ensures
            match decode_field(bytes@) {
                None => r matches Err(e) && e.spec_kind() == ErrorKind::Other && e.message()
                    == MSG_INVALID_ENCODING@,
                Some((name, used)) => if name != "MQTT"@ {
                    r matches Err(e) && e.spec_kind() == ErrorKind::Other && e.message()
                        == MSG_INVALID_PROTOCOL@
                } else {
                    r == Ok::<usize, PacketError>(used as usize)
                },
            },
    {
        match Field::new_from_stream(bytes) {
            Some((field, n)) => {
                let name = chars_of(field.value.as_str());
                if !chars_eq(name.as_slice(), "MQTT") {
                    Err(PacketError::new_msg(MSG_INVALID_PROTOCOL))
                } else {
                    Ok(n)
                }
            },
            None => Err(PacketError::new_msg(MSG_INVALID_ENCODING)),
        }
    }

    fn verify_protocol_level(bytes: &[u8]) -> (r: Result<(), PacketError>)
        ensures
            bytes@.len() == 0 ==> (r matches Err(e) && e.spec_kind() == ErrorKind::Other
                && e.message() == MSG_UNEXPECTED_EOF@),
            bytes@.len() > 0 && bytes@[0] != PROTOCOL_LEVEL ==> (r matches Err(e) && e.spec_kind()
                == ErrorKind::InvalidProtocolLevel && e.message() == MSG_INVALID_PROTOCOL_LEVEL@),
            bytes@.len() > 0 && bytes@[0] == PROTOCOL_LEVEL ==> r is Ok,
    {
        if bytes.len() == 0 {
            return Err(PacketError::new_msg(MSG_UNEXPECTED_EOF));
        }
        if bytes[0] != PROTOCOL_LEVEL {
            return Err(PacketError::new_kind(MSG_INVALID_PROTOCOL_LEVEL, ErrorKind::InvalidProtocolLevel));
        }
        Ok(())
    }

    /// Reads a CONNECT whose fixed header is `fixed_header` and whose
    /// remaining bytes follow in `stream`.
    ///
    /// Checks the protocol name and level and then fails: the rest of the
    /// packet is not read, so the error is [`MSG_NOT_READ`] when both are
    /// right.
    pub fn new(fixed_header: [u8; 2], stream: &[u8]) -> (r: Result<Connect, PacketError>)
        ensures
            r is Err,
            match body_of(seq![fixed_header[1]] + stream@) {
                None => r matches Err(e) && body_read_fails_with(seq![fixed_header[1]] + stream@, e),
                Some((body, _)) => match connect_header_error(body) {
                    Some((kind, msg)) => r matches Err(e) && e.spec_kind() == kind && e.message() == msg,
                    None => r matches Err(e) && e.spec_kind() == ErrorKind::Other && e.message() == MSG_NOT_READ@,
                },
            },
    {
        let bytes = match read_packet_bytes(fixed_header, stream) {
            Ok(b) => b,
            Err(e) => return Err(e),
        };
        let used = match Connect::verify_protocol(bytes.as_slice()) {
            Ok(n) => n,
            Err(e) => return Err(e),
        };
        let rest = slice_subrange(bytes.as_slice(), used, bytes.len());
        match Connect::verify_protocol_level(rest) {
            Ok(()) => {},
            Err(e) => return Err(e),
        }
        Err(PacketError::new_msg(MSG_NOT_READ))
    }
}

} // verus!
