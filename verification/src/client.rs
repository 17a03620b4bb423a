//! Session state of one client: its connection, its last CONNECT and the
//! messages it has not acknowledged yet.
use crate::network_connection::{ConnectionId, NetworkConnection};
use crate::outside::{now_millis, random_packet_id};
use crate::packets::connect::{Connect, ConnectView, LastWillView};
use crate::packets::packet_reader::MAX_REMAINING_LENGTH;
use crate::packets::publish::{packet_id_matches, publish_body, publish_bytes, Publish, PublishView, MSG_PACKET_TOO_LONG};
use crate::packets::qos::QoSLevel;
use crate::server::server_error::{ServerError, ServerErrorKind, ServerResult};
use crate::text::{decimal_text, push_decimal_str};
use crate::traits::{Close, Interrupt, WriteBytes};
use vstd::prelude::*;

verus! {

/// How often, in milliseconds, unacknowledged messages are sent again.
pub const UNACK_RESENDING_FREQ: u64 = 500;
/// Start of the message of the error for a packet sent to a disconnected client.
pub const MSG_SEND_DISCONNECTED_START: &'static str = "Intento de envio de paquete a cliente <";
/// End of the message of the error for a packet sent to a disconnected client.
pub const MSG_SEND_DISCONNECTED_END: &'static str = "> desconectado";
/// Middle of the message of the error for a reconnection with another
/// client identifier.
pub const MSG_RECONNECT_OTHER_ID: &'static str = ">: Intento de reconexion con un cliente con id diferente (";
/// Start of the message of the error for an acknowledgement of no message.
pub const MSG_NOT_UNACKNOWLEDGED: &'static str = "Ningun paquete sin confirmar tiene el identificador ";
/// Message of the error for a clock that went back past a sending time.
pub const MSG_CLOCK_BACKWARDS: &'static str = "El reloj retrocedio";

/// State of a client on the server: its session, not what the server
/// keeps for every client (such as retained messages).
pub struct Client<S> {
    id: String,
    connection: Option<NetworkConnection<S, ConnectionId>>,
    connect: Connect,
    unacknowledged: Vec<(u64, Publish)>,
    /// The connection that the client closed last, if any.
    closed_connection: Ghost<Option<NetworkConnection<S, ConnectionId>>>,
}

/// The message published for a last will: same topic, payload, QoS and
/// retain flag, not a duplicate, with a packet identifier exactly when the
/// QoS is 1.
pub open spec fn is_last_will_publish(w: LastWillView, p: PublishView) -> bool {
    &&& p.dup == false
    &&& p.qos == w.qos
    &&& p.retain == w.retain_flag
    &&& p.topic_name == w.topic_name
    &&& p.payload == w.topic_message
    &&& packet_id_matches(w.qos, p.packet_id)
}

/// The message published for a last will carries what the client set in
/// its CONNECT: the topic, the message, the QoS and the retain flag; it is
/// not a duplicate, and has a packet identifier exactly for QoS 1.
pub proof fn lemma_last_will_publish_fields(w: LastWillView, p: PublishView)
    requires
        is_last_will_publish(w, p),
    ensures
        p.retain == w.retain_flag,
        p.topic_name == w.topic_name,
        p.payload == w.topic_message,
        p.qos == w.qos,
        !p.dup,
        p.packet_id is Some <==> w.qos == QoSLevel::QoSLevel1,
{
}

/// Unacknowledged messages after the acknowledgement of `packet_id`: the
/// first one with that identifier is removed.
pub open spec fn remove_acknowledged(unack: Seq<(u64, PublishView)>, packet_id: u16) -> Seq<(u64, PublishView)>
    decreases unack.len(),
{
    if unack.len() == 0 {
        unack
    } else if unack[0].1.packet_id == Some(packet_id) {
        unack.drop_first()
    } else {
        seq![unack[0]] + remove_acknowledged(unack.drop_first(), packet_id)
    }
}

/// Message of the error for a reconnection of the client `id` with the
/// CONNECT of the client `other`.
pub open spec fn reconnect_id_message(id: Seq<char>, other: Seq<char>) -> Seq<char> {
    "<"@ + id + MSG_RECONNECT_OTHER_ID@ + other + ")"@
}

/// Whether some unacknowledged message has the packet identifier
/// `packet_id`.
pub open spec fn has_packet_id(unack: Seq<(u64, PublishView)>, packet_id: u16) -> bool {
    exists|j: int| 0 <= j < unack.len() && (#[trigger] unack[j]).1.packet_id == Some(packet_id)
}

/// Whether the oldest of the unacknowledged messages `unack` is due to be
/// sent again at time `now`: more than `min_elapsed` milliseconds passed
/// since it was last sent, or always without `min_elapsed`.
pub open spec fn resend_due(unack: Seq<(u64, PublishView)>, min_elapsed: Option<u64>, now: u64) -> bool {
    &&& unack.len() > 0
    &&& match min_elapsed {
        Some(m) => now - unack[0].0 > m,
        None => true,
    }
}

/// Whether `c` is the connection with identifier `id`, with its stream
/// closed.
pub open spec fn closed_as<S: Close>(c: NetworkConnection<S, ConnectionId>, id: ConnectionId) -> bool {
    c.spec_id() == id && c.spec_stream().closed()
}

/// Whether closing the stream `s`, when there is one, succeeds.
pub open spec fn close_succeeds_opt<S: Close>(s: Option<S>) -> bool {
    match s {
        Some(x) => x.close_succeeds(),
        None => true,
    }
}

/// Whether setting how long reads of the stream `s` wait, when there is
/// one, succeeds.
pub open spec fn wait_succeeds_opt<S: Interrupt>(s: Option<S>) -> bool {
    match s {
        Some(x) => x.wait_succeeds(),
        None => true,
    }
}

/// Whether the stream `s2` is the stream `s` with `bytes` written after
/// what it held.
pub open spec fn wrote<S: WriteBytes>(s: Option<S>, s2: Option<S>, bytes: Seq<u8>) -> bool {
    s matches Some(a) && s2 matches Some(b) && b.wrote_after(&a, bytes)
}

/// Whether the clock, reading `now`, is behind the time the oldest of the
/// unacknowledged messages `unack` was last sent, when a minimum elapsed
/// time `min_elapsed` is asked for.
pub open spec fn clock_behind(unack: Seq<(u64, PublishView)>, min_elapsed: Option<u64>, now: u64) -> bool {
    min_elapsed is Some && unack.len() > 0 && unack[0].0 > now
}

/// How the unacknowledged messages `old` become `new` when the oldest one
/// is sent again at time `now`, if due (`ok` tells whether that
/// succeeded): nothing changes and it fails when the clock is behind (see
/// [`clock_behind`]); a message is due when more than `min_elapsed`
/// milliseconds passed since it was last sent, or always without
/// `min_elapsed`; a sent message gets `now` as its time, one whose sending
/// failed is dropped.
pub open spec fn resent(
    old: Seq<(u64, PublishView)>,
    new: Seq<(u64, PublishView)>,
    min_elapsed: Option<u64>,
    now: u64,
    ok: bool,
) -> bool {
    if old.len() == 0 {
        ok && new == old
    } else if clock_behind(old, min_elapsed, now) {
        !ok && new == old
    } else {
        let first = old[0];
        if !resend_due(old, min_elapsed, now) {
            ok && new == old
        } else if ok {
            new == old.update(0, (now, first.1))
        } else {
            new == old.drop_first()
        }
    }
}

/// The unacknowledged messages `unack` after `p` is sent at time `now`: a
/// QoS 1 message is kept, marked as a duplicate.
pub open spec fn sent_publish(unack: Seq<(u64, PublishView)>, p: PublishView, now: u64) -> Seq<(u64, PublishView)> {
    if p.qos == QoSLevel::QoSLevel1 {
        unack.push((now, PublishView { dup: true, ..p }))
    } else {
        unack
    }
}

/// Keep alive of a CONNECT in milliseconds: one and a half times the
/// seconds it asks for, none when it asks for zero (MQTT v3.1.1, 3.1.2.10).
pub open spec fn keep_alive_millis(keep_alive: u16) -> Option<u64> {
    if keep_alive == 0 {
        None
    } else {
        Some((1500 * keep_alive) as u64)
    }
}

/// Whether sending `bytes` to the client `c` gives the client `c2` and the
/// result `r`: the session is unchanged; a disconnected client fails with
/// kind [`ServerErrorKind::ClientDisconnected`]; on success `bytes` were
/// written to the stream; and the result is that of the write.
pub open spec fn packet_sent<S: WriteBytes>(c: Client<S>, c2: Client<S>, bytes: Seq<u8>, r: &ServerResult<()>) -> bool {
    &&& c2.spec_id() == c.spec_id()
    &&& c2.spec_connection_id() == c.spec_connection_id()
    &&& c2.spec_connect() == c.spec_connect()
    &&& c2.spec_unacknowledged() == c.spec_unacknowledged()
    &&& c.spec_connection_id() is None ==> (r matches Err(e) && e.spec_kind() == ServerErrorKind::ClientDisconnected
        && e.message() == MSG_SEND_DISCONNECTED_START@ + c.spec_id() + MSG_SEND_DISCONNECTED_END@)
    &&& r is Ok ==> wrote(c.spec_stream(), c2.spec_stream(), bytes)
    &&& c.spec_stream() matches Some(s) ==> (s.write_succeeds() ==> r is Ok)
    &&& c.spec_stream() matches Some(s) ==> (s.write_fails() ==> r is Err)
}

/// Whether the stream `s2` is the stream `s` with `bytes` written after
/// what it held, then possibly set to wait at most
/// [`UNACK_RESENDING_FREQ`] milliseconds on reads.
pub open spec fn wrote_then_waited<S: WriteBytes + Interrupt>(s: Option<S>, s2: Option<S>, bytes: Seq<u8>) -> bool {
    exists|mid: S|
        #[trigger] wrote(s, Some(mid), bytes) && (s2 == Some(mid) || (s2 matches Some(f) && f.same_stream_as(&mid)
            && f.reads_wait(Some(UNACK_RESENDING_FREQ))))
}

/// Whether sending the message `p` to the client `c` at time `now` gives
/// the client `c2` and the result `r` (see [`Client::send_publish_at`]).
pub open spec fn publish_sent<S: WriteBytes + Interrupt>(
    c: Client<S>,
    c2: Client<S>,
    p: PublishView,
    now: u64,
    r: &ServerResult<()>,
) -> bool {
    &&& c2.spec_id() == c.spec_id()
    &&& c2.spec_connect() == c.spec_connect()
    &&& c2.spec_connection_id() == c.spec_connection_id()
    &&& r is Ok ==> c2.spec_unacknowledged() == sent_publish(c.spec_unacknowledged(), p, now)
    &&& r is Err ==> c2.spec_unacknowledged() == c.spec_unacknowledged() || c2.spec_unacknowledged() == sent_publish(
        c.spec_unacknowledged(),
        p,
        now,
    )
    &&& c.spec_connection_id() is None ==> r is Ok && c2.spec_stream() == c.spec_stream()
    &&& c.spec_connection_id() is Some && publish_body(p).len() > MAX_REMAINING_LENGTH ==> (r matches Err(e)
        && e.spec_kind() == ServerErrorKind::Other && e.message() == MSG_PACKET_TOO_LONG@ && c2.spec_unacknowledged()
        == c.spec_unacknowledged())
    &&& c.spec_connection_id() is Some && r is Ok ==> wrote_then_waited(c.spec_stream(), c2.spec_stream(), publish_bytes(p))
    &&& c.spec_stream() matches Some(s) ==> (s.write_succeeds() && publish_body(p).len() <= MAX_REMAINING_LENGTH && (
    forall|m: S| #[trigger] m.wrote_after(&s, publish_bytes(p)) ==> m.wait_succeeds()) ==> r is Ok)
}

/// Whether sending the oldest unacknowledged message of the client `c`
/// again at time `now` gives the client `c2` and the result `r` (see
/// [`Client::send_unacknowledged_at`]).
pub open spec fn unack_resent<S: WriteBytes>(
    c: Client<S>,
    c2: Client<S>,
    min_elapsed: Option<u64>,
    now: u64,
    r: &ServerResult<()>,
) -> bool {
    let unack = c.spec_unacknowledged();
    &&& c2.spec_id() == c.spec_id()
    &&& c2.spec_connect() == c.spec_connect()
    &&& c2.spec_connection_id() == c.spec_connection_id()
    &&& resent(unack, c2.spec_unacknowledged(), min_elapsed, now, r is Ok)
    &&& clock_behind(unack, min_elapsed, now) ==> (r matches Err(e) && e.spec_kind() == ServerErrorKind::Other
        && e.message() == MSG_CLOCK_BACKWARDS@)
    &&& c.spec_connection_id() is None && c2.spec_unacknowledged() != unack ==> (r matches Err(e) && e.spec_kind()
        == ServerErrorKind::ClientDisconnected)
    &&& r is Ok && resend_due(unack, min_elapsed, now) ==> wrote(c.spec_stream(), c2.spec_stream(), publish_bytes(unack[0].1))
    &&& !resend_due(unack, min_elapsed, now) ==> c2.spec_stream() == c.spec_stream()
    &&& c.spec_stream() matches Some(s) ==> (resend_due(unack, min_elapsed, now) && publish_body(unack[0].1).len()
        <= MAX_REMAINING_LENGTH && s.write_succeeds() ==> r is Ok)
}

/// Whether the acknowledgement of `packet_id` by the client `c` gives the
/// client `c2` and the result `r` (see [`Client::acknowledge`]).
pub open spec fn acknowledged<S: Interrupt>(c: Client<S>, c2: Client<S>, packet_id: u16, r: &ServerResult<()>) -> bool {
    let unack = c.spec_unacknowledged();
    &&& c2.spec_id() == c.spec_id()
    &&& c2.spec_connect() == c.spec_connect()
    &&& c2.spec_connection_id() == c.spec_connection_id()
    &&& c2.spec_unacknowledged() == remove_acknowledged(unack, packet_id)
    &&& !has_packet_id(unack, packet_id) ==> (r matches Err(e) && e.spec_kind() == ServerErrorKind::Other && e.message()
        == MSG_NOT_UNACKNOWLEDGED@ + decimal_text(packet_id as nat))
    &&& has_packet_id(unack, packet_id) && c2.spec_unacknowledged().len() > 0 ==> r is Ok && c2.spec_stream()
        == c.spec_stream()
    &&& has_packet_id(unack, packet_id) && c.spec_connection_id() is None ==> r is Ok && c2.spec_stream()
        == c.spec_stream()
    &&& has_packet_id(unack, packet_id) && wait_succeeds_opt(c.spec_stream()) ==> r is Ok
    &&& has_packet_id(unack, packet_id) && c2.spec_unacknowledged().len() == 0 && r is Ok && c.spec_connection_id() is Some
        ==> (c2.spec_stream() matches Some(x) && x.reads_wait(keep_alive_millis(c.spec_connect().keep_alive)))
}

impl<S> Client<S> {
    /// The client identifier.
    pub closed spec fn spec_id(&self) -> Seq<char> {
        self.id@
    }

    /// The identifier of the current connection, if connected.
    pub closed spec fn spec_connection_id(&self) -> Option<ConnectionId> {
        match self.connection {
            Some(c) => Some(c.spec_id()),
            None => None,
        }
    }

    /// The stream of the current connection, if connected.
    pub closed spec fn spec_stream(&self) -> Option<S> {
        match self.connection {
            Some(c) => Some(c.spec_stream()),
            None => None,
        }
    }

    /// The connection that the client closed last, if any.
    pub closed spec fn spec_closed_connection(&self) -> Option<NetworkConnection<S, ConnectionId>> {
        self.closed_connection@
    }

    /// The CONNECT of the last session.
    pub closed spec fn spec_connect(&self) -> ConnectView {
        self.connect.view_of()
    }

    /// The messages not acknowledged yet, with the time they were last sent.
    pub closed spec fn spec_unacknowledged(&self) -> Seq<(u64, PublishView)> {
        self.unacknowledged@.map_values(|e: (u64, Publish)| (e.0, e.1.view_of()))
    }

    /// The client identifier is the one of its CONNECT, its last will is
    /// well formed, and every unacknowledged message is a well-formed QoS 1
    /// message.
    pub closed spec fn wf(&self) -> bool {
        &&& self.id@ == self.connect.view_of().client_id
        &&& self.connect.wf()
        &&& forall|i: int|
            0 <= i < self.unacknowledged@.len() ==> (#[trigger] self.unacknowledged@[i]).1.wf()
                && self.unacknowledged@[i].1.view_of().qos == QoSLevel::QoSLevel1
    }

    /// A connected client whose session starts with `connect`.
    pub fn new(connect: Connect, network_connection: NetworkConnection<S, ConnectionId>) -> (c: Self)
        requires
            connect.wf(),
        ensures
            c.wf(),
            c.spec_id() == connect.view_of().client_id,
            c.spec_connect() == connect.view_of(),
            c.spec_connection_id() == Some(network_connection.spec_id()),
            c.spec_unacknowledged() == Seq::<(u64, PublishView)>::empty(),
    {
        let id = String::from_str(connect.client_id());
        let c = Self {
            id,
            connect,
            unacknowledged: Vec::new(),
            connection: Some(network_connection),
            closed_connection: Ghost(None),
        };
        proof {
            assert(c.spec_unacknowledged() =~= Seq::<(u64, PublishView)>::empty());
        }
        c
    }

    /// The client identifier.
    pub fn id(&self) -> (id: &str)
        ensures
            id@ == self.spec_id(),
    {
        self.id.as_str()
    }

    /// Whether `id` is the client identifier.
    pub fn has_id(&self, id: &String) -> (b: bool)
        ensures
            b == (self.spec_id() == id@),
    {
        self.id == *id
    }

    /// Whether the client is connected.
    pub fn connected(&self) -> (b: bool)
        ensures
            b == self.spec_connection_id() is Some,
    {
        self.connection.is_some()
    }

    /// The clean session flag of the last session.
    pub fn clean_session(&self) -> (b: bool)
        ensures
            b == self.spec_connect().clean_session,
    {
        self.connect.clean_session()
    }

    /// Longest time, in milliseconds, that the client may stay silent
    /// before the server disconnects it; none when it asked for no limit.
    pub fn keep_alive(&self) -> (k: Option<u64>)
        ensures
            k == keep_alive_millis(self.spec_connect().keep_alive),
    {
        let keep_alive = self.connect.keep_alive();
        if keep_alive == 0 {
            None
        } else {
            Some(1500 * keep_alive as u64)
        }
    }

    /// The user name of the last session.
    pub fn user_name(&self) -> (u: Option<&String>)
        ensures
            match u {
                Some(s) => self.spec_connect().user_name == Some(s@),
                None => self.spec_connect().user_name is None,
            },
    {
        self.connect.user_name()
    }

    /// The identifier of the current connection, if connected.
    pub fn connection_id(&self) -> (i: Option<ConnectionId>)
        ensures
            i == self.spec_connection_id(),
    {
        match &self.connection {
            Some(c) => Some(*c.id()),
            None => None,
        }
    }

    /// The current connection, if connected.
    pub fn connection(&self) -> (c: Option<&NetworkConnection<S, ConnectionId>>)
        ensures
            match c {
                Some(x) => self.spec_connection_id() == Some(x.spec_id()),
                None => self.spec_connection_id() is None,
            },
    {
        match &self.connection {
            Some(x) => Some(x),
            None => None,
        }
    }

    /// The CONNECT of the last session.
    pub fn connect(&self) -> (c: &Connect)
        ensures
            c.view_of() == self.spec_connect(),
    {
        &self.connect
    }

    /// Number of unacknowledged messages.
    pub fn unacknowledged_len(&self) -> (n: usize)
        ensures
            n == self.spec_unacknowledged().len(),
    {
        self.unacknowledged.len()
    }

    /// The `i`-th unacknowledged message.
    pub fn unacknowledged_at(&self, i: usize) -> (p: &Publish)
        requires
            i < self.spec_unacknowledged().len(),
        ensures
            p.view_of() == self.spec_unacknowledged()[i as int].1,
    {
        &self.unacknowledged[i].1
    }
}

impl<S: WriteBytes + Close + Interrupt> Client<S> {
    fn disconnected_error(&self) -> (e: ServerError)
        ensures
            e.spec_kind() == ServerErrorKind::ClientDisconnected,
            e.message() == MSG_SEND_DISCONNECTED_START@ + self.spec_id() + MSG_SEND_DISCONNECTED_END@,
    {
        let mut detail = String::from_str(self.id.as_str());
        detail.append(MSG_SEND_DISCONNECTED_END);
        let e = ServerError::new_kind_with(
            MSG_SEND_DISCONNECTED_START,
            detail.as_str(),
            ServerErrorKind::ClientDisconnected,
        );
        proof {
            assert(MSG_SEND_DISCONNECTED_START@ + (self.id@ + MSG_SEND_DISCONNECTED_END@)
                == MSG_SEND_DISCONNECTED_START@ + self.id@ + MSG_SEND_DISCONNECTED_END@);
        }
        e
    }

    /// Sends `bytes` to the client through its connection.
    ///
    /// Fails with kind [`ServerErrorKind::ClientDisconnected`] when the
    /// client is not connected. A [`Publish`] should go through
    /// [`Client::send_publish`] instead, so that it is kept until it is
    /// acknowledged.
    pub fn send_packet(&mut self, bytes: &[u8]) -> (r: ServerResult<()>)
        ensures
            packet_sent(*old(self), *final(self), bytes@, &r),
            old(self).wf() ==> final(self).wf(),
    {
        if self.connection.is_none() {
            return Err(self.disconnected_error());
        }
        match &mut self.connection {
            Some(connection) => match connection.write_all(bytes) {
                Ok(()) => Ok(()),
                Err(e) => Err(ServerError::from_io(e)),
            },
            None => Ok(()),
        }
    }

    /// Encodes `publish` and sends it through the connection.
    fn send_publish_packet(&mut self, publish: &Publish) -> (r: ServerResult<()>)
        requires
            publish.wf(),
        ensures
            final(self).spec_id() == old(self).spec_id(),
            final(self).spec_connection_id() == old(self).spec_connection_id(),
            final(self).spec_connect() == old(self).spec_connect(),
            final(self).spec_unacknowledged() == old(self).spec_unacknowledged(),
            old(self).wf() ==> final(self).wf(),
            old(self).spec_connection_id() is None ==> (r matches Err(e) && e.spec_kind()
                == ServerErrorKind::ClientDisconnected),
            old(self).spec_connection_id() is Some && publish_body(publish.view_of()).len() > MAX_REMAINING_LENGTH
                ==> (r matches Err(e) && e.spec_kind() == ServerErrorKind::Other && e.message()
                == MSG_PACKET_TOO_LONG@ && final(self).spec_stream() == old(self).spec_stream()),
            r is Ok ==> wrote(old(self).spec_stream(), final(self).spec_stream(), publish_bytes(publish.view_of())),
            old(self).spec_stream() matches Some(s) ==> (s.write_succeeds() && publish_body(publish.view_of()).len()
                <= MAX_REMAINING_LENGTH ==> r is Ok),
    {
        if self.connection.is_none() {
            return Err(self.disconnected_error());
        }
        let bytes = match publish.encode() {
            Ok(b) => b,
            Err(e) => return Err(ServerError::from_packet(e)),
        };
        self.send_packet(bytes.as_slice())
    }

    /// Disconnects the client: closes its connection, so that neither end
    /// can use it, and drops its last will.
    ///
    /// When `gracefully` is false and the last session had a last will,
    /// returns the message to publish for it (its packet identifier, for
    /// QoS 1, is drawn at random). Does nothing when the client was already
    /// disconnected. Fails only when closing the connection fails; the last
    /// will is then kept.
    pub fn disconnect(&mut self, gracefully: bool) -> (r: ServerResult<Option<Publish>>)
        requires
            old(self).wf(),
        ensures
            final(self).wf(),
            final(self).spec_id() == old(self).spec_id(),
            final(self).spec_connection_id() is None,
            final(self).spec_unacknowledged() == old(self).spec_unacknowledged(),
            old(self).spec_connection_id() is None ==> (r matches Ok(None) && *final(self) == *old(self)),
            close_succeeds_opt(old(self).spec_stream()) ==> r is Ok,
            old(self).spec_connection_id() matches Some(id) ==> (r is Ok ==> (final(self).spec_closed_connection() matches Some(c)
                && closed_as(c, id))),
            r is Err ==> final(self).spec_connect() == old(self).spec_connect(),
            r matches Ok(Some(p)) ==> (old(self).spec_connect().last_will matches Some(w) && p.view_of().retain
                == w.retain_flag && p.view_of().topic_name == w.topic_name && p.view_of().payload == w.topic_message
                && p.view_of().qos == w.qos && !p.view_of().dup),
            old(self).spec_connection_id() is Some ==> (r matches Ok(lw) ==> {
                &&& final(self).spec_connect() == (ConnectView { last_will: None, ..old(self).spec_connect() })
                &&& (gracefully ==> lw is None)
                &&& (!gracefully ==> match old(self).spec_connect().last_will {
                    None => lw is None,
                    Some(w) => lw matches Some(p) && p.wf() && is_last_will_publish(w, p.view_of()),
                })
            }),
    {
        match self.connection.take() {
            Some(mut connection) => match connection.close() {
                Ok(()) => {
                    self.closed_connection = Ghost(Some(connection));
                },
                Err(e) => return Err(ServerError::from_io(e)),
            },
            None => return Ok(None),
        }
        if gracefully {
            self.connect.take_last_will();
            Ok(None)
        } else if let Some(last_will) = self.connect.take_last_will() {
            let packet_identifier: Option<u16> = if last_will.qos() != QoSLevel::QoSLevel0 {
                Some(random_packet_id())
            } else {
                None
            };
            match Publish::new(
                false,
                last_will.qos(),
                last_will.retain_flag(),
                last_will.topic_name(),
                last_will.topic_message(),
                packet_identifier,
            ) {
                Ok(p) => Ok(Some(p)),
                Err(_) => {
                    proof {
                        assert(false);
                    }
                    Ok(None)
                },
            }
        } else {
            Ok(None)
        }
    }

    /// Connects the client again with `new_connect` over `new_connection`,
    /// without sending the CONNACK.
    ///
    /// A session with clean session set drops the unacknowledged messages.
    /// The previous connection, if any, is closed as by an ungraceful
    /// disconnection, and the message of the previous last will, if any, is
    /// returned (client take-over). Fails with kind
    /// [`ServerErrorKind::Irrecoverable`] when `new_connect` is for another
    /// client.
    pub fn reconnect(&mut self, new_connect: Connect, new_connection: NetworkConnection<S, ConnectionId>) -> (r: ServerResult<Option<Publish>>)
        requires
            old(self).wf(),
            new_connect.wf(),
        ensures
            final(self).wf(),
            final(self).spec_id() == old(self).spec_id(),
            new_connect.view_of().client_id != old(self).spec_id() ==> (r matches Err(e) && e.spec_kind()
                == ServerErrorKind::Irrecoverable && final(self).spec_connect() == old(self).spec_connect()
                && final(self).spec_connection_id() == old(self).spec_connection_id()
                && final(self).spec_unacknowledged() == old(self).spec_unacknowledged()),
            new_connect.view_of().client_id == old(self).spec_id() ==> final(self).spec_unacknowledged() == (if new_connect.view_of().clean_session {
                Seq::<(u64, PublishView)>::empty()
            } else {
                old(self).spec_unacknowledged()
            }),
            new_connect.view_of().client_id == old(self).spec_id() && r is Err ==> final(self).spec_connect()
                == old(self).spec_connect() && final(self).spec_connection_id() is None,
            r matches Ok(lw) ==> {
                &&& final(self).spec_connect() == new_connect.view_of()
                &&& final(self).spec_connection_id() == Some(new_connection.spec_id())
                &&& match old(self).spec_connect().last_will {
                    Some(w) if old(self).spec_connection_id() is Some => lw matches Some(p) && p.wf()
                        && is_last_will_publish(w, p.view_of()),
                    _ => lw is None,
                }
            },
            new_connect.view_of().client_id == old(self).spec_id() && close_succeeds_opt(old(self).spec_stream()) ==> r is Ok,
            old(self).spec_connection_id() matches Some(id) ==> (r is Ok ==> (final(self).spec_closed_connection() matches Some(c)
                && closed_as(c, id))),
    {
        match self.check_reconnect_id(&new_connect) {
            Ok(()) => {},
            Err(e) => return Err(e),
        }
        if new_connect.clean_session() {
            self.unacknowledged = Vec::new();
            proof {
                assert(self.spec_unacknowledged() =~= Seq::<(u64, PublishView)>::empty());
            }
        }
        let last_will = match self.disconnect(false) {
            Ok(lw) => lw,
            Err(e) => return Err(e),
        };
        self.connection = Some(new_connection);
        self.connect = new_connect;
        Ok(last_will)
    }

    /// Fails with kind [`ServerErrorKind::Irrecoverable`] when
    /// `new_connect` is for another client.
    fn check_reconnect_id(&self, new_connect: &Connect) -> (r: ServerResult<()>)
        ensures
            new_connect.view_of().client_id == self.spec_id() ==> r is Ok,
            new_connect.view_of().client_id != self.spec_id() ==> (r matches Err(e) && e.spec_kind()
                == ServerErrorKind::Irrecoverable && e.message() == reconnect_id_message(
                self.spec_id(),
                new_connect.view_of().client_id,
            )),
    {
        if crate::text::chars_eq(crate::text::chars_of(self.id.as_str()).as_slice(), new_connect.client_id()) {
            return Ok(());
        }
        let mut msg = String::from_str("<");
        msg.append(self.id.as_str());
        msg.append(MSG_RECONNECT_OTHER_ID);
        msg.append(new_connect.client_id());
        msg.append(")");
        proof {
            assert(msg@ == reconnect_id_message(self.spec_id(), new_connect.view_of().client_id));
        }
        Err(ServerError::new_kind(msg.as_str(), ServerErrorKind::Irrecoverable))
    }

    /// Removes from the unacknowledged messages the first one whose packet
    /// identifier is `packet_id` (the client acknowledged it with a
    /// PUBACK). When none is left, the connection's reads wait for the keep
    /// alive again (without limit when there is none). Fails with kind
    /// [`ServerErrorKind::Other`], changing nothing, when no message has
    /// that packet identifier.
    pub fn acknowledge(&mut self, packet_id: u16) -> (r: ServerResult<()>)
        requires
            old(self).wf(),
        ensures
            final(self).wf(),
            acknowledged(*old(self), *final(self), packet_id, &r),
    {
        let ghost old_unack = self.spec_unacknowledged();
        let mut i: usize = 0;
        let mut found = false;
        proof {
            assert(old_unack.skip(0) == old_unack);
            assert(old_unack.take(0) + remove_acknowledged(old_unack, packet_id) == remove_acknowledged(old_unack, packet_id));
        }
        while i < self.unacknowledged.len()
            invariant_except_break
                !found,
            invariant
                i <= self.unacknowledged@.len(),
                old_unack == self.spec_unacknowledged(),
                remove_acknowledged(old_unack, packet_id) == old_unack.take(i as int) + remove_acknowledged(old_unack.skip(i as int), packet_id),
                forall|j: int| 0 <= j < i ==> old_unack[j].1.packet_id != Some(packet_id),
            ensures
                i <= self.unacknowledged@.len(),
                old_unack == self.spec_unacknowledged(),
                remove_acknowledged(old_unack, packet_id) == old_unack.take(i as int) + remove_acknowledged(old_unack.skip(i as int), packet_id),
                found ==> i < self.unacknowledged@.len() && old_unack[i as int].1.packet_id == Some(packet_id),
                !found ==> i == self.unacknowledged@.len(),
            decreases self.unacknowledged@.len() - i,
        {
            proof {
                assert(old_unack.skip(i as int)[0] == old_unack[i as int]);
                assert(old_unack.skip(i as int).drop_first() == old_unack.skip(i + 1));
            }
            let matches = match self.unacknowledged[i].1.packet_id() {
                Some(id) => id == packet_id,
                None => false,
            };
            if matches {
                proof {
                    assert(old_unack[i as int].1 == self.unacknowledged@[i as int].1.view_of());
                }
                found = true;
                break;
            }
            proof {
                assert(old_unack.take(i + 1) == old_unack.take(i as int) + seq![old_unack[i as int]]);
            }
            i = i + 1;
        }
        if !found {
            proof {
                assert(old_unack.skip(i as int) == Seq::<(u64, PublishView)>::empty());
                assert(old_unack.take(i as int) == old_unack);
            }
        } else {
            proof {
                assert(old_unack.skip(i as int)[0] == old_unack[i as int]);
                assert(old_unack.skip(i as int).drop_first() == old_unack.skip(i + 1));
            }
        }
        if !found {
            proof {
                assert(!has_packet_id(old_unack, packet_id));
            }
            let mut msg = String::from_str(MSG_NOT_UNACKNOWLEDGED);
            push_decimal_str(&mut msg, packet_id as u64);
            return Err(ServerError::new_msg(msg.as_str()));
        }
        self.unacknowledged.remove(i);
        proof {
            assert(self.spec_unacknowledged() =~= old_unack.take(i as int) + old_unack.skip(i + 1));
        }
        if self.unacknowledged.len() == 0 {
            match self.keep_alive() {
                None => {
                    if let Some(connection) = &mut self.connection {
                        match connection.sleep() {
                            Ok(()) => {},
                            Err(e) => return Err(ServerError::from_io(e)),
                        }
                    }
                },
                Some(keep_alive) => {
                    if let Some(connection) = &mut self.connection {
                        match connection.alert(keep_alive) {
                            Ok(()) => {},
                            Err(e) => return Err(ServerError::from_io(e)),
                        }
                    }
                },
            }
        }
        Ok(())
    }

    /// Sends the oldest unacknowledged message again, at time `now`
    /// (milliseconds).
    ///
    /// With `min_elapsed`, the message is sent only when more than that
    /// many milliseconds passed since it was last sent; its sending time
    /// becomes `now` when it is sent. When sending fails the message is
    /// dropped from the list. With `min_elapsed`, fails with kind
    /// [`ServerErrorKind::Other`], changing nothing, when `now` is earlier
    /// than the time the message was last sent.
    pub fn send_unacknowledged_at(&mut self, min_elapsed: Option<u64>, now: u64) -> (r: ServerResult<()>)
        requires
            old(self).wf(),
        ensures
            final(self).wf(),
            unack_resent(*old(self), *final(self), min_elapsed, now, &r),
    {
        if self.unacknowledged.len() == 0 {
            return Ok(());
        }
        if min_elapsed.is_some() && self.unacknowledged[0].0 > now {
            proof {
                assert(self.spec_unacknowledged()[0].0 == self.unacknowledged@[0].0);
            }
            return Err(ServerError::new_msg(MSG_CLOCK_BACKWARDS));
        }
        let ghost old_unack = self.spec_unacknowledged();
        let (last_time_published, publish) = self.unacknowledged.remove(0);
        proof {
            assert(self.spec_unacknowledged() =~= old_unack.drop_first());
            assert(old_unack[0] == (last_time_published, publish.view_of()));
        }
        let due = match min_elapsed {
            Some(min_elapsed) => now - last_time_published > min_elapsed,
            None => true,
        };
        if due {
            match self.send_publish_packet(&publish) {
                Ok(()) => {},
                Err(e) => return Err(e),
            }
            let ghost before = self.unacknowledged@;
            let ghost pv = publish.view_of();
            assert(before.map_values(|e: (u64, Publish)| (e.0, e.1.view_of())) == old_unack.drop_first());
            self.unacknowledged.insert(0, (now, publish));
            proof {
                assert(self.unacknowledged@ == before.insert(0, (now, publish)));
                assert(self.spec_unacknowledged() =~= old_unack.drop_first().insert(0, (now, pv)));
                assert(old_unack.drop_first().insert(0, (now, pv)) =~= old_unack.update(0, (now, old_unack[0].1)));
            }
        } else {
            self.unacknowledged.insert(0, (last_time_published, publish));
            proof {
                assert(self.spec_unacknowledged() =~= old_unack);
            }
        }
        Ok(())
    }

    /// Sends the oldest unacknowledged message again, at the time of the
    /// clock (see [`Client::send_unacknowledged_at`]).
    pub fn send_unacknowledged(&mut self, min_elapsed: Option<u64>) -> (r: ServerResult<()>)
        requires
            old(self).wf(),
        ensures
            final(self).wf(),
            exists|now: u64| #[trigger] unack_resent(*old(self), *final(self), min_elapsed, now, &r),
    {
        let now = now_millis();
        self.send_unacknowledged_at(min_elapsed, now)
    }

    /// Sends `publish` to the client, if connected, at time `now`
    /// (milliseconds). A QoS 1 message is also kept, marked as a
    /// duplicate, until the client acknowledges it; when more than one is
    /// kept, the connection's reads wait at most [`UNACK_RESENDING_FREQ`]
    /// milliseconds so that they are sent again.
    pub fn send_publish_at(&mut self, publish: Publish, now: u64) -> (r: ServerResult<()>)
        requires
            old(self).wf(),
            publish.wf(),
        ensures
            final(self).wf(),
            publish_sent(*old(self), *final(self), publish.view_of(), now, &r),
    {
        let mut publish = publish;
        if self.connected() {
            match self.send_publish_packet(&publish) {
                Ok(()) => {},
                Err(e) => return Err(e),
            }
        }
        if publish.qos() == QoSLevel::QoSLevel1 {
            publish.set_dup(true);
            let ghost old_unack = self.spec_unacknowledged();
            let ghost pv = publish.view_of();
            self.unacknowledged.push((now, publish));
            proof {
                assert(self.spec_unacknowledged() =~= old_unack.push((now, pv)));
            }
            if self.unacknowledged.len() > 1 {
                if let Some(connection) = &mut self.connection {
                    match connection.alert(UNACK_RESENDING_FREQ) {
                        Ok(()) => {},
                        Err(e) => return Err(ServerError::from_io(e)),
                    }
                }
            }
        }
        Ok(())
    }

    /// Sends `publish` at the time of the clock (see
    /// [`Client::send_publish_at`]).
    pub fn send_publish(&mut self, publish: Publish) -> (r: ServerResult<()>)
        requires
            old(self).wf(),
            publish.wf(),
        ensures
            final(self).wf(),
            exists|now: u64| #[trigger] publish_sent(*old(self), *final(self), publish.view_of(), now, &r),
    {
        let now = now_millis();
        self.send_publish_at(publish, now)
    }
}

} // verus!
