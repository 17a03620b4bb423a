//! Sessions of the clients: connection, take-over, disconnection and
//! authentication.
pub mod login;

pub mod simple_login;

use crate::client::{
    acknowledged, close_succeeds_opt, closed_as, is_last_will_publish, keep_alive_millis, packet_sent, publish_sent, unack_resent,
    Client,
};
use crate::io_error::{IoError, IoErrorKind};
use crate::network_connection::{ConnectionId, NetworkConnection};
use crate::packets::connect::{Connect, ConnectView, LastWillView};
use crate::packets::publish::{Publish, PublishView};
use crate::server::server_error::{io_error_kind, io_error_message, ServerError, ServerErrorKind, ServerResult};
use crate::server_packets::connack::ConnackReturnCode;
use crate::text::{chars_of, decimal_text, push_decimal_str, strip_prefix, strip_prefix_chars};
use crate::traits::{login_outcome, Close, Interrupt, Login, LoginResult, WriteBytes};
use vstd::prelude::*;

verus! {

/// Start of the identifiers that the server gives to clients that send
/// none; no client may ask for one.
pub const GENERIC_ID_SUFFIX: &'static str = "__CLIENT__";
/// Start of the message of the error for an unknown client.
pub const MSG_NO_CLIENT: &'static str = "No existe el cliente con id <";
/// Message of the error for an identifier with the reserved start.
pub const MSG_RESERVED_PREFIX: &'static str = "ID con prefijo invalido";
/// Message of the error for a client without user name.
pub const MSG_NO_USER_NAME: &'static str = "Clientes sin user_name no estan permitidos";
/// Message of the error for a client without password.
pub const MSG_NO_PASSWORD: &'static str = "Clientes sin contraseña no estan permitidos";
/// Message of the error for an unknown user.
pub const MSG_INVALID_USER: &'static str = "Usuario invalido";
/// Message of the error for a wrong password.
pub const MSG_INVALID_PASSWORD: &'static str = "Contraseña invalida";
/// Start of the message of the error for an identifier kept by another user.
pub const MSG_ID_TAKEN_START: &'static str = "La ID <";
/// End of the message of the error for an identifier kept by another user.
pub const MSG_ID_TAKEN_END: &'static str = "> se encuentra reservada por otro usuario";
/// Message of the error for an empty identifier without clean session.
pub const MSG_EMPTY_ID_NOT_CLEAN: &'static str = "Clientes con id vacia deben tener clean session en true";

/// Information about the disconnection of a client.
#[derive(Debug)]
pub struct DisconnectInfo {
    /// The last will to publish, when the client left one and did not
    /// disconnect cleanly.
    pub publish_last_will: Option<Publish>,
    /// Whether the client's session was dropped (clean session).
    pub clean_session: bool,
}

/// Information about an accepted connection.
#[derive(Debug, PartialEq, Eq)]
pub struct ConnectInfo {
    /// Identifier of the client, the one it asked for or the one given.
    pub id: String,
    /// Whether the server held a session for that identifier.
    pub session_present: bool,
    /// Last will of the session taken over, if it had one.
    pub takeover_last_will: Option<Publish>,
}

/// Information about the shutdown of the server.
#[derive(Debug)]
pub struct ShutdownInfo {
    /// Identifiers of the clients whose sessions were dropped.
    pub clean_session_ids: Vec<String>,
    /// Last wills to publish, with the identifier of their client.
    pub last_will_packets: Vec<(String, Publish)>,
}

/// Identifier given to the `k`-th client without one.
pub open spec fn generic_id(k: nat) -> Seq<char> {
    GENERIC_ID_SUFFIX@ + decimal_text(k)
}

/// Whether `id` starts like the identifiers that the server gives.
pub open spec fn is_reserved(id: Seq<char>) -> bool {
    strip_prefix(id, GENERIC_ID_SUFFIX@) is Some
}

/// The identifiers given to clients without one are reserved, and two of
/// them differ when their numbers differ.
pub proof fn lemma_generic_id(a: nat, b: nat)
    ensures
        is_reserved(generic_id(a)),
        generic_id(a) == generic_id(b) ==> a == b,
{
    let p = GENERIC_ID_SUFFIX@;
    assert(generic_id(a).take(p.len() as int) =~= p);
    if generic_id(a) == generic_id(b) {
        assert(decimal_text(a) =~= generic_id(a).skip(p.len() as int));
        assert(decimal_text(b) =~= generic_id(b).skip(p.len() as int));
        crate::text::lemma_decimal_text_injective(a, b);
    }
}

/// Message of the error for the identifier `id` kept by another user.
pub open spec fn taken_message(id: Seq<char>) -> Seq<char> {
    MSG_ID_TAKEN_START@ + id + MSG_ID_TAKEN_END@
}

/// Kind and message of an error, or nothing for a success.
pub open spec fn result_view<T>(r: &ServerResult<T>) -> Result<(), (ServerErrorKind, Seq<char>)> {
    match r {
        Ok(_) => Ok(()),
        Err(e) => Err((e.spec_kind(), e.message())),
    }
}

/// A refused connection, answered with a CONNACK with `code`.
pub open spec fn refusal(code: ConnackReturnCode, msg: Seq<char>) -> Result<(), (ServerErrorKind, Seq<char>)> {
    Err((ServerErrorKind::ConnectionRefused(code), msg))
}

/// Index of the client with identifier `id` in `cs`, if any.
pub open spec fn index_of<S>(cs: Seq<Client<S>>, id: Seq<char>) -> Option<int> {
    if exists|i: int| 0 <= i < cs.len() && cs[i].spec_id() == id {
        Some(choose|i: int| 0 <= i < cs.len() && cs[i].spec_id() == id)
    } else {
        None
    }
}

/// The clients that manage the sessions of the server: connection,
/// reconnection, disconnection and authentication.
pub struct ClientsManager<S, L> {
    /// Sessions kept: a client whose session is not clean stays after it
    /// disconnects.
    clients: Vec<Client<S>>,
    /// Authentication method; without one, any client may connect.
    login: Option<L>,
    /// Number of generic identifiers given so far.
    generic_ids_counter: u32,
    /// The connections closed so far, in the order they were closed.
    closed: Ghost<Seq<NetworkConnection<S, ConnectionId>>>,
}

impl<S, L> ClientsManager<S, L> {
    /// The clients, in the order they first connected.
    pub closed spec fn spec_clients(&self) -> Seq<Client<S>> {
        self.clients@
    }

    /// The connections closed so far, in the order they were closed.
    pub closed spec fn spec_closed(&self) -> Seq<NetworkConnection<S, ConnectionId>> {
        self.closed@
    }

    /// Number of generic identifiers given so far.
    pub closed spec fn spec_counter(&self) -> u32 {
        self.generic_ids_counter
    }

    /// The authentication method, if one is set.
    pub closed spec fn spec_login(&self) -> Option<L> {
        self.login
    }

    /// Whether an authentication method is set.
    pub open spec fn spec_has_login(&self) -> bool {
        self.spec_login() is Some
    }

    /// The client with identifier `id`, if any.
    pub open spec fn spec_client(&self, id: Seq<char>) -> Option<Client<S>> {
        match index_of(self.spec_clients(), id) {
            Some(i) => Some(self.spec_clients()[i]),
            None => None,
        }
    }

    /// Every client is well formed, no two share an identifier, and every
    /// reserved identifier is one of those given so far.
    pub open spec fn wf(&self) -> bool {
        clients_wf(self.spec_clients(), self.spec_counter())
    }

    /// A manager without clients, with the given authentication method.
    pub fn new(login: Option<L>) -> (m: Self)
        ensures
            m.wf(),
            m.spec_clients() == Seq::<Client<S>>::empty(),
            m.spec_counter() == 0,
            m.spec_has_login() == login is Some,
            m.spec_closed() == Seq::<NetworkConnection<S, ConnectionId>>::empty(),
    {
        Self { clients: Vec::new(), login, generic_ids_counter: 0, closed: Ghost(Seq::empty()) }
    }

    /// Number of clients.
    pub fn len(&self) -> (n: usize)
        ensures
            n == self.spec_clients().len(),
    {
        self.clients.len()
    }

    /// The `i`-th client, in the order they first connected.
    pub fn client_at(&self, i: usize) -> (c: &Client<S>)
        requires
            i < self.spec_clients().len(),
        ensures
            *c == self.spec_clients()[i as int],
    {
        &self.clients[i]
    }

    /// Number of generic identifiers given so far.
    pub fn generic_ids_counter(&self) -> (n: u32)
        ensures
            n == self.spec_counter(),
    {
        self.generic_ids_counter
    }

    fn find(&self, id: &String) -> (r: Option<usize>)
        requires
            self.wf(),
        ensures
            match index_of(self.spec_clients(), id@) {
                Some(i) => r == Some(i as usize),
                None => r is None,
            },
            r matches Some(i) ==> i < self.spec_clients().len() && self.spec_clients()[i as int].spec_id() == id@,
    {
        let mut i: usize = 0;
        while i < self.clients.len()
            invariant
                i <= self.clients@.len(),
                self.wf(),
                forall|j: int| 0 <= j < i ==> self.clients@[j].spec_id() != id@,
            decreases self.clients@.len() - i,
        {
            if self.clients[i].has_id(id) {
                proof {
                    let k = choose|k: int| 0 <= k < self.clients@.len() && self.clients@[k].spec_id() == id@;
                    if k != i {
                        assert(self.spec_clients()[k].spec_id() != self.spec_clients()[i as int].spec_id());
                    }
                }
                return Some(i);
            }
            i = i + 1;
        }
        None
    }

    /// Fails when the session kept for `id` belongs to a user other than
    /// `user_name`: the identifier is reserved for that user.
    fn check_taken_ids(&self, id: &str, user_name: &str) -> (r: ServerResult<()>)
        requires
            self.wf(),
        ensures
            r is Ok <==> !taken_by_other(self.spec_clients(), id@, user_name@),
            r is Err ==> result_view(&r) == refusal(ConnackReturnCode::IdentifierRejected, taken_message(id@)),
    {
        let target = String::from_str(id);
        let i = match self.find(&target) {
            Some(i) => i,
            None => return Ok(()),
        };
        let old_user_name = match self.clients[i].user_name() {
            Some(u) => u,
            None => return Ok(()),
        };
        let user = String::from_str(user_name);
        if *old_user_name != user {
            let mut detail = String::from_str(id);
            detail.append(MSG_ID_TAKEN_END);
            let e = ServerError::new_kind_with(
                MSG_ID_TAKEN_START,
                detail.as_str(),
                ServerErrorKind::ConnectionRefused(ConnackReturnCode::IdentifierRejected),
            );
            proof {
                assert(MSG_ID_TAKEN_START@ + (id@ + MSG_ID_TAKEN_END@) == taken_message(id@));
            }
            Err(e)
        } else {
            Ok(())
        }
    }

    /// Answer to the client with identifier `id` and user name
    /// `user_name`, once the authentication method answered `outcome`: the
    /// error of the method, a refusal for an unknown user or a wrong
    /// password, or, for accepted credentials, a refusal when the
    /// identifier is kept by another user.
    pub fn login_verdict(&self, id: &str, user_name: &str, outcome: Result<LoginResult, IoError>) -> (r: ServerResult<()>)
        requires
            self.wf(),
        ensures
            result_view(&r) == login_verdict_spec(self.spec_clients(), id@, user_name@, login_outcome(&outcome)),
    {
        match outcome {
            Err(e) => Err(ServerError::from_io(e)),
            Ok(LoginResult::UsernameNotFound) => Err(ServerError::new_kind(
                MSG_INVALID_USER,
                ServerErrorKind::ConnectionRefused(ConnackReturnCode::NotAuthorized),
            )),
            Ok(LoginResult::InvalidPassword) => Err(ServerError::new_kind(
                MSG_INVALID_PASSWORD,
                ServerErrorKind::ConnectionRefused(ConnackReturnCode::BadUserNameOrPassword),
            )),
            Ok(LoginResult::Accepted) => self.check_taken_ids(id, user_name),
        }
    }

    /// Whether a client with identifier `id` is kept.
    pub fn contains(&self, id: &str) -> (b: bool)
        requires
            self.wf(),
        ensures
            b == (index_of(self.spec_clients(), id@) is Some),
    {
        let target = String::from_str(id);
        match self.find(&target) {
            Some(_) => true,
            None => false,
        }
    }
}

/// Whether the session kept for `id` in `cs` belongs to a user other than
/// `user`.
pub open spec fn taken_by_other<S>(cs: Seq<Client<S>>, id: Seq<char>, user: Seq<char>) -> bool {
    match index_of(cs, id) {
        Some(i) => match cs[i].spec_connect().user_name {
            Some(u) => u != user,
            None => false,
        },
        None => false,
    }
}

/// Answer to a client with identifier `id` and user name `user`, once the
/// authentication method answered `outcome`.
pub open spec fn login_verdict_spec<S>(
    cs: Seq<Client<S>>,
    id: Seq<char>,
    user: Seq<char>,
    outcome: Result<LoginResult, (IoErrorKind, Seq<char>)>,
) -> Result<(), (ServerErrorKind, Seq<char>)> {
    match outcome {
        Err((k, m)) => Err((io_error_kind(k), io_error_message(k, m))),
        Ok(LoginResult::UsernameNotFound) => refusal(ConnackReturnCode::NotAuthorized, MSG_INVALID_USER@),
        Ok(LoginResult::InvalidPassword) => refusal(ConnackReturnCode::BadUserNameOrPassword, MSG_INVALID_PASSWORD@),
        Ok(LoginResult::Accepted) => if taken_by_other(cs, id, user) {
            refusal(ConnackReturnCode::IdentifierRejected, taken_message(id))
        } else {
            Ok(())
        },
    }
}

/// Answer of the checks of the credentials of the CONNECT `c`, given what
/// the authentication method answered when it is asked.
pub open spec fn credentials_verdict<S>(
    cs: Seq<Client<S>>,
    has_login: bool,
    c: ConnectView,
    outcome: Result<LoginResult, (IoErrorKind, Seq<char>)>,
) -> Result<(), (ServerErrorKind, Seq<char>)> {
    if is_reserved(c.client_id) {
        refusal(ConnackReturnCode::IdentifierRejected, MSG_RESERVED_PREFIX@)
    } else if !has_login {
        Ok(())
    } else {
        match c.user_name {
            None => refusal(ConnackReturnCode::NotAuthorized, MSG_NO_USER_NAME@),
            Some(u) => match c.password {
                None => refusal(ConnackReturnCode::BadUserNameOrPassword, MSG_NO_PASSWORD@),
                Some(_) => login_verdict_spec(cs, c.client_id, u, outcome),
            },
        }
    }
}

/// Whether the authentication method `login` may answer `outcome` when it
/// is asked about the credentials of the CONNECT `c`: it is asked about the
/// user name and the password of `c` when `c` has both, its identifier is
/// not reserved and a method is set.
pub open spec fn login_answers<L: Login>(
    login: Option<L>,
    c: ConnectView,
    outcome: Result<LoginResult, (IoErrorKind, Seq<char>)>,
) -> bool {
    match login {
        Some(l) => match (c.user_name, c.password) {
            (Some(u), Some(p)) => is_reserved(c.client_id) || l.answers(u, p, outcome),
            _ => true,
        },
        None => true,
    }
}

/// Identifier under which the CONNECT `c` is admitted, when `counter`
/// generic identifiers were given before: its own, or the next generic one
/// when it has none.
pub open spec fn admitted_id(c: ConnectView, counter: u32) -> Seq<char> {
    if c.client_id.len() == 0 {
        generic_id(counter as nat + 1)
    } else {
        c.client_id
    }
}

/// Number of generic identifiers given after admitting the CONNECT `c`.
pub open spec fn counter_after(c: ConnectView, counter: u32) -> int {
    if c.client_id.len() == 0 {
        counter + 1
    } else {
        counter as int
    }
}

/// How the clients `cs`, with `counter` generic identifiers given, become
/// `cs2` and `counter2`, and what is answered (`r`), when the CONNECT `c`
/// whose credentials passed is admitted over the connection `conn`.
///
/// A client without identifier must ask for a clean session, and gets the
/// next generic identifier. A client whose identifier has a session kept
/// takes that session over: its previous connection, if any, is closed
/// and added to the closed connections, and the message of its previous
/// last will is returned. Any other client starts
/// a new session, added after the others.
pub open spec fn admission<S: Close>(
    cs: Seq<Client<S>>,
    counter: u32,
    log: Seq<NetworkConnection<S, ConnectionId>>,
    cs2: Seq<Client<S>>,
    counter2: u32,
    log2: Seq<NetworkConnection<S, ConnectionId>>,
    c: ConnectView,
    conn: ConnectionId,
    r: &ServerResult<ConnectInfo>,
) -> bool {
    if c.client_id.len() == 0 && !c.clean_session {
        &&& result_view(r) == refusal(ConnackReturnCode::IdentifierRejected, MSG_EMPTY_ID_NOT_CLEAN@)
        &&& cs2 == cs
        &&& counter2 == counter
        &&& log2 == log
    } else {
        let id = admitted_id(c, counter);
        let c2 = ConnectView { client_id: id, ..c };
        &&& counter2 == counter_after(c, counter)
        &&& match index_of(cs, id) {
            None => {
                &&& cs2.len() == cs.len() + 1
                &&& cs2.take(cs.len() as int) == cs
                &&& cs2.last().spec_id() == id
                &&& cs2.last().spec_connect() == c2
                &&& cs2.last().spec_connection_id() == Some(conn)
                &&& cs2.last().spec_unacknowledged().len() == 0
                &&& r matches Ok(info) && info.id@ == id && !info.session_present
                    && info.takeover_last_will is None
                &&& log2 == log
            },
            Some(i) => {
                &&& only_changed_at(cs, cs2, i)
                &&& close_succeeds_opt(cs[i].spec_stream()) ==> r is Ok
                &&& cs2[i].spec_unacknowledged() == (if c.clean_session {
                    Seq::<(u64, PublishView)>::empty()
                } else {
                    cs[i].spec_unacknowledged()
                })
                &&& match r {
                    Ok(info) => {
                        &&& info.id@ == id
                        &&& info.session_present
                        &&& cs2[i].spec_connect() == c2
                        &&& cs2[i].spec_connection_id() == Some(conn)
                        &&& owed_last_will(cs[i], false, info.takeover_last_will)
                        &&& logged_close(log, log2, cs[i])
                    },
                    Err(_) => {
                        &&& cs2[i].spec_connect() == cs[i].spec_connect()
                        &&& cs2[i].spec_connection_id() is None
                        &&& log2 == log
                    },
                }
            },
        }
    }
}

/// Whether the client `c` is connected over a connection other than
/// `conn` (it was taken over since `conn` was opened).
pub open spec fn held_by_other<S>(c: Client<S>, conn: ConnectionId) -> bool {
    match c.spec_connection_id() {
        Some(x) => x != conn,
        None => false,
    }
}

/// Whether `c2` is the client `c` after a disconnection: the same session
/// with no connection and no last will.
pub open spec fn disconnected_from<S>(c: Client<S>, c2: Client<S>) -> bool {
    &&& c2.spec_id() == c.spec_id()
    &&& c2.spec_connection_id() is None
    &&& c2.spec_connect() == (ConnectView { last_will: None, ..c.spec_connect() })
    &&& c2.spec_unacknowledged() == c.spec_unacknowledged()
}

/// The message owed for the last will of `c` when it disconnects:
/// none after a graceful disconnection, without a last will, or when `c`
/// was not connected.
pub open spec fn owed_last_will<S>(c: Client<S>, gracefully: bool, lw: Option<Publish>) -> bool {
    if gracefully || c.spec_connection_id() is None {
        lw is None
    } else {
        match c.spec_connect().last_will {
            None => lw is None,
            Some(w) => lw matches Some(p) && p.wf() && is_last_will_publish(w, p.view_of()),
        }
    }
}

/// Whether `c2` is the client `c` after a call to disconnect it: the same
/// client when it was not connected, otherwise the client disconnected.
pub open spec fn after_disconnect<S>(c: Client<S>, c2: Client<S>) -> bool {
    if c.spec_connection_id() is None {
        c2 == c
    } else {
        disconnected_from(c, c2)
    }
}

/// Whether the closed connections `log2` are `log` with the connection of
/// `c`, closed, after them when `c` was connected, and `log` itself when
/// it was not.
pub open spec fn logged_close<S: Close>(
    log: Seq<NetworkConnection<S, ConnectionId>>,
    log2: Seq<NetworkConnection<S, ConnectionId>>,
    c: Client<S>,
) -> bool {
    match c.spec_connection_id() {
        Some(id) => log2 == log.push(log2.last()) && closed_as(log2.last(), id),
        None => log2 == log,
    }
}

/// The identifiers of the connections of the connected clients of `cs`,
/// in order.
pub open spec fn connected_ids<S>(cs: Seq<Client<S>>) -> Seq<ConnectionId>
    decreases cs.len(),
{
    if cs.len() == 0 {
        Seq::empty()
    } else {
        match cs.last().spec_connection_id() {
            Some(id) => connected_ids(cs.drop_last()).push(id),
            None => connected_ids(cs.drop_last()),
        }
    }
}

/// Whether the closed connections `log2` are `log` followed by the
/// connections with identifiers `ids`, closed, in that order.
pub open spec fn logged_closes<S: Close>(
    log: Seq<NetworkConnection<S, ConnectionId>>,
    log2: Seq<NetworkConnection<S, ConnectionId>>,
    ids: Seq<ConnectionId>,
) -> bool {
    &&& log2.len() == log.len() + ids.len()
    &&& log2.take(log.len() as int) == log
    &&& forall|j: int| log.len() <= j < log2.len() ==> closed_as(#[trigger] log2[j], ids[j - log.len()])
}

/// Every client of `cs` is well formed, no two share an identifier, and
/// every reserved identifier is one of the first `counter` generic ones.
pub open spec fn clients_wf<S>(cs: Seq<Client<S>>, counter: u32) -> bool {
    &&& forall|i: int| 0 <= i < cs.len() ==> (#[trigger] cs[i]).wf()
    &&& forall|i: int, j: int|
        0 <= i < cs.len() && 0 <= j < cs.len() && i != j ==> (#[trigger] cs[i]).spec_id() != (#[trigger] cs[j]).spec_id()
    &&& forall|i: int|
        0 <= i < cs.len() && is_reserved((#[trigger] cs[i]).spec_id()) ==> exists|k: nat|
            1 <= k <= counter && cs[i].spec_id() == #[trigger] generic_id(k)
}

/// Giving more generic identifiers keeps the clients well formed.
proof fn lemma_more_generic_ids_keep_wf<S>(cs: Seq<Client<S>>, counter: u32, more: u32)
    requires
        clients_wf(cs, counter),
        counter <= more,
    ensures
        clients_wf(cs, more),
{
    assert forall|i: int|
        0 <= i < cs.len() && is_reserved((#[trigger] cs[i]).spec_id()) implies exists|k: nat|
            1 <= k <= more && cs[i].spec_id() == #[trigger] generic_id(k) by {
        let k = choose|k: nat| 1 <= k <= counter && cs[i].spec_id() == #[trigger] generic_id(k);
        assert(1 <= k <= more && cs[i].spec_id() == generic_id(k));
    }
}

/// Adding a well-formed client whose identifier is new, and reserved only
/// when it was given, keeps the clients well formed.
proof fn lemma_push_keeps_wf<S>(cs: Seq<Client<S>>, counter: u32, c: Client<S>)
    requires
        clients_wf(cs, counter),
        c.wf(),
        index_of(cs, c.spec_id()) is None,
        is_reserved(c.spec_id()) ==> exists|k: nat| 1 <= k <= counter && c.spec_id() == #[trigger] generic_id(k),
    ensures
        clients_wf(cs.push(c), counter),
{
    let r = cs.push(c);
    assert forall|a: int| 0 <= a < cs.len() implies #[trigger] r[a] == cs[a] by {}
    assert forall|a: int, b: int|
        0 <= a < r.len() && 0 <= b < r.len() && a != b implies (#[trigger] r[a]).spec_id() != (#[trigger] r[b]).spec_id() by {
        if a < cs.len() && b < cs.len() {
            assert(r[a] == cs[a] && r[b] == cs[b]);
        } else if a < cs.len() {
            assert(r[a] == cs[a]);
        } else {
            assert(r[b] == cs[b]);
        }
    }
    assert forall|a: int|
        0 <= a < r.len() && is_reserved((#[trigger] r[a]).spec_id()) implies exists|k: nat|
            1 <= k <= counter && r[a].spec_id() == #[trigger] generic_id(k) by {
        if a < cs.len() {
            assert(r[a] == cs[a]);
        }
    }
    assert forall|a: int| 0 <= a < r.len() implies (#[trigger] r[a]).wf() by {
        if a < cs.len() {
            assert(r[a] == cs[a]);
        }
    }
}

/// Removing a client keeps the clients well formed.
proof fn lemma_remove_keeps_wf<S>(cs: Seq<Client<S>>, counter: u32, i: int)
    requires
        clients_wf(cs, counter),
        0 <= i < cs.len(),
    ensures
        clients_wf(cs.remove(i), counter),
{
    let r = cs.remove(i);
    assert forall|a: int| 0 <= a < r.len() implies #[trigger] r[a] == cs[if a < i { a } else { a + 1 }] by {}
    assert forall|a: int| 0 <= a < r.len() implies (#[trigger] r[a]).wf() by {
        assert(r[a] == cs[if a < i { a } else { a + 1 }]);
    }
    assert forall|a: int, b: int|
        0 <= a < r.len() && 0 <= b < r.len() && a != b implies (#[trigger] r[a]).spec_id() != (#[trigger] r[b]).spec_id() by {
        assert(r[a] == cs[if a < i { a } else { a + 1 }]);
        assert(r[b] == cs[if b < i { b } else { b + 1 }]);
    }
    assert forall|a: int|
        0 <= a < r.len() && is_reserved((#[trigger] r[a]).spec_id()) implies exists|k: nat|
            1 <= k <= counter && r[a].spec_id() == #[trigger] generic_id(k) by {
        assert(r[a] == cs[if a < i { a } else { a + 1 }]);
    }
}

/// The clients of `cs` that did not ask for a clean session, in order:
/// those whose sessions outlive a shutdown.
pub open spec fn persistent<S>(cs: Seq<Client<S>>) -> Seq<Client<S>>
    decreases cs.len(),
{
    if cs.len() == 0 {
        Seq::empty()
    } else if cs.last().spec_connect().clean_session {
        persistent(cs.drop_last())
    } else {
        persistent(cs.drop_last()).push(cs.last())
    }
}

/// The identifiers of the clients of `cs` that asked for a clean session,
/// in order.
pub open spec fn clean_ids<S>(cs: Seq<Client<S>>) -> Seq<Seq<char>>
    decreases cs.len(),
{
    if cs.len() == 0 {
        Seq::empty()
    } else if cs.last().spec_connect().clean_session {
        clean_ids(cs.drop_last()).push(cs.last().spec_id())
    } else {
        clean_ids(cs.drop_last())
    }
}

/// The connected clients of `cs` that left a last will, with that last
/// will, in order.
pub open spec fn last_wills<S>(cs: Seq<Client<S>>) -> Seq<(Seq<char>, LastWillView)>
    decreases cs.len(),
{
    if cs.len() == 0 {
        Seq::empty()
    } else {
        match cs.last().spec_connect().last_will {
            Some(w) if cs.last().spec_connection_id() is Some => last_wills(cs.drop_last()).push((cs.last().spec_id(), w)),
            _ => last_wills(cs.drop_last()),
        }
    }
}

/// Disconnecting every client keeps which sessions outlive a shutdown and
/// which are dropped.
proof fn lemma_disconnected_keeps_sessions<S>(cs: Seq<Client<S>>, mid: Seq<Client<S>>)
    requires
        mid.len() == cs.len(),
        forall|j: int| 0 <= j < cs.len() ==> after_disconnect(cs[j], #[trigger] mid[j]),
    ensures
        persistent(mid).len() == persistent(cs).len(),
        forall|j: int| 0 <= j < persistent(cs).len() ==> after_disconnect(persistent(cs)[j], #[trigger] persistent(mid)[j]),
        clean_ids(mid) == clean_ids(cs),
    decreases cs.len(),
{
    if cs.len() > 0 {
        let n = cs.len() - 1;
        assert(after_disconnect(cs[n], mid[n]));
        lemma_disconnected_keeps_sessions(cs.drop_last(), mid.drop_last());
    }
}

/// In well-formed clients, `index_of` finds the only client with that
/// identifier.
proof fn lemma_index_of_unique<S>(cs: Seq<Client<S>>, counter: u32, i: int)
    requires
        clients_wf(cs, counter),
        0 <= i < cs.len(),
    ensures
        index_of(cs, cs[i].spec_id()) == Some(i),
{
    let id = cs[i].spec_id();
    assert(0 <= i < cs.len() && cs[i].spec_id() == id);
    let j = choose|j: int| 0 <= j < cs.len() && cs[j].spec_id() == id;
    if j != i {
        assert(cs[j].spec_id() != cs[i].spec_id());
    }
}

/// Whether `new` is `old` with only the client at `i` replaced, by one
/// with the same identifier.
pub open spec fn only_changed_at<S>(old: Seq<Client<S>>, new: Seq<Client<S>>, i: int) -> bool {
    &&& new.len() == old.len()
    &&& new[i].spec_id() == old[i].spec_id()
    &&& forall|j: int| 0 <= j < old.len() && j != i ==> new[j] == old[j]
}

/// A client that was disconnected owes no last will when it is
/// disconnected again: the last will is published at most once.
pub proof fn lemma_last_will_owed_once<S>(c: Client<S>, c2: Client<S>, gracefully: bool, lw: Option<Publish>)
    requires
        disconnected_from(c, c2),
        owed_last_will(c2, gracefully, lw),
    ensures
        lw is None,
{
}

/// The next generic identifier is never in use, so a client that sends no
/// identifier always starts a new session.
pub proof fn lemma_generic_id_fresh<S, L>(m: &ClientsManager<S, L>)
    requires
        m.wf(),
    ensures
        index_of(m.spec_clients(), generic_id(m.spec_counter() as nat + 1)) is None,
{
    let cs = m.spec_clients();
    let id = generic_id(m.spec_counter() as nat + 1);
    if exists|j: int| 0 <= j < cs.len() && cs[j].spec_id() == id {
        let j = choose|j: int| 0 <= j < cs.len() && cs[j].spec_id() == id;
        lemma_generic_id(m.spec_counter() as nat + 1, m.spec_counter() as nat + 1);
        assert(is_reserved(cs[j].spec_id()));
        let k = choose|k: nat| 1 <= k <= m.spec_counter() && cs[j].spec_id() == #[trigger] generic_id(k);
        lemma_generic_id(k, m.spec_counter() as nat + 1);
    }
}

/// A session dropped when its client disconnects (it asked for a clean
/// session) is forgotten: the next CONNECT with that identifier starts a
/// new session.
pub proof fn lemma_dropped_session_forgotten<S, L>(before: &ClientsManager<S, L>, after: &ClientsManager<S, L>, id: Seq<char>)
    requires
        before.wf(),
        index_of(before.spec_clients(), id) is Some,
        after.spec_clients() == before.spec_clients().remove(index_of(before.spec_clients(), id)->0),
    ensures
        index_of(after.spec_clients(), id) is None,
{
    let cs = before.spec_clients();
    let i = index_of(cs, id)->0;
    let r = after.spec_clients();
    if exists|j: int| 0 <= j < r.len() && r[j].spec_id() == id {
        let j = choose|j: int| 0 <= j < r.len() && r[j].spec_id() == id;
        let k = if j < i { j } else { j + 1 };
        assert(r[j] == cs[k]);
        assert(cs[k].spec_id() != cs[i].spec_id());
    }
}

/// A session kept when its client disconnects (it did not ask for a clean
/// session) is found again: the next CONNECT with that identifier takes it
/// over, with its session present.
pub proof fn lemma_kept_session_found<S, L>(before: &ClientsManager<S, L>, after: &ClientsManager<S, L>, id: Seq<char>)
    requires
        before.wf(),
        after.wf(),
        index_of(before.spec_clients(), id) is Some,
        only_changed_at(before.spec_clients(), after.spec_clients(), index_of(before.spec_clients(), id)->0),
    ensures
        index_of(after.spec_clients(), id) == index_of(before.spec_clients(), id),
{
    let i = index_of(before.spec_clients(), id)->0;
    lemma_index_of_unique(after.spec_clients(), after.spec_counter(), i);
}

impl<S, L: Login> ClientsManager<S, L> {
    /// Checks the credentials of `connect`: its identifier may not start
    /// like the generic ones, and when an authentication method is set, the
    /// method must accept its user name and password, and its identifier
    /// may not be kept by another user. Fails with kind
    /// [`ServerErrorKind::ConnectionRefused`] when a CONNACK that refuses
    /// the connection is owed.
    fn check_credentials(&mut self, connect: &Connect) -> (r: ServerResult<()>)
        requires
            old(self).wf(),
        ensures
            final(self).wf(),
            final(self).spec_clients() == old(self).spec_clients(),
            final(self).spec_counter() == old(self).spec_counter(),
            final(self).spec_has_login() == old(self).spec_has_login(),
            final(self).spec_closed() == old(self).spec_closed(),
            exists|o: Result<LoginResult, (IoErrorKind, Seq<char>)>|
                login_answers(old(self).spec_login(), connect.view_of(), o)
                && result_view(&r) == #[trigger] credentials_verdict(
                    old(self).spec_clients(),
                    old(self).spec_has_login(),
                    connect.view_of(),
                    o,
                ),
    {
        let ghost login0 = self.spec_login();
        let ghost cs = self.spec_clients();
        let ghost has_login = self.spec_has_login();
        let ghost c = connect.view_of();
        let ghost any: Result<LoginResult, (IoErrorKind, Seq<char>)> = Ok(LoginResult::Accepted);
        let id = connect.client_id();
        let id_chars = chars_of(id);
        if strip_prefix_chars(id_chars.as_slice(), GENERIC_ID_SUFFIX).is_some() {
            let r = Err(ServerError::new_kind(
                MSG_RESERVED_PREFIX,
                ServerErrorKind::ConnectionRefused(ConnackReturnCode::IdentifierRejected),
            ));
            proof {
                assert(login_answers(login0, c, any));
                assert(result_view(&r) == credentials_verdict(cs, has_login, c, any));
            }
            return r;
        }
        let mut login = match self.login.take() {
            None => {
                let r = Ok(());
                proof {
                    assert(login_answers(login0, c, any));
                    assert(result_view(&r) == credentials_verdict(cs, has_login, c, any));
                }
                return r;
            },
            Some(l) => l,
        };
        let user_name = match connect.user_name() {
            Some(u) => u,
            None => {
                self.login = Some(login);
                let r = Err(ServerError::new_kind(
                    MSG_NO_USER_NAME,
                    ServerErrorKind::ConnectionRefused(ConnackReturnCode::NotAuthorized),
                ));
                proof {
                    assert(login_answers(login0, c, any));
                    assert(result_view(&r) == credentials_verdict(cs, has_login, c, any));
                }
                return r;
            },
        };
        let password = match connect.password() {
            Some(p) => p,
            None => {
                self.login = Some(login);
                let r = Err(ServerError::new_kind(
                    MSG_NO_PASSWORD,
                    ServerErrorKind::ConnectionRefused(ConnackReturnCode::BadUserNameOrPassword),
                ));
                proof {
                    assert(login_answers(login0, c, any));
                    assert(result_view(&r) == credentials_verdict(cs, has_login, c, any));
                }
                return r;
            },
        };
        let outcome = login.login(user_name.as_str(), password.as_str());
        self.login = Some(login);
        let ghost o = login_outcome(&outcome);
        let r = self.login_verdict(id, user_name.as_str(), outcome);
        proof {
            assert(login_answers(login0, c, o));
            assert(result_view(&r) == credentials_verdict(cs, has_login, c, o));
        }
        r
    }
}

impl<S: WriteBytes + Close + Interrupt, L> ClientsManager<S, L> {
    /// Gives the next generic identifier.
    fn new_generic_id(&mut self) -> (id: String)
        requires
            old(self).wf(),
            old(self).spec_counter() < u32::MAX,
        ensures
            final(self).wf(),
            final(self).spec_clients() == old(self).spec_clients(),
            final(self).spec_has_login() == old(self).spec_has_login(),
            final(self).spec_counter() == old(self).spec_counter() + 1,
            final(self).spec_closed() == old(self).spec_closed(),
            id@ == generic_id(final(self).spec_counter() as nat),
    {
        self.generic_ids_counter = self.generic_ids_counter + 1;
        let mut id = String::from_str(GENERIC_ID_SUFFIX);
        push_decimal_str(&mut id, self.generic_ids_counter as u64);
        proof {
            lemma_more_generic_ids_keep_wf(self.spec_clients(), old(self).spec_counter(), self.spec_counter());
        }
        id
    }

    /// Admits the CONNECT `connect`, whose credentials passed, over
    /// `network_connection` (see [`admission`]).
    fn open_session(&mut self, network_connection: NetworkConnection<S, ConnectionId>, connect: Connect) -> (r: ServerResult<ConnectInfo>)
        requires
            old(self).wf(),
            connect.wf(),
            !is_reserved(connect.view_of().client_id),
            connect.view_of().client_id.len() == 0 ==> old(self).spec_counter() < u32::MAX,
        ensures
            final(self).wf(),
            final(self).spec_has_login() == old(self).spec_has_login(),
            admission(
                old(self).spec_clients(),
                old(self).spec_counter(),
                old(self).spec_closed(),
                final(self).spec_clients(),
                final(self).spec_counter(),
                final(self).spec_closed(),
                connect.view_of(),
                network_connection.spec_id(),
                &r,
            ),
    {
        let ghost c = connect.view_of();
        let ghost cnt0 = self.spec_counter();
        let mut connect = connect;
        if connect.client_id().is_empty() {
            if !connect.clean_session() {
                return Err(ServerError::new_kind(
                    MSG_EMPTY_ID_NOT_CLEAN,
                    ServerErrorKind::ConnectionRefused(ConnackReturnCode::IdentifierRejected),
                ));
            }
            proof {
                lemma_generic_id_fresh(&*self);
            }
            let generic = self.new_generic_id();
            connect.set_id(generic);
            proof {
                lemma_generic_id(self.spec_counter() as nat, self.spec_counter() as nat);
            }
        }
        let id = String::from_str(connect.client_id());
        proof {
            assert(id@ == admitted_id(c, cnt0));
            assert(connect.view_of() == (ConnectView { client_id: id@, ..c }));
        }
        match self.find(&id) {
            Some(i) => {
                let ghost old_cs = self.spec_clients();
                let was_connected = self.clients[i].connected();
                let r = self.clients[i].reconnect(connect, network_connection);
                proof {
                    self.lemma_update_keeps_wf(old_cs, i as int);
                }
                match r {
                    Ok(lw) => {
                        if was_connected {
                            self.closed = Ghost(self.closed@.push(self.clients@[i as int].spec_closed_connection()->0));
                        }
                        Ok(ConnectInfo { id, session_present: true, takeover_last_will: lw })
                    },
                    Err(e) => Err(e),
                }
            },
            None => {
                let ghost old_cs = self.spec_clients();
                let client = Client::new(connect, network_connection);
                self.clients.push(client);
                proof {
                    if is_reserved(id@) {
                        assert(id@ == generic_id(self.spec_counter() as nat));
                    }
                    lemma_push_keeps_wf(old_cs, self.spec_counter(), self.spec_clients().last());
                    assert(self.spec_clients() == old_cs.push(self.spec_clients().last()));
                    assert(self.spec_clients().take(old_cs.len() as int) =~= old_cs);
                }
                Ok(ConnectInfo { id, session_present: false, takeover_last_will: None })
            },
        }
    }

    fn not_found_error(id: &str) -> (e: ServerError)
        ensures
            e.spec_kind() == ServerErrorKind::ClientNotFound,
            e.message() == MSG_NO_CLIENT@ + id@ + ">"@,
    {
        let mut detail = String::from_str(id);
        detail.append(">");
        let e = ServerError::new_kind_with(MSG_NO_CLIENT, detail.as_str(), ServerErrorKind::ClientNotFound);
        proof {
            assert(MSG_NO_CLIENT@ + (id@ + ">"@) == MSG_NO_CLIENT@ + id@ + ">"@);
        }
        e
    }

    proof fn lemma_update_keeps_wf(&self, old_cs: Seq<Client<S>>, i: int)
        requires
            0 <= i < old_cs.len(),
            only_changed_at(old_cs, self.spec_clients(), i),
            self.spec_clients()[i].wf(),
            clients_wf(old_cs, self.spec_counter()),
        ensures
            self.wf(),
    {
        let cs = self.spec_clients();
        assert forall|a: int| 0 <= a < cs.len() implies (#[trigger] cs[a]).wf() by {
            if a != i {
                assert(cs[a] == old_cs[a]);
            }
        }
        assert forall|a: int, b: int|
            0 <= a < cs.len() && 0 <= b < cs.len() && a != b implies (#[trigger] cs[a]).spec_id() != (#[trigger] cs[b]).spec_id() by {
            assert(cs[a].spec_id() == old_cs[a].spec_id());
            assert(cs[b].spec_id() == old_cs[b].spec_id());
        }
        assert forall|a: int|
            0 <= a < cs.len() && is_reserved((#[trigger] cs[a]).spec_id()) implies exists|k: nat|
                1 <= k <= self.spec_counter() && cs[a].spec_id() == #[trigger] generic_id(k) by {
            assert(cs[a].spec_id() == old_cs[a].spec_id());
        }
    }

    /// Disconnects the client `id`, whose connection was
    /// `network_connection`, and drops its session when it asked for a
    /// clean one.
    ///
    /// Does nothing and answers that no last will is owed and no session
    /// was dropped when there is no such client, or when it is connected
    /// over another connection (it was taken over). Otherwise closes its
    /// connection, if it has one (see [`Client::disconnect`]); fails only
    /// when closing fails, and the client then stays, disconnected.
    pub fn disconnect(&mut self, id: &str, network_connection: NetworkConnection<S, ConnectionId>, gracefully: bool) -> (r: ServerResult<DisconnectInfo>)
        requires
            old(self).wf(),
        ensures
            final(self).wf(),
            final(self).spec_counter() == old(self).spec_counter(),
            final(self).spec_has_login() == old(self).spec_has_login(),
            ({
                let cs = old(self).spec_clients();
                let cs2 = final(self).spec_clients();
                let log = old(self).spec_closed();
                let log2 = final(self).spec_closed();
                match index_of(cs, id@) {
                    Some(i) if !held_by_other(cs[i], network_connection.spec_id()) => {
                        &&& (close_succeeds_opt(cs[i].spec_stream()) ==> r is Ok)
                        &&& match r {
                            Err(_) => {
                                &&& log2 == log
                                &&& only_changed_at(cs, cs2, i)
                                &&& cs2[i].spec_connection_id() is None
                                &&& cs2[i].spec_connect() == cs[i].spec_connect()
                                &&& cs2[i].spec_unacknowledged() == cs[i].spec_unacknowledged()
                            },
                            Ok(info) => {
                                &&& logged_close(log, log2, cs[i])
                                &&& info.clean_session == cs[i].spec_connect().clean_session
                                &&& owed_last_will(cs[i], gracefully, info.publish_last_will)
                                &&& if info.clean_session {
                                    cs2 == cs.remove(i)
                                } else {
                                    only_changed_at(cs, cs2, i) && after_disconnect(cs[i], cs2[i])
                                }
                            },
                        }
                    },
                    _ => {
                        &&& cs2 == cs
                        &&& log2 == log
                        &&& r matches Ok(info) && info.publish_last_will is None && !info.clean_session
                    },
                }
            }),
    {
        let target = String::from_str(id);
        let i = match self.find(&target) {
            Some(i) => i,
            None => return Ok(DisconnectInfo { publish_last_will: None, clean_session: false }),
        };
        match self.clients[i].connection_id() {
            Some(old_id) => {
                if old_id != *network_connection.id() {
                    return Ok(DisconnectInfo { publish_last_will: None, clean_session: false });
                }
            },
            None => {},
        }
        let ghost old_cs = self.spec_clients();
        let was_connected = self.clients[i].connected();
        let publish_last_will = match self.clients[i].disconnect(gracefully) {
            Ok(lw) => lw,
            Err(e) => {
                proof {
                    self.lemma_update_keeps_wf(old_cs, i as int);
                }
                return Err(e);
            },
        };
        proof {
            self.lemma_update_keeps_wf(old_cs, i as int);
        }
        if was_connected {
            self.closed = Ghost(self.closed@.push(self.clients@[i as int].spec_closed_connection()->0));
        }
        if self.clients[i].clean_session() {
            let ghost mid = self.spec_clients();
            let _removed = self.clients.remove(i);
            proof {
                lemma_remove_keeps_wf(mid, self.spec_counter(), i as int);
                assert(self.spec_clients() =~= old_cs.remove(i as int));
            }
            Ok(DisconnectInfo { publish_last_will, clean_session: true })
        } else {
            Ok(DisconnectInfo { publish_last_will, clean_session: false })
        }
    }

    /// Shuts the sessions down: disconnects every client (see
    /// [`Client::disconnect`]), then drops the sessions that asked for a
    /// clean one.
    ///
    /// Returns the identifiers of the dropped sessions and the messages
    /// owed for the last wills of the clients that were connected, each
    /// with the identifier of its client, both in the order of the
    /// clients. Fails when closing a connection
    /// fails; the clients before it are then disconnected, their last
    /// wills dropped, and no session is dropped. Succeeds when no client is
    /// connected, since no connection is closed then.
    pub fn shutdown(&mut self, gracefully: bool) -> (r: ServerResult<ShutdownInfo>)
        requires
            old(self).wf(),
        ensures
            final(self).wf(),
            final(self).spec_counter() == old(self).spec_counter(),
            final(self).spec_has_login() == old(self).spec_has_login(),
            (forall|j: int| 0 <= j < old(self).spec_clients().len() ==> (#[trigger] old(self).spec_clients()[j]).spec_connection_id() is None)
                ==> r is Ok,
            (forall|j: int| 0 <= j < old(self).spec_clients().len() ==> close_succeeds_opt(#[trigger] old(self).spec_clients()[j].spec_stream()))
                ==> r is Ok,
            r is Err ==> {
                &&& final(self).spec_clients().len() == old(self).spec_clients().len()
                &&& forall|j: int|
                    0 <= j < old(self).spec_clients().len() ==> (#[trigger] final(self).spec_clients()[j]).spec_id()
                        == old(self).spec_clients()[j].spec_id()
            },
            r matches Ok(info) ==> {
                let cs = old(self).spec_clients();
                let kept = persistent(cs);
                let lws = last_wills(cs);
                &&& logged_closes(old(self).spec_closed(), final(self).spec_closed(), connected_ids(cs))
                &&& final(self).spec_clients().len() == kept.len()
                &&& forall|j: int|
                    0 <= j < kept.len() ==> after_disconnect(kept[j], #[trigger] final(self).spec_clients()[j])
                &&& info.clean_session_ids@.map_values(|s: String| s@) == clean_ids(cs)
                &&& gracefully ==> info.last_will_packets@.len() == 0
                &&& !gracefully ==> {
                    &&& info.last_will_packets@.len() == lws.len()
                    &&& forall|j: int|
                        0 <= j < lws.len() ==> (#[trigger] info.last_will_packets@[j]).0@ == lws[j].0
                            && info.last_will_packets@[j].1.wf()
                            && is_last_will_publish(lws[j].1, info.last_will_packets@[j].1.view_of())
                }
            },
    {
        let ghost cs = self.spec_clients();
        let mut last_will_packets: Vec<(String, Publish)> = Vec::new();
        proof {
            assert(cs.take(0) =~= Seq::<Client<S>>::empty());
            assert(self.spec_closed().take(self.spec_closed().len() as int) =~= self.spec_closed());
        }
        let mut k: usize = 0;
        while k < self.clients.len()
            invariant
                self.wf(),
                self.spec_counter() == old(self).spec_counter(),
                self.spec_has_login() == old(self).spec_has_login(),
                cs == old(self).spec_clients(),
                self.spec_clients().len() == cs.len(),
                k <= cs.len(),
                forall|j: int| 0 <= j < k ==> after_disconnect(cs[j], #[trigger] self.spec_clients()[j]),
                logged_closes(old(self).spec_closed(), self.spec_closed(), connected_ids(cs.take(k as int))),
                forall|j: int| k <= j < cs.len() ==> #[trigger] self.spec_clients()[j] == cs[j],
                gracefully ==> last_will_packets@.len() == 0,
                !gracefully ==> {
                    let lws = last_wills(cs.take(k as int));
                    &&& last_will_packets@.len() == lws.len()
                    &&& forall|j: int|
                        0 <= j < lws.len() ==> (#[trigger] last_will_packets@[j]).0@ == lws[j].0
                            && last_will_packets@[j].1.wf()
                            && is_last_will_publish(lws[j].1, last_will_packets@[j].1.view_of())
                },
            decreases cs.len() - k,
        {
            let ghost before = self.spec_clients();
            let ghost log_before = self.spec_closed();
            let was_connected = self.clients[k].connected();
            let lw = self.clients[k].disconnect(gracefully);
            proof {
                self.lemma_update_keeps_wf(before, k as int);
            }
            match lw {
                Err(e) => {
                    proof {
                        assert(before[k as int] == cs[k as int]);
                        assert(cs[k as int].spec_connection_id() is Some);
                        assert(!close_succeeds_opt(cs[k as int].spec_stream()));
                        assert forall|j: int| 0 <= j < cs.len() implies (#[trigger] self.spec_clients()[j]).spec_id()
                            == cs[j].spec_id() by {
                            if j < k {
                                assert(after_disconnect(cs[j], self.spec_clients()[j]));
                            } else if j > k {
                                assert(self.spec_clients()[j] == before[j]);
                            }
                        }
                    }
                    return Err(e);
                },
                Ok(Some(p)) => {
                    let id = String::from_str(self.clients[k].id());
                    last_will_packets.push((id, p));
                },
                Ok(None) => {},
            }
            if was_connected {
                self.closed = Ghost(self.closed@.push(self.clients@[k as int].spec_closed_connection()->0));
            }
            proof {
                assert(cs.take(k as int + 1).drop_last() =~= cs.take(k as int));
                assert(cs.take(k as int + 1).last() == cs[k as int]);
                assert(before[k as int] == cs[k as int]);
                let ids = connected_ids(cs.take(k as int));
                let ids2 = connected_ids(cs.take(k as int + 1));
                let l0 = old(self).spec_closed();
                let l2 = self.spec_closed();
                if was_connected {
                    assert(ids2 == ids.push(cs[k as int].spec_connection_id()->0));
                    assert(l2.take(l0.len() as int) =~= log_before.take(l0.len() as int));
                    assert forall|j: int| l0.len() <= j < l2.len() implies closed_as(#[trigger] l2[j], ids2[j - l0.len()]) by {
                        if j < log_before.len() {
                            assert(l2[j] == log_before[j]);
                        }
                    }
                } else {
                    assert(ids2 == ids);
                }
                assert forall|j: int| 0 <= j < k + 1 implies after_disconnect(cs[j], #[trigger] self.spec_clients()[j]) by {
                    if j < k {
                        assert(self.spec_clients()[j] == before[j]);
                    }
                }
                assert forall|j: int| k + 1 <= j < cs.len() implies #[trigger] self.spec_clients()[j] == cs[j] by {
                    assert(self.spec_clients()[j] == before[j]);
                }
            }
            k = k + 1;
        }
        let ghost mid = self.spec_clients();
        let ghost mid_log = self.spec_closed();
        proof {
            assert(cs.take(cs.len() as int) =~= cs);
        }
        let mut clean_session_ids: Vec<String> = Vec::new();
        let mut i: usize = 0;
        let ghost mut done: int = 0;
        while i < self.clients.len()
            invariant
                self.wf(),
                self.spec_counter() == old(self).spec_counter(),
                self.spec_has_login() == old(self).spec_has_login(),
                0 <= done <= mid.len(),
                self.spec_closed() == mid_log,
                self.spec_clients() =~= persistent(mid.take(done)) + mid.skip(done),
                i == persistent(mid.take(done)).len(),
                clean_session_ids@.map_values(|s: String| s@) == clean_ids(mid.take(done)),
            decreases mid.len() - done,
        {
            proof {
                assert(self.spec_clients()[i as int] == mid[done]);
                assert(mid.take(done + 1).drop_last() =~= mid.take(done));
                assert(mid.take(done + 1).last() == mid[done]);
                assert(mid.skip(done) =~= seq![mid[done]] + mid.skip(done + 1));
            }
            if self.clients[i].clean_session() {
                let id = String::from_str(self.clients[i].id());
                let ghost before = self.spec_clients();
                let _removed = self.clients.remove(i);
                proof {
                    lemma_remove_keeps_wf(before, self.spec_counter(), i as int);
                }
                clean_session_ids.push(id);
                proof {
                    assert(clean_session_ids@.map_values(|s: String| s@) =~= clean_ids(mid.take(done + 1)));
                }
            } else {
                i = i + 1;
            }
            proof {
                done = done + 1;
            }
        }
        proof {
            assert(mid.take(mid.len() as int) =~= mid);
            lemma_disconnected_keeps_sessions(cs, mid);
        }
        Ok(ShutdownInfo { clean_session_ids, last_will_packets })
    }

    /// The client with identifier `id`. Fails with kind
    /// [`ServerErrorKind::ClientNotFound`] when there is none.
    pub fn client(&self, id: &str) -> (r: ServerResult<&Client<S>>)
        requires
            self.wf(),
        ensures
            match self.spec_client(id@) {
                Some(c) => r matches Ok(x) && *x == c,
                None => r matches Err(e) && e.spec_kind() == ServerErrorKind::ClientNotFound
                    && e.message() == MSG_NO_CLIENT@ + id@ + ">"@,
            },
    {
        let target = String::from_str(id);
        match self.find(&target) {
            Some(i) => Ok(&self.clients[i]),
            None => Err(Self::not_found_error(id)),
        }
    }

    /// The keep alive, in milliseconds, of the client `id`.
    pub fn keep_alive(&self, id: &str) -> (r: ServerResult<Option<u64>>)
        requires
            self.wf(),
        ensures
            match self.spec_client(id@) {
                Some(c) => r matches Ok(k) && k == keep_alive_millis(c.spec_connect().keep_alive),
                None => r matches Err(e) && e.spec_kind() == ServerErrorKind::ClientNotFound,
            },
    {
        match self.client(id) {
            Ok(c) => Ok(c.keep_alive()),
            Err(e) => Err(e),
        }
    }

    /// Sends `bytes` to the client `id` (see [`Client::send_packet`]).
    /// Fails with kind [`ServerErrorKind::ClientNotFound`] when there is no
    /// such client.
    pub fn send_packet(&mut self, id: &str, bytes: &[u8]) -> (r: ServerResult<()>)
        requires
            old(self).wf(),
        ensures
            final(self).wf(),
            final(self).spec_counter() == old(self).spec_counter(),
            final(self).spec_has_login() == old(self).spec_has_login(),
            match index_of(old(self).spec_clients(), id@) {
                None => final(self).spec_clients() == old(self).spec_clients() && (r matches Err(e)
                    && e.spec_kind() == ServerErrorKind::ClientNotFound),
                Some(i) => {
                    let c = old(self).spec_clients()[i];
                    let c2 = final(self).spec_clients()[i];
                    &&& only_changed_at(old(self).spec_clients(), final(self).spec_clients(), i)
                    &&& packet_sent(c, c2, bytes@, &r)
                },
            },
    {
        let target = String::from_str(id);
        match self.find(&target) {
            Some(i) => {
                let ghost old_cs = self.spec_clients();
                let r = self.clients[i].send_packet(bytes);
                proof {
                    self.lemma_update_keeps_wf(old_cs, i as int);
                }
                r
            },
            None => Err(Self::not_found_error(id)),
        }
    }

    /// Sends `publish` to the client `id` (see [`Client::send_publish`]);
    /// a QoS 1 message is kept until the client acknowledges it. Fails with
    /// kind [`ServerErrorKind::ClientNotFound`] when there is no such
    /// client.
    pub fn send_publish(&mut self, id: &str, publish: Publish) -> (r: ServerResult<()>)
        requires
            old(self).wf(),
            publish.wf(),
        ensures
            final(self).wf(),
            final(self).spec_counter() == old(self).spec_counter(),
            final(self).spec_has_login() == old(self).spec_has_login(),
            match index_of(old(self).spec_clients(), id@) {
                None => final(self).spec_clients() == old(self).spec_clients() && (r matches Err(e)
                    && e.spec_kind() == ServerErrorKind::ClientNotFound),
                Some(i) => {
                    let c = old(self).spec_clients()[i];
                    let c2 = final(self).spec_clients()[i];
                    &&& only_changed_at(old(self).spec_clients(), final(self).spec_clients(), i)
                    &&& exists|now: u64| #[trigger] publish_sent(c, c2, publish.view_of(), now, &r)
                },
            },
    {
        let target = String::from_str(id);
        match self.find(&target) {
            Some(i) => {
                let ghost old_cs = self.spec_clients();
                let r = self.clients[i].send_publish(publish);
                proof {
                    self.lemma_update_keeps_wf(old_cs, i as int);
                }
                r
            },
            None => Err(Self::not_found_error(id)),
        }
    }

    /// Sends the oldest unacknowledged message of the client `id` again
    /// (see [`Client::send_unacknowledged`]). Fails with kind
    /// [`ServerErrorKind::ClientNotFound`] when there is no such client.
    pub fn send_unacknowledged(&mut self, id: &str, min_elapsed: Option<u64>) -> (r: ServerResult<()>)
        requires
            old(self).wf(),
        ensures
            final(self).wf(),
            final(self).spec_counter() == old(self).spec_counter(),
            final(self).spec_has_login() == old(self).spec_has_login(),
            match index_of(old(self).spec_clients(), id@) {
                None => final(self).spec_clients() == old(self).spec_clients() && (r matches Err(e)
                    && e.spec_kind() == ServerErrorKind::ClientNotFound),
                Some(i) => {
                    let c = old(self).spec_clients()[i];
                    let c2 = final(self).spec_clients()[i];
                    &&& only_changed_at(old(self).spec_clients(), final(self).spec_clients(), i)
                    &&& exists|now: u64| #[trigger] unack_resent(c, c2, min_elapsed, now, &r)
                },
            },
    {
        let target = String::from_str(id);
        match self.find(&target) {
            Some(i) => {
                let ghost old_cs = self.spec_clients();
                let r = self.clients[i].send_unacknowledged(min_elapsed);
                proof {
                    self.lemma_update_keeps_wf(old_cs, i as int);
                }
                r
            },
            None => Err(Self::not_found_error(id)),
        }
    }

    /// Removes from the unacknowledged messages of the client `id` the
    /// first one whose packet identifier is `packet_id` (see
    /// [`Client::acknowledge`]). Fails with kind
    /// [`ServerErrorKind::ClientNotFound`] when there is no such client,
    /// and with kind [`ServerErrorKind::Other`] when no message has that
    /// packet identifier.
    pub fn acknowledge(&mut self, id: &str, packet_id: u16) -> (r: ServerResult<()>)
        requires
            old(self).wf(),
        ensures
            final(self).wf(),
            final(self).spec_counter() == old(self).spec_counter(),
            match index_of(old(self).spec_clients(), id@) {
                None => final(self).spec_clients() == old(self).spec_clients() && (r matches Err(e)
                    && e.spec_kind() == ServerErrorKind::ClientNotFound),
                Some(i) => only_changed_at(old(self).spec_clients(), final(self).spec_clients(), i) && acknowledged(
                    old(self).spec_clients()[i],
                    final(self).spec_clients()[i],
                    packet_id,
                    &r,
                ),
            },
    {
        let target = String::from_str(id);
        match self.find(&target) {
            Some(i) => {
                let ghost old_cs = self.spec_clients();
                let r = self.clients[i].acknowledge(packet_id);
                proof {
                    self.lemma_update_keeps_wf(old_cs, i as int);
                }
                r
            },
            None => Err(Self::not_found_error(id)),
        }
    }
}

impl<S: WriteBytes + Close + Interrupt, L: Login> ClientsManager<S, L> {
    /// Opens a session for the CONNECT `connect` received over
    /// `network_connection`, without sending the CONNACK.
    ///
    /// The credentials are checked first (see [`credentials_verdict`]); a
    /// refused connection fails with kind
    /// [`ServerErrorKind::ConnectionRefused`] and changes nothing. Then the
    /// client is admitted (see [`admission`]): a client that had a session
    /// takes it over, and the last will of the previous session is
    /// returned.
    pub fn new_session(&mut self, network_connection: NetworkConnection<S, ConnectionId>, connect: Connect) -> (r: ServerResult<ConnectInfo>)
        requires
            old(self).wf(),
            connect.wf(),
            connect.view_of().client_id.len() == 0 ==> old(self).spec_counter() < u32::MAX,
        ensures
            final(self).wf(),
            final(self).spec_has_login() == old(self).spec_has_login(),
            exists|o: Result<LoginResult, (IoErrorKind, Seq<char>)>| {
                let v = #[trigger] credentials_verdict(
                    old(self).spec_clients(),
                    old(self).spec_has_login(),
                    connect.view_of(),
                    o,
                );
                &&& login_answers(old(self).spec_login(), connect.view_of(), o)
                &&& v is Err ==> {
                    &&& result_view(&r) == v
                    &&& final(self).spec_clients() == old(self).spec_clients()
                    &&& final(self).spec_counter() == old(self).spec_counter()
                    &&& final(self).spec_closed() == old(self).spec_closed()
                }
                &&& v is Ok ==> admission(
                    old(self).spec_clients(),
                    old(self).spec_counter(),
                    old(self).spec_closed(),
                    final(self).spec_clients(),
                    final(self).spec_counter(),
                    final(self).spec_closed(),
                    connect.view_of(),
                    network_connection.spec_id(),
                    &r,
                )
            },
    {
        let ghost cs = self.spec_clients();
        let ghost cnt = self.spec_counter();
        let ghost has_login = self.spec_has_login();
        let ghost c = connect.view_of();
        let ghost login0 = self.spec_login();
        let checked = self.check_credentials(&connect);
        let ghost o = choose|o: Result<LoginResult, (IoErrorKind, Seq<char>)>|
            login_answers(login0, c, o) && result_view(&checked) == #[trigger] credentials_verdict(cs, has_login, c, o);
        match checked {
            Err(e) => {
                let r = Err(e);
                proof {
                    assert(result_view(&r) == credentials_verdict(cs, has_login, c, o));
                }
                r
            },
            Ok(()) => {
                proof {
                    assert(credentials_verdict(cs, has_login, c, o) is Ok);
                    if is_reserved(c.client_id) {
                        assert(credentials_verdict(cs, has_login, c, o) is Err);
                    }
                }
                let r = self.open_session(network_connection, connect);
                proof {
                    assert(credentials_verdict(cs, has_login, c, o) is Ok);
                }
                r
            },
        }
    }
}

} // verus!
