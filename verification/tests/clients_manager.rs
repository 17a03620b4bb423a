use mqtt_server::clients_manager::simple_login::SimpleLogin;
use mqtt_server::clients_manager::{ClientsManager, ConnectInfo, GENERIC_ID_SUFFIX};
use mqtt_server::io_error::{IoError, IoErrorKind};
use mqtt_server::iomock::IOMock;
use mqtt_server::network_connection::NetworkConnection;
use mqtt_server::packets::connect::{Connect, LastWill};
use mqtt_server::packets::publish::Publish;
use mqtt_server::packets::qos::QoSLevel;
use mqtt_server::server::server_error::{ServerErrorKind, ServerResult};
use mqtt_server::server_packets::connack::ConnackReturnCode;
use mqtt_server::traits::{Login, LoginResult};

const TEST_ACCOUNTS: &str = "user,pass
foo,bar";

/// Accounts kept in memory, searched again in their text when the cache
/// misses.
struct AccountsLogin {
    cache: SimpleLogin,
    text: String,
}

impl AccountsLogin {
    fn new(text: &str) -> Self {
        Self { cache: SimpleLogin::new_from_stream(text, "").unwrap(), text: text.to_string() }
    }
}

impl Login for AccountsLogin {
    fn login(&mut self, user_name: &str, password: &str) -> Result<LoginResult, IoError> {
        match self.cache.login(user_name, password) {
            Some(result) => Ok(result),
            None => SimpleLogin::search_in_file(&self.text, user_name, password),
        }
    }
}

/// A method that fails as a file that cannot be read would.
struct BrokenLogin;

impl Login for BrokenLogin {
    fn login(&mut self, _user_name: &str, _password: &str) -> Result<LoginResult, IoError> {
        Err(IoError::new(IoErrorKind::NotFound, "no accounts file"))
    }
}

type Manager = ClientsManager<IOMock, AccountsLogin>;

fn make_manager_with_clients(ids: Vec<&str>, clean_session: bool, accounts: Option<&str>) -> ServerResult<Manager> {
    let mut manager = match accounts {
        Some(text) => ClientsManager::new(Some(AccountsLogin::new(text))),
        None => ClientsManager::new(None),
    };
    for (i, id) in ids.into_iter().enumerate() {
        let iomock = IOMock::new();
        let connect = Connect::with_id(id, 0, clean_session);
        let network_connection = NetworkConnection::new(i as u64, iomock);
        manager.new_session(network_connection, connect)?;
    }
    Ok(manager)
}

fn connect_with_credentials(id: &str, keep_alive: u16, clean_session: bool, user: &str, password: &str) -> Connect {
    let mut connect = Connect::with_id(id, keep_alive, clean_session);
    connect.set_user_name(user);
    connect.set_password(password);
    connect
}

#[test]
fn clients_manager_test_creation() {
    let manager = Manager::new(None);
    assert_eq!(manager.len(), 0);
    assert_eq!(manager.generic_ids_counter(), 0);
}

#[test]
fn test_new_session_with_id() {
    let mut manager = Manager::new(None);
    let iomock = IOMock::new();
    let connect = Connect::with_id("client_id", 0, false);
    let network_connection = NetworkConnection::new(0, iomock);
    let connect_info = manager.new_session(network_connection, connect).unwrap();

    let expected = ConnectInfo { id: String::from("client_id"), session_present: false, takeover_last_will: None };

    assert!(manager.contains("client_id"));
    assert_eq!(connect_info, expected);
}

#[test]
fn test_new_session_empty_id() {
    let manager = make_manager_with_clients(vec![""], true, None).unwrap();

    assert!(manager.contains("__CLIENT__1"));
}

#[test]
fn test_new_session_empty_id_does_not_work_with_clean_session_true() {
    let manager = make_manager_with_clients(vec![""], false, None);

    assert_eq!(
        manager.err().unwrap().kind(),
        ServerErrorKind::ConnectionRefused(ConnackReturnCode::IdentifierRejected)
    );
}

#[test]
fn test_multiple_sessions_with_id() {
    let manager = make_manager_with_clients(vec!["client_id1", "client_id2"], true, None).unwrap();

    assert!(manager.contains("client_id1"));
    assert!(manager.contains("client_id2"));
}

#[test]
fn test_multiple_sessions_empty_id() {
    let manager = make_manager_with_clients(vec!["", ""], true, None).unwrap();

    assert!(manager.contains("__CLIENT__1"));
    assert!(manager.contains("__CLIENT__2"));
}

#[test]
fn test_generic_ids_start_new_sessions() {
    let mut manager = make_manager_with_clients(vec!["", ""], true, None).unwrap();
    let info = manager.new_session(NetworkConnection::new(9, IOMock::new()), Connect::with_id("", 0, true)).unwrap();
    assert_eq!(info.id, "__CLIENT__3");
    assert!(!info.session_present);
    assert_eq!(manager.generic_ids_counter(), 3);
    assert_eq!(manager.len(), 3);
}

#[test]
fn test_authorized_session() {
    let iomock = IOMock::new();
    let connect = connect_with_credentials("client_id", 0, false, "user", "pass");
    let network_connection = NetworkConnection::new(0, iomock);
    let mut manager = Manager::new(Some(AccountsLogin::new(TEST_ACCOUNTS)));

    manager.new_session(network_connection, connect).unwrap();
    assert!(manager.contains("client_id"));
}

#[test]
fn test_invalid_username_should_fail() {
    let iomock = IOMock::new();
    let connect = connect_with_credentials("client_id", 0, false, "usuario invalido", "pass");
    let network_connection = NetworkConnection::new(0, iomock);
    let mut manager = Manager::new(Some(AccountsLogin::new(TEST_ACCOUNTS)));

    let result = manager.new_session(network_connection, connect);
    assert_eq!(result.unwrap_err().kind(), ServerErrorKind::ConnectionRefused(ConnackReturnCode::NotAuthorized));
}

#[test]
fn test_invalid_password_should_fail() {
    let iomock = IOMock::new();
    let connect = connect_with_credentials("client_id", 0, false, "user", "contraseña invalida");
    let network_connection = NetworkConnection::new(0, iomock);
    let mut manager = Manager::new(Some(AccountsLogin::new(TEST_ACCOUNTS)));

    let result = manager.new_session(network_connection, connect);
    assert_eq!(
        result.unwrap_err().kind(),
        ServerErrorKind::ConnectionRefused(ConnackReturnCode::BadUserNameOrPassword)
    );
}

#[test]
fn test_missing_user_name_is_not_authorized() {
    let mut manager = Manager::new(Some(AccountsLogin::new(TEST_ACCOUNTS)));
    let result = manager.new_session(NetworkConnection::new(0, IOMock::new()), Connect::with_id("client_id", 0, false));
    let error = result.unwrap_err();
    assert_eq!(error.kind(), ServerErrorKind::ConnectionRefused(ConnackReturnCode::NotAuthorized));
    assert_eq!(error.msg(), "Clientes sin user_name no estan permitidos");
    assert_eq!(manager.len(), 0);
}

#[test]
fn test_missing_password_is_bad_user_name_or_password() {
    let mut manager = Manager::new(Some(AccountsLogin::new(TEST_ACCOUNTS)));
    let mut connect = Connect::with_id("client_id", 0, false);
    connect.set_user_name("user");
    let error = manager.new_session(NetworkConnection::new(0, IOMock::new()), connect).unwrap_err();
    assert_eq!(error.kind(), ServerErrorKind::ConnectionRefused(ConnackReturnCode::BadUserNameOrPassword));
    assert_eq!(error.msg(), "Clientes sin contraseña no estan permitidos");
}

#[test]
fn test_login_error_is_reported_without_connack() {
    let mut manager: ClientsManager<IOMock, BrokenLogin> = ClientsManager::new(Some(BrokenLogin));
    let connect = connect_with_credentials("client_id", 0, false, "user", "pass");
    let error = manager.new_session(NetworkConnection::new(0, IOMock::new()), connect).unwrap_err();
    assert_eq!(error.kind(), ServerErrorKind::Other);
    assert_eq!(error.msg(), "no accounts file");
    assert_eq!(manager.len(), 0);
}

#[test]
fn test_login_verdict_for_each_outcome() {
    let manager = make_manager_with_clients(vec![], true, None).unwrap();
    assert!(manager.login_verdict("id", "user", Ok(LoginResult::Accepted)).is_ok());
    assert_eq!(
        manager.login_verdict("id", "user", Ok(LoginResult::UsernameNotFound)).unwrap_err().msg(),
        "Usuario invalido"
    );
    assert_eq!(
        manager.login_verdict("id", "user", Ok(LoginResult::InvalidPassword)).unwrap_err().kind(),
        ServerErrorKind::ConnectionRefused(ConnackReturnCode::BadUserNameOrPassword)
    );
    let io = IoError::new(IoErrorKind::ConnectionReset, "reset");
    assert_eq!(manager.login_verdict("id", "user", Err(io)).unwrap_err().kind(), ServerErrorKind::ClientDisconnected);
}

#[test]
fn test_ids_collision_should_fail() {
    let iomock_1 = IOMock::new();
    let iomock_2 = IOMock::new();

    let connect_1 = connect_with_credentials("client_id", 0, false, "user", "pass");
    let connect_2 = connect_with_credentials("client_id", 0, false, "foo", "bar");

    let network_connection_1 = NetworkConnection::new(0, iomock_1);
    let network_connection_2 = NetworkConnection::new(1, iomock_2);

    let mut manager = Manager::new(Some(AccountsLogin::new(TEST_ACCOUNTS)));
    manager.new_session(network_connection_1, connect_1).unwrap();
    let result = manager.new_session(network_connection_2, connect_2);
    let error = result.unwrap_err();
    assert_eq!(error.kind(), ServerErrorKind::ConnectionRefused(ConnackReturnCode::IdentifierRejected));
    assert_eq!(error.msg(), "La ID <client_id> se encuentra reservada por otro usuario");
}

#[test]
fn test_connect_with_forbidden_id_should_fail() {
    let result = make_manager_with_clients(vec![GENERIC_ID_SUFFIX], true, None);
    assert_eq!(
        result.err().unwrap().kind(),
        ServerErrorKind::ConnectionRefused(ConnackReturnCode::IdentifierRejected)
    );
}

#[test]
fn test_takeover() {
    let iomock_1 = IOMock::new();
    let iomock_2 = IOMock::new();

    let connect_1 = connect_with_credentials("client_id", 0, false, "user", "pass");
    let connect_2 = connect_1.clone();

    let network_connection_1 = NetworkConnection::new(0, iomock_1);
    let network_connection_2 = NetworkConnection::new(1, iomock_2);

    let mut manager = Manager::new(Some(AccountsLogin::new(TEST_ACCOUNTS)));
    manager.new_session(network_connection_1, connect_1).unwrap();

    let connect_info = manager.new_session(network_connection_2, connect_2).unwrap();
    let expected = ConnectInfo { id: String::from("client_id"), session_present: true, takeover_last_will: None };
    assert_eq!(connect_info, expected);
}

#[test]
fn test_takeover_should_update_client_properties() {
    let iomock_1 = IOMock::new();
    let iomock_2 = IOMock::new();

    let connect_1 = connect_with_credentials("client_id", 0, false, "user", "pass");
    let connect_2 = connect_with_credentials("client_id", 15, true, "user", "pass");

    let network_connection_1 = NetworkConnection::new(0, iomock_1);
    let network_connection_2 = NetworkConnection::new(1, iomock_2);

    let mut manager = Manager::new(Some(AccountsLogin::new(TEST_ACCOUNTS)));
    manager.new_session(network_connection_1, connect_1).unwrap();
    manager.new_session(network_connection_2, connect_2).unwrap();

    let keep_alive = manager.keep_alive("client_id").unwrap();
    let clean_session = manager.client("client_id").unwrap().clean_session();

    assert_eq!(keep_alive, Some(22500));
    assert!(clean_session);
    assert_eq!(manager.client("client_id").unwrap().connection_id(), Some(1));
}

#[test]
fn test_takeover_should_return_lastwill() {
    let iomock_1 = IOMock::new();
    let iomock_2 = IOMock::new();

    let mut connect_1 = connect_with_credentials("client_id", 0, false, "user", "pass");
    connect_1.set_last_will(LastWill::new("top", "message", QoSLevel::QoSLevel0, false).unwrap());
    let connect_2 = connect_1.clone();

    let network_connection_1 = NetworkConnection::new(0, iomock_1);
    let network_connection_2 = NetworkConnection::new(1, iomock_2);

    let mut manager = Manager::new(Some(AccountsLogin::new(TEST_ACCOUNTS)));
    manager.new_session(network_connection_1, connect_1).unwrap();
    let connect_info = manager.new_session(network_connection_2, connect_2).unwrap();

    let publish_expected = Publish::new(false, QoSLevel::QoSLevel0, false, "top", "message", None).unwrap();
    assert_eq!(connect_info.takeover_last_will.unwrap(), publish_expected);
}

#[test]
fn test_disconnect_should_prevent_double_disconnection() {
    // A take-over: the thread of the new connection disconnects the
    // client, then the thread of the old one reads an end of file and
    // tries to disconnect it too.
    let iomock_1 = IOMock::new();
    let iomock_2 = IOMock::new();

    let connect_1 = Connect::with_id("client_id", 0, true);

    let connect_2 = connect_1.clone();

    let network_connection_1 = NetworkConnection::new(0, iomock_1);
    let network_connection_copy = network_connection_1.try_clone().unwrap();
    let network_connection_2 = NetworkConnection::new(1, iomock_2);

    let mut manager = Manager::new(None);
    manager.new_session(network_connection_1, connect_1).unwrap();
    manager.new_session(network_connection_2, connect_2).unwrap();

    // It does not fail: the double disconnection happens in every take-over
    manager.disconnect("client_id", network_connection_copy, true).unwrap();

    // Had it disconnected the client, the client would be gone, since it
    // asked for a clean session
    assert!(manager.contains("client_id"));
}

#[test]
fn test_disconnect_gracefully_should_not_return_last_will() {
    let iomock = IOMock::new();

    let mut connect = Connect::with_id("client_id", 0, false);
    connect.set_last_will(LastWill::new("top", "message", QoSLevel::QoSLevel0, false).unwrap());

    let network_connection = NetworkConnection::new(0, iomock);
    let network_connection_copy = network_connection.try_clone().unwrap();

    let mut manager = Manager::new(None);
    manager.new_session(network_connection, connect).unwrap();

    let disconnect_info = manager.disconnect("client_id", network_connection_copy, true).unwrap();

    assert!(disconnect_info.publish_last_will.is_none());
}

#[test]
fn test_disconnect_ungracefully_should_return_last_will() {
    let iomock = IOMock::new();

    let mut connect = Connect::with_id("client_id", 0, false);
    connect.set_last_will(LastWill::new("top", "message", QoSLevel::QoSLevel0, false).unwrap());

    let network_connection = NetworkConnection::new(0, iomock);
    let network_connection_copy = network_connection.try_clone().unwrap();

    let mut manager = Manager::new(None);
    manager.new_session(network_connection, connect).unwrap();

    let disconnect_info = manager.disconnect("client_id", network_connection_copy, false).unwrap();
    let expected = Publish::new(false, QoSLevel::QoSLevel0, false, "top", "message", None).unwrap();

    assert_eq!(disconnect_info.publish_last_will.unwrap(), expected);
}

#[test]
fn test_disconnect_unknown_client_does_nothing() {
    let mut manager = make_manager_with_clients(vec!["a"], true, None).unwrap();
    let info = manager.disconnect("b", NetworkConnection::new(0, IOMock::new()), false).unwrap();
    assert!(info.publish_last_will.is_none());
    assert!(!info.clean_session);
    assert_eq!(manager.len(), 1);
}

#[test]
fn test_disconnect_persistent_session_should_be_remembered() {
    let iomock_1 = IOMock::new();
    let iomock_2 = IOMock::new();

    let connect_1 = Connect::with_id("client_id", 0, false);

    let connect_2 = connect_1.clone();

    let network_connection_1 = NetworkConnection::new(0, iomock_1);
    let network_connection_copy = network_connection_1.try_clone().unwrap();

    let mut manager = Manager::new(None);
    manager.new_session(network_connection_1, connect_1).unwrap();

    let info = manager.disconnect("client_id", network_connection_copy, true).unwrap();
    assert!(!info.clean_session);

    let network_connection_1 = NetworkConnection::new(0, iomock_2);
    let connect_info = manager.new_session(network_connection_1, connect_2).unwrap();

    assert!(connect_info.session_present);
}

#[test]
fn test_disconnect_non_persistent_session_should_not_be_remembered() {
    let iomock_1 = IOMock::new();
    let iomock_2 = IOMock::new();

    let connect_1 = Connect::with_id("client_id", 0, true);

    let connect_2 = connect_1.clone();

    let network_connection_1 = NetworkConnection::new(0, iomock_1);
    let network_connection_copy = network_connection_1.try_clone().unwrap();

    let mut manager = Manager::new(None);
    manager.new_session(network_connection_1, connect_1).unwrap();

    let info = manager.disconnect("client_id", network_connection_copy, true).unwrap();
    assert!(info.clean_session);

    let network_connection_1 = NetworkConnection::new(0, iomock_2);
    let connect_info = manager.new_session(network_connection_1, connect_2).unwrap();

    assert!(!connect_info.session_present);
}

#[test]
fn test_shutdown_drops_clean_sessions_and_returns_last_wills() {
    let mut manager = Manager::new(None);
    let mut with_will = Connect::with_id("a", 0, false);
    with_will.set_last_will(LastWill::new("t", "bye", QoSLevel::QoSLevel0, false).unwrap());
    manager.new_session(NetworkConnection::new(0, IOMock::new()), with_will).unwrap();
    manager.new_session(NetworkConnection::new(1, IOMock::new()), Connect::with_id("b", 0, true)).unwrap();
    manager.new_session(NetworkConnection::new(2, IOMock::new()), Connect::with_id("c", 0, false)).unwrap();

    let info = manager.shutdown(false).unwrap();
    assert_eq!(info.clean_session_ids, vec![String::from("b")]);
    assert_eq!(info.last_will_packets.len(), 1);
    assert_eq!(info.last_will_packets[0].0, "a");
    assert_eq!(
        info.last_will_packets[0].1,
        Publish::new(false, QoSLevel::QoSLevel0, false, "t", "bye", None).unwrap()
    );
    assert!(manager.contains("a"));
    assert!(!manager.contains("b"));
    assert!(manager.contains("c"));
    assert!(!manager.client("a").unwrap().connected());
}

#[test]
fn test_graceful_shutdown_returns_no_last_will() {
    let mut manager = Manager::new(None);
    let mut with_will = Connect::with_id("a", 0, true);
    with_will.set_last_will(LastWill::new("t", "bye", QoSLevel::QoSLevel0, false).unwrap());
    manager.new_session(NetworkConnection::new(0, IOMock::new()), with_will).unwrap();
    let info = manager.shutdown(true).unwrap();
    assert!(info.last_will_packets.is_empty());
    assert_eq!(info.clean_session_ids, vec![String::from("a")]);
    assert_eq!(manager.len(), 0);
}

#[test]
fn test_acknowledge_unknown_client_fails() {
    let mut manager = Manager::new(None);
    let error = manager.acknowledge("nobody", 1).unwrap_err();
    assert_eq!(error.kind(), ServerErrorKind::ClientNotFound);
    assert_eq!(error.msg(), "No existe el cliente con id <nobody>");
}

#[test]
fn test_send_operations_reach_the_client() {
    let mut manager = Manager::new(None);
    manager.new_session(NetworkConnection::new(0, IOMock::new()), Connect::with_id("a", 0, true)).unwrap();
    manager.send_packet("a", &[0xd0, 0]).unwrap();
    let publish = Publish::new(false, QoSLevel::QoSLevel1, false, "t", "m", Some(4)).unwrap();
    manager.send_publish("a", publish).unwrap();
    assert_eq!(manager.client_at(0).unacknowledged_len(), 1);
    manager.send_unacknowledged("a", None).unwrap();
    assert_eq!(manager.client_at(0).unacknowledged_len(), 1);
    manager.acknowledge("a", 4).unwrap();
    assert_eq!(manager.client_at(0).unacknowledged_len(), 0);
    let sent = manager.client_at(0).connection().unwrap().stream().buf.clone();
    assert_eq!(&sent[..2], &[0xd0, 0]);
    assert_eq!(manager.send_packet("b", &[1]).unwrap_err().kind(), ServerErrorKind::ClientNotFound);
}

#[test]
fn test_last_will_is_owed_once() {
    let mut manager = Manager::new(None);
    let mut connect = Connect::with_id("a", 0, false);
    connect.set_last_will(LastWill::new("t", "bye", QoSLevel::QoSLevel0, false).unwrap());
    let connection = NetworkConnection::new(0, IOMock::new());
    let copy = connection.try_clone().unwrap();
    let copy_2 = connection.try_clone().unwrap();
    manager.new_session(connection, connect).unwrap();
    let first = manager.disconnect("a", copy, false).unwrap();
    assert!(first.publish_last_will.is_some());
    let second = manager.disconnect("a", copy_2, false).unwrap();
    assert!(second.publish_last_will.is_none());
    assert!(!second.clean_session);
}

#[test]
fn test_disconnect_of_disconnected_client_succeeds_and_keeps_it() {
    let mut connect = Connect::with_id("client_id", 0, false);
    connect.set_last_will(LastWill::new("top", "message", QoSLevel::QoSLevel0, false).unwrap());
    let network_connection = NetworkConnection::new(0, IOMock::new());
    let copy_1 = network_connection.try_clone().unwrap();
    let copy_2 = network_connection.try_clone().unwrap();
    let mut manager = Manager::new(None);
    manager.new_session(network_connection, connect).unwrap();
    manager.disconnect("client_id", copy_1, true).unwrap();
    let info = manager.disconnect("client_id", copy_2, false).unwrap();
    assert!(info.publish_last_will.is_none());
    assert!(!info.clean_session);
    assert!(manager.contains("client_id"));
    assert!(!manager.client("client_id").unwrap().connected());
}
