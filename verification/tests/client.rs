use mqtt_server::client::Client;
use mqtt_server::iomock::IOMock;
use mqtt_server::network_connection::NetworkConnection;
use mqtt_server::packets::connect::{Connect, LastWill};
use mqtt_server::packets::packet_reader::decode_remaining_length;
use mqtt_server::packets::publish::Publish;
use mqtt_server::packets::qos::QoSLevel;
use mqtt_server::server::server_error::ServerErrorKind;

fn make_publish(topic_name: &str, qos: QoSLevel) -> Publish {
    if qos == QoSLevel::QoSLevel0 {
        Publish::new(false, QoSLevel::QoSLevel0, false, topic_name, "message", None).unwrap()
    } else {
        Publish::new(false, QoSLevel::QoSLevel1, false, topic_name, "message", Some(1)).unwrap()
    }
}

fn make_connect(keep_alive: u16, clean_session: bool, last_will_qos: Option<QoSLevel>) -> Connect {
    let mut connect = Connect::with_id("client_id", keep_alive, clean_session);
    if let Some(qos) = last_will_qos {
        if qos == QoSLevel::QoSLevel0 {
            connect.set_last_will(LastWill::new("top", "message", QoSLevel::QoSLevel0, false).unwrap());
        } else {
            connect.set_last_will(LastWill::new("top", "top", QoSLevel::QoSLevel0, false).unwrap());
        }
    }
    connect
}

/// The bytes written so far to the client's connection.
fn sent_bytes(client: &Client<IOMock>) -> Vec<u8> {
    client.connection().unwrap().stream().buf.clone()
}

/// Reads the PUBLISH at the start of `bytes`; returns it and its length.
fn next_publish(bytes: &[u8]) -> (Publish, usize) {
    let control = bytes[0];
    let (len, used) = decode_remaining_length(&bytes[1..]).unwrap();
    let publish = Publish::read_from(&bytes[1..], control).unwrap();
    (publish, 1 + used + len)
}

#[test]
fn tests_test_creation() {
    let connect = Connect::with_id("client_id", 0, true);

    let connect_copy = connect.clone();

    let network_connection = NetworkConnection::new(0, IOMock::new());

    let client = Client::new(connect, network_connection);

    assert_eq!(*client.connect(), connect_copy);
    assert!(client.connection().is_some());
    assert_eq!(client.unacknowledged_len(), 0);
    assert_eq!(client.id(), "client_id");
}

#[test]
fn test_keep_alive_returns_correct_value() {
    let connect = Connect::with_id("client_id", 1, true);

    let network_connection = NetworkConnection::new(0, IOMock::new());

    let client = Client::new(connect, network_connection);
    assert_eq!(client.keep_alive(), Some(1500));
}

#[test]
fn test_keep_alive_zero_means_no_limit() {
    let client = Client::new(Connect::with_id("client_id", 0, true), NetworkConnection::new(0, IOMock::new()));
    assert_eq!(client.keep_alive(), None);
}

#[test]
fn test_publish_send_packet_through_network_connection() {
    let connect = make_connect(0, true, None);

    let publish = make_publish("top", QoSLevel::QoSLevel0);

    let publish_copy = publish.clone();

    let network_connection = NetworkConnection::new(0, IOMock::new());

    let mut client = Client::new(connect, network_connection);
    client.send_publish(publish).unwrap();

    let bytes = sent_bytes(&client);
    let (publish_received, used) = next_publish(&bytes);
    assert_eq!(publish_copy, publish_received);
    assert_eq!(used, bytes.len());
}

#[test]
fn test_publish_does_not_save_packet_in_unacknowledged_if_qos_is_0() {
    let connect = make_connect(0, true, None);

    let publish = make_publish("top", QoSLevel::QoSLevel0);

    let network_connection = NetworkConnection::new(0, IOMock::new());

    let mut client = Client::new(connect, network_connection);
    client.send_publish(publish).unwrap();
    assert_eq!(client.unacknowledged_len(), 0);
}

#[test]
fn test_publish_saves_packet_in_unacknowledged_if_qos_is_1() {
    let connect = make_connect(0, true, None);

    let publish = make_publish("top", QoSLevel::QoSLevel1);

    let mut publish_copy = publish.clone();
    publish_copy.set_dup(true);

    let network_connection = NetworkConnection::new(0, IOMock::new());

    let mut client = Client::new(connect, network_connection);
    client.send_publish(publish).unwrap();
    assert_eq!(*client.unacknowledged_at(0), publish_copy);
}

#[test]
fn test_send_unacknowledged() {
    let connect = make_connect(0, true, None);

    let publish = make_publish("top", QoSLevel::QoSLevel1);

    let mut publish_copy = publish.clone();
    publish_copy.set_dup(true);

    let network_connection = NetworkConnection::new(0, IOMock::new());

    let mut client = Client::new(connect, network_connection);
    client.send_publish(publish).unwrap();
    client.send_unacknowledged(None).unwrap();

    let bytes = sent_bytes(&client);
    // First publish
    let (_, used) = next_publish(&bytes);
    // Second publish
    let (unacknowledged, _) = next_publish(&bytes[used..]);
    assert_eq!(unacknowledged, publish_copy);
}

#[test]
fn test_send_unacknowledged_multiple_times() {
    let connect = make_connect(0, true, None);

    let publish = make_publish("top", QoSLevel::QoSLevel1);

    let mut publish_copy = publish.clone();
    publish_copy.set_dup(true);

    let network_connection = NetworkConnection::new(0, IOMock::new());

    let mut client = Client::new(connect, network_connection);
    client.send_publish(publish).unwrap();
    client.send_unacknowledged(None).unwrap();
    client.send_unacknowledged(None).unwrap();

    let bytes = sent_bytes(&client);
    let (_, first) = next_publish(&bytes);
    let (_, second) = next_publish(&bytes[first..]);
    let (unacknowledged, third) = next_publish(&bytes[first + second..]);

    assert_eq!(unacknowledged, publish_copy);
    assert_eq!(first + second + third, bytes.len());
}

#[test]
fn test_acknowledge_remove_packet_from_list() {
    let connect = make_connect(0, true, None);

    let publish = make_publish("top", QoSLevel::QoSLevel1);

    let network_connection = NetworkConnection::new(0, IOMock::new());

    let mut client = Client::new(connect, network_connection);
    client.send_publish(publish).unwrap();
    client.acknowledge(1).unwrap();

    assert_eq!(client.unacknowledged_len(), 0);
}

#[test]
fn test_acknowledge_unknown_packet_id_keeps_list() {
    let mut client = Client::new(make_connect(0, true, None), NetworkConnection::new(0, IOMock::new()));
    client.send_publish(make_publish("top", QoSLevel::QoSLevel1)).unwrap();
    let error = client.acknowledge(2).unwrap_err();
    assert_eq!(error.kind(), ServerErrorKind::Other);
    assert_eq!(error.msg(), "Ningun paquete sin confirmar tiene el identificador 2");
    assert_eq!(client.unacknowledged_len(), 1);
}

#[test]
fn test_send_unacknowledged_inflight_messages_bigger_than_unacknowledged_should_work() {
    let connect = make_connect(0, true, None);

    let publish = make_publish("top", QoSLevel::QoSLevel1);

    let mut publish_copy = publish.clone();
    publish_copy.set_dup(true);

    let network_connection = NetworkConnection::new(0, IOMock::new());

    let mut client = Client::new(connect, network_connection);
    client.send_publish(publish).unwrap();
    client.send_unacknowledged(None).unwrap();

    let bytes = sent_bytes(&client);
    let (_, used) = next_publish(&bytes);
    let (unacknowledged, _) = next_publish(&bytes[used..]);
    assert_eq!(unacknowledged, publish_copy);
}

#[test]
fn test_send_unacknowledged_min_elapsed_time_should_not_send_recent_packets() {
    let connect = make_connect(0, true, None);

    let publish = make_publish("top", QoSLevel::QoSLevel1);

    let publish_copy = publish.clone();

    let network_connection = NetworkConnection::new(0, IOMock::new());

    let mut client = Client::new(connect, network_connection);
    client.send_publish(publish).unwrap();
    client.send_unacknowledged(Some(5000)).unwrap();

    let bytes = sent_bytes(&client);
    let (received, used) = next_publish(&bytes);
    assert_eq!(received, publish_copy);

    // The second publish was not sent
    assert_eq!(used, bytes.len());
}

#[test]
fn test_send_unacknowledged_min_elapsed_time_should_send_old_packets() {
    let connect = make_connect(0, true, None);

    let publish = make_publish("top", QoSLevel::QoSLevel1);

    let mut publish_copy = publish.clone();
    publish_copy.set_dup(true);

    let network_connection = NetworkConnection::new(0, IOMock::new());

    let mut client = Client::new(connect, network_connection);
    client.send_publish_at(publish, 1000).unwrap();

    client.send_unacknowledged_at(Some(100), 1150).unwrap();

    let bytes = sent_bytes(&client);
    let (_, used) = next_publish(&bytes);
    let (received, _) = next_publish(&bytes[used..]);
    assert_eq!(received, publish_copy);
}

#[test]
fn test_send_unacknowledged_at_exact_min_elapsed_is_not_due() {
    let mut client = Client::new(make_connect(0, true, None), NetworkConnection::new(0, IOMock::new()));
    client.send_publish_at(make_publish("top", QoSLevel::QoSLevel1), 1000).unwrap();
    let before = sent_bytes(&client).len();
    client.send_unacknowledged_at(Some(100), 1100).unwrap();
    assert_eq!(sent_bytes(&client).len(), before);
}

#[test]
fn test_send_unacknowledged_should_keep_order() {
    let connect = make_connect(0, false, None);
    let publish1 = make_publish("top1", QoSLevel::QoSLevel1);
    let publish2 = make_publish("top2", QoSLevel::QoSLevel1);

    let mut publish1_copy = publish1.clone();

    let network_connection = NetworkConnection::new(0, IOMock::new());
    let mut client = Client::new(connect, network_connection);

    client.send_publish(publish1).unwrap();
    client.send_publish(publish2).unwrap();
    // Nothing is sent and the unacknowledged list stays the same
    client.send_unacknowledged(Some(1000)).unwrap();
    // The first packet is sent
    client.send_unacknowledged(None).unwrap();

    let bytes = sent_bytes(&client);
    // publish1, dup flag false
    let (_, first) = next_publish(&bytes);
    // publish2, dup flag false
    let (_, second) = next_publish(&bytes[first..]);
    // publish1, dup flag true
    let (received, _) = next_publish(&bytes[first + second..]);
    publish1_copy.set_dup(true);

    assert_eq!(received, publish1_copy);
}

#[test]
fn test_disconnect_gracefully_should_remove_last_will() {
    let connect = make_connect(0, true, Some(QoSLevel::QoSLevel0));

    let network_connection = NetworkConnection::new(0, IOMock::new());
    let mut client = Client::new(connect, network_connection);
    let last_will = client.disconnect(true).unwrap();
    assert!(last_will.is_none());
    assert!(client.connect().last_will().is_none());
    assert!(!client.connected());
}

#[test]
fn test_disconnect_ungracefully_should_remove_last_will() {
    let connect = make_connect(0, true, Some(QoSLevel::QoSLevel0));

    let network_connection = NetworkConnection::new(0, IOMock::new());
    let mut client = Client::new(connect, network_connection);
    let last_will = client.disconnect(false).unwrap().unwrap();
    assert_eq!(last_will, Publish::new(false, QoSLevel::QoSLevel0, false, "top", "message", None).unwrap());
    assert!(client.connect().last_will().is_none());
}

#[test]
fn test_send_packet_to_disconnected_client_fails() {
    let mut client = Client::new(make_connect(0, true, None), NetworkConnection::new(0, IOMock::new()));
    client.disconnect(true).unwrap();
    let error = client.send_packet(&[1, 2]).unwrap_err();
    assert_eq!(error.kind(), ServerErrorKind::ClientDisconnected);
    assert_eq!(error.msg(), "Intento de envio de paquete a cliente <client_id> desconectado");
}

#[test]
fn test_reconnect_updates_connection_info() {
    let connect_1 = make_connect(0, true, None);

    let connect_2 = make_connect(15, false, None);

    let connect_2_copy = connect_2.clone();

    let network_connection_1 = NetworkConnection::new(0, IOMock::new());
    let network_connection_2 = NetworkConnection::new(1, IOMock::new());
    let mut client = Client::new(connect_1, network_connection_1);
    client.reconnect(connect_2, network_connection_2).unwrap();

    assert_eq!(client.connection_id().unwrap(), 1);
    assert_eq!(*client.connect(), connect_2_copy);
}

#[test]
fn test_reconnect_with_clean_session_should_clean_unacknowledged() {
    let connect_1 = make_connect(0, false, None);

    let connect_2 = make_connect(15, true, None);

    let publish = Publish::new(false, QoSLevel::QoSLevel1, false, "top", "message", Some(1)).unwrap();

    let network_connection_1 = NetworkConnection::new(0, IOMock::new());
    let network_connection_2 = NetworkConnection::new(1, IOMock::new());
    let mut client = Client::new(connect_1, network_connection_1);
    client.send_publish(publish).unwrap();

    client.reconnect(connect_2, network_connection_2).unwrap();

    assert_eq!(client.unacknowledged_len(), 0);
}

#[test]
fn test_reconnect_does_not_work_with_different_client_id() {
    let connect_1 = make_connect(0, true, None);

    let connect_2 = Connect::with_id("otro_id", 0, true);

    let network_connection_1 = NetworkConnection::new(0, IOMock::new());
    let network_connection_2 = NetworkConnection::new(1, IOMock::new());
    let mut client = Client::new(connect_1, network_connection_1);

    let result = client.reconnect(connect_2, network_connection_2);
    let error = result.unwrap_err();
    assert_eq!(error.kind(), ServerErrorKind::Irrecoverable);
    assert_eq!(error.msg(), "<client_id>: Intento de reconexion con un cliente con id diferente (otro_id)");
}

#[test]
fn test_disconnect_of_disconnected_client_does_nothing() {
    let mut client = Client::new(make_connect(0, true, Some(QoSLevel::QoSLevel0)), NetworkConnection::new(0, IOMock::new()));
    client.disconnect(true).unwrap();
    let connect_before = client.connect().clone();
    assert!(client.disconnect(false).unwrap().is_none());
    assert_eq!(*client.connect(), connect_before);
    assert!(!client.connected());
}

#[test]
fn test_acknowledge_found_packet_succeeds_and_keeps_order() {
    let mut client = Client::new(make_connect(0, true, None), NetworkConnection::new(0, IOMock::new()));
    let first = Publish::new(false, QoSLevel::QoSLevel1, false, "a", "m", Some(1)).unwrap();
    let second = Publish::new(false, QoSLevel::QoSLevel1, false, "b", "m", Some(2)).unwrap();
    let third = Publish::new(false, QoSLevel::QoSLevel1, false, "c", "m", Some(3)).unwrap();
    client.send_publish(first).unwrap();
    client.send_publish(second).unwrap();
    client.send_publish(third).unwrap();
    assert!(client.acknowledge(2).is_ok());
    assert_eq!(client.unacknowledged_len(), 2);
    assert_eq!(client.unacknowledged_at(0).packet_id(), Some(1));
    assert_eq!(client.unacknowledged_at(1).packet_id(), Some(3));
    assert_eq!(client.connection().unwrap().stream().read_timeout, Some(500));
}

#[test]
fn test_acknowledge_of_last_packet_waits_for_keep_alive() {
    let mut client = Client::new(make_connect(2, true, None), NetworkConnection::new(0, IOMock::new()));
    client.send_publish(make_publish("top", QoSLevel::QoSLevel1)).unwrap();
    client.send_publish(Publish::new(false, QoSLevel::QoSLevel1, false, "x", "m", Some(7)).unwrap()).unwrap();
    assert_eq!(client.connection().unwrap().stream().read_timeout, Some(500));
    client.acknowledge(1).unwrap();
    client.acknowledge(7).unwrap();
    assert_eq!(client.unacknowledged_len(), 0);
    assert_eq!(client.connection().unwrap().stream().read_timeout, Some(3000));

    let mut unlimited = Client::new(make_connect(0, true, None), NetworkConnection::new(0, IOMock::new()));
    unlimited.send_publish(make_publish("top", QoSLevel::QoSLevel1)).unwrap();
    unlimited.acknowledge(1).unwrap();
    assert_eq!(unlimited.connection().unwrap().stream().read_timeout, None);
}

#[test]
fn test_send_unacknowledged_writes_the_oldest_packet_again() {
    let mut client = Client::new(make_connect(0, true, None), NetworkConnection::new(0, IOMock::new()));
    client.send_publish_at(make_publish("top", QoSLevel::QoSLevel1), 10).unwrap();
    let before = sent_bytes(&client).len();
    client.send_unacknowledged_at(Some(100), 50).unwrap();
    assert_eq!(sent_bytes(&client).len(), before);
    client.send_unacknowledged_at(Some(100), 200).unwrap();
    let bytes = sent_bytes(&client);
    let (again, len) = next_publish(&bytes[before..]);
    assert_eq!(before + len, bytes.len());
    assert_eq!(again.packet_id(), Some(1));
    assert!(again.dup());
}

#[test]
fn test_send_unacknowledged_with_clock_behind() {
    let mut client = Client::new(make_connect(0, true, None), NetworkConnection::new(0, IOMock::new()));
    client.send_publish_at(make_publish("top", QoSLevel::QoSLevel1), 100).unwrap();
    let before = sent_bytes(&client).len();
    let error = client.send_unacknowledged_at(Some(10), 50).unwrap_err();
    assert_eq!(error.msg(), "El reloj retrocedio");
    assert_eq!(sent_bytes(&client).len(), before);
    assert_eq!(client.unacknowledged_len(), 1);
    client.send_unacknowledged_at(None, 50).unwrap();
    assert!(sent_bytes(&client).len() > before);
    assert_eq!(client.unacknowledged_len(), 1);
}

#[test]
fn test_send_publish_writes_the_packet() {
    let mut client = Client::new(make_connect(0, true, None), NetworkConnection::new(0, IOMock::new()));
    let publish = make_publish("top", QoSLevel::QoSLevel0);
    let expected = publish.encode().unwrap();
    client.send_publish(publish).unwrap();
    assert_eq!(sent_bytes(&client), expected);
}
