use mqtt_server::http::messages::{HttpResponse, HttpStatusCode, HttpVersion};
use mqtt_server::io_error::{IoError, IoErrorKind};
use mqtt_server::iomock::IOMock;
use mqtt_server::packets::packet_reader::ErrorKind;
use mqtt_server::packets::publish::Publish;
use mqtt_server::packets::qos::QoSLevel;
use mqtt_server::server::client_loop::{
    client_loop_step, dump_due, server_loop_step, AcceptOutcome, Activity, LoopEvent, LoopStep, ServerStep,
};
use mqtt_server::server::packet_processing::{
    packet_action, publish_acknowledgement, read_client_packet, read_error, refusal_connack, ClientPacket, PacketAction,
    PacketType, MSG_CLIENT_LEFT, MSG_UNEXPECTED_PACKET,
};
use mqtt_server::server::server_error::{ServerError, ServerErrorKind};
use mqtt_server::server_packets::connack::ConnackReturnCode;

#[test]
fn packet_type_from_control_byte() {
    assert_eq!(PacketType::from_control_byte(0x10).unwrap(), PacketType::Connect);
    assert_eq!(PacketType::from_control_byte(0x3f).unwrap(), PacketType::Publish);
    assert_eq!(PacketType::from_control_byte(0xe0).unwrap(), PacketType::Disconnect);
    assert_eq!(PacketType::from_control_byte(0x00).unwrap_err().kind(), ErrorKind::InvalidControlPacketType);
    assert_eq!(PacketType::from_control_byte(0xf0).unwrap_err().kind(), ErrorKind::InvalidControlPacketType);
}

#[test]
fn read_client_packet_publish() {
    let publish = Publish::new(false, QoSLevel::QoSLevel1, false, "a", "b", Some(7)).unwrap();
    let bytes = publish.encode().unwrap();
    match read_client_packet(bytes[0], &bytes[1..]).unwrap() {
        ClientPacket::Publish(read) => assert_eq!(read, publish),
        _ => panic!("expected a PUBLISH"),
    }
}

#[test]
fn read_client_packet_puback_pingreq_disconnect() {
    match read_client_packet(0x40, &[2, 0, 9]).unwrap() {
        ClientPacket::Puback(p) => assert_eq!(p.packet_id(), 9),
        _ => panic!("expected a PUBACK"),
    }
    assert!(matches!(read_client_packet(0xc0, &[0]).unwrap(), ClientPacket::PingReq));
    assert!(matches!(read_client_packet(0xe0, &[0]).unwrap(), ClientPacket::Disconnect));
    assert_eq!(read_client_packet(0xe0, &[0]).unwrap().packet_type(), PacketType::Disconnect);
}

#[test]
fn read_client_packet_connect_is_protocol_violation() {
    let error = read_client_packet(0x10, &[0]).unwrap_err();
    assert_eq!(error.kind(), ServerErrorKind::ProtocolViolation);
    assert_eq!(error.msg(), MSG_UNEXPECTED_PACKET);
}

#[test]
fn read_client_packet_truncated_body_is_client_disconnected() {
    let error = read_client_packet(0x30, &[5, 0]).unwrap_err();
    assert_eq!(error.kind(), ServerErrorKind::ClientDisconnected);
}

#[test]
fn read_error_for_left_client() {
    let error = read_error(IoError::new(IoErrorKind::UnexpectedEof, "eof"));
    assert_eq!(error.kind(), ServerErrorKind::ClientDisconnected);
    assert_eq!(error.msg(), MSG_CLIENT_LEFT);
    let error = read_error(IoError::new(IoErrorKind::WouldBlock, "later"));
    assert_eq!(error.kind(), ServerErrorKind::Timeout);
    let error = read_error(IoError::new(IoErrorKind::Other, "boom"));
    assert_eq!(error.kind(), ServerErrorKind::Other);
    assert_eq!(error.msg(), "boom");
}

#[test]
fn refusal_connack_only_for_refusals() {
    let refused = ServerError::new_kind("no", ServerErrorKind::ConnectionRefused(ConnackReturnCode::NotAuthorized));
    assert_eq!(refusal_connack(&refused).unwrap().encode(), vec![32, 2, 0, 5]);
    let other = ServerError::new_msg("other");
    assert!(refusal_connack(&other).is_none());
}

#[test]
fn client_loop_packets_refresh_activity() {
    let activity = Activity { last_activity: 0, keep_alive: Some(1500) };
    let (next, step) = client_loop_step(activity, LoopEvent::Packet(PacketType::Publish), 1000);
    assert_eq!(next.last_activity, 1000);
    assert_eq!(step, LoopStep::ReadNext);
    let (_, step) = client_loop_step(next, LoopEvent::Packet(PacketType::Disconnect), 1200);
    assert_eq!(step, LoopStep::Finish(true));
}

#[test]
fn client_loop_timeouts_and_keep_alive() {
    let activity = Activity { last_activity: 1000, keep_alive: Some(1500) };
    assert_eq!(client_loop_step(activity, LoopEvent::ReadTimeout, 2000), (activity, LoopStep::SendUnacknowledged));
    assert_eq!(client_loop_step(activity, LoopEvent::UnacknowledgedSent, 2500).1, LoopStep::ReadNext);
    assert_eq!(client_loop_step(activity, LoopEvent::UnacknowledgedSent, 2501).1, LoopStep::Finish(false));
    assert_eq!(client_loop_step(activity, LoopEvent::ReadFailed, 1001).1, LoopStep::Finish(false));
    let no_limit = Activity { last_activity: 0, keep_alive: None };
    assert_eq!(client_loop_step(no_limit, LoopEvent::UnacknowledgedSent, u64::MAX).1, LoopStep::ReadNext);
}

#[test]
fn server_loop_steps() {
    assert_eq!(server_loop_step(AcceptOutcome::Accepted), ServerStep::RunClient);
    assert_eq!(server_loop_step(AcceptOutcome::Idle), ServerStep::Sleep);
    assert_eq!(server_loop_step(AcceptOutcome::Failed), ServerStep::Stop);
}

#[test]
fn dumps_are_due_after_their_period() {
    assert!(!dump_due(None, 0, 1_000_000));
    assert!(!dump_due(Some(10_000), 5_000, 14_999));
    assert!(dump_due(Some(10_000), 5_000, 15_000));
}

#[test]
fn http_response_is_sent_whole() {
    let response = HttpResponse::new(HttpStatusCode::OK, HttpVersion::V1_1, None, Some(b"hi".to_vec()));
    let mut stream = IOMock::new();
    response.send_to(&mut stream).unwrap();
    assert_eq!(stream.buf, b"HTTP/1.1 200 OK 200\r\nContent-Length: 2\r\n\r\nhi".to_vec());
    assert_eq!(stream.buf, response.encode());
}

#[test]
fn publishes_owe_a_puback_for_qos_1() {
    let qos1 = Publish::new(false, QoSLevel::QoSLevel1, false, "a", "b", Some(5)).unwrap();
    assert_eq!(publish_acknowledgement(&qos1).unwrap().unwrap().encode(), vec![0x40, 2, 0, 5]);
    let qos0 = Publish::new(false, QoSLevel::QoSLevel0, false, "a", "b", None).unwrap();
    assert!(publish_acknowledgement(&qos0).unwrap().is_none());
    let zero = Publish::new(false, QoSLevel::QoSLevel1, false, "a", "b", Some(0)).unwrap();
    assert_eq!(publish_acknowledgement(&zero).unwrap_err().kind(), ErrorKind::InvalidProtocol);
}

#[test]
fn packets_are_acted_on() {
    assert!(matches!(packet_action(read_client_packet(0x40, &[2, 0, 5]).unwrap()), PacketAction::Acknowledge(5)));
    match packet_action(read_client_packet(0xc0, &[0]).unwrap()) {
        PacketAction::Reply(bytes) => assert_eq!(bytes, vec![0xd0, 0]),
        _ => panic!("expected a reply"),
    }
    assert!(matches!(packet_action(read_client_packet(0xe0, &[0]).unwrap()), PacketAction::Nothing));
    let publish = read_client_packet(0x30, &[5, 0, 1, b'a', b'h', b'i']).unwrap();
    assert!(matches!(packet_action(publish), PacketAction::Defer(ClientPacket::Publish(_))));
}
