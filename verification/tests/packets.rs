use mqtt_server::client_packets::pingreq::PingReq;
use mqtt_server::packets::packet_reader::ErrorKind;
use mqtt_server::packets::puback::Puback;
use mqtt_server::packets::publish::{Publish, MSG_INVALID_QOS, MSG_INVALID_TOPIC_NAME, MSG_NOT_PUBLISH};
use mqtt_server::packets::qos::QoSLevel;

#[test]
fn publish_roundtrip_qos0() {
    let publish = Publish::new(false, QoSLevel::QoSLevel0, true, "a/b", "hola", None).unwrap();
    let bytes = publish.encode().unwrap();
    assert_eq!(bytes, vec![0x31, 9, 0, 3, b'a', b'/', b'b', b'h', b'o', b'l', b'a']);
    let read = Publish::read_from(&bytes[1..], bytes[0]).unwrap();
    assert_eq!(read, publish);
}

#[test]
fn publish_roundtrip_qos1_with_dup() {
    let publish = Publish::new(true, QoSLevel::QoSLevel1, false, "t", "x", Some(0x0102)).unwrap();
    let bytes = publish.encode().unwrap();
    assert_eq!(bytes, vec![0x3a, 6, 0, 1, b't', 1, 2, b'x']);
    let read = Publish::read_from(&bytes[1..], bytes[0]).unwrap();
    assert_eq!(read, publish);
    assert!(read.dup());
    assert_eq!(read.packet_id(), Some(0x0102));
}

#[test]
fn publish_with_qos_2_is_rejected() {
    let error = Publish::read_from(&[3, 0, 1, b't'], 0x34).unwrap_err();
    assert_eq!(error.kind(), ErrorKind::InvalidFlags);
    assert_eq!(error.msg(), MSG_INVALID_QOS);
}

#[test]
fn publish_with_wildcard_topic_is_rejected() {
    let error = Publish::read_from(&[3, 0, 1, b'#'], 0x30).unwrap_err();
    assert_eq!(error.kind(), ErrorKind::InvalidProtocol);
    assert_eq!(error.msg(), MSG_INVALID_TOPIC_NAME);
}

#[test]
fn publish_read_with_another_type_is_rejected() {
    let error = Publish::read_from(&[0], 0x40).unwrap_err();
    assert_eq!(error.kind(), ErrorKind::InvalidControlPacketType);
    assert_eq!(error.msg(), MSG_NOT_PUBLISH);
}

#[test]
fn publish_with_invalid_topic_name_cannot_be_built() {
    assert!(Publish::new(false, QoSLevel::QoSLevel0, false, "", "x", None).is_err());
    assert!(Publish::new(false, QoSLevel::QoSLevel0, false, "a/+", "x", None).is_err());
    assert!(Publish::new(false, QoSLevel::QoSLevel1, false, "a", "x", None).is_err());
}

#[test]
fn publish_set_max_qos_drops_packet_id() {
    let mut publish = Publish::new(false, QoSLevel::QoSLevel1, false, "a", "x", Some(3)).unwrap();
    publish.set_max_qos(QoSLevel::QoSLevel0);
    assert_eq!(publish.qos(), QoSLevel::QoSLevel0);
    assert_eq!(publish.packet_id(), None);
}

#[test]
fn puback_roundtrip() {
    let puback = Puback::new(0x1234).unwrap();
    let bytes = puback.encode();
    assert_eq!(bytes, vec![0x40, 2, 0x12, 0x34]);
    let read = Puback::read_from(bytes[0], &bytes[1..]).unwrap();
    assert_eq!(read, puback);
}

#[test]
fn puback_with_packet_id_zero_is_rejected() {
    assert_eq!(Puback::new(0).unwrap_err().kind(), ErrorKind::InvalidProtocol);
    assert_eq!(Puback::read_from(0x40, &[2, 0, 0]).unwrap_err().kind(), ErrorKind::InvalidProtocol);
}

#[test]
fn puback_with_long_body_is_rejected() {
    assert_eq!(Puback::read_from(0x40, &[3, 0, 1, 2]).unwrap_err().kind(), ErrorKind::InvalidProtocol);
    assert_eq!(Puback::read_from(0x41, &[2, 0, 1]).unwrap_err().kind(), ErrorKind::InvalidReservedBits);
}

#[test]
fn pingreq_roundtrip() {
    let bytes = PingReq::new().encode();
    assert!(PingReq::read_from(bytes[0], &bytes[1..]).is_ok());
    assert_eq!(PingReq::read_from(0xc0, &[1, 0]).unwrap_err().kind(), ErrorKind::Other);
    assert_eq!(PingReq::read_from(0xd0, &[0]).unwrap_err().kind(), ErrorKind::InvalidControlPacketType);
}
