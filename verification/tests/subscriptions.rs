use mqtt_server::packets::packet_reader::{ErrorKind, PacketError};
use mqtt_server::packets::qos::QoSLevel;
use mqtt_server::packets::utf8::Field;
use mqtt_server::server_packets::unsubscribe::{Unsubscribe, MSG_AT_LEAST_ONE_TOPIC_FILTER, MSG_PACKET_TYPE_UNSUBSCRIBE};
use mqtt_server::subscribe::Subscribe;

#[test]
fn test_unsubscribe_packet_with_empty_topic_filter_should_raise_invalid_protocol_error() {
    let control_byte = 0b10100010u8;
    let v: Vec<u8> = vec![2, 0, 1]; // remaining length + packet id
    let result = Unsubscribe::read_from(&v, control_byte).unwrap_err();
    let expected_error = PacketError::new_kind(MSG_AT_LEAST_ONE_TOPIC_FILTER, ErrorKind::InvalidProtocol);
    assert!(result.same_as(&expected_error));
}

#[test]
fn test_unsubscribe_packet_must_have_control_type_10() {
    let control_byte = 0b10000010u8; // control byte 8
    let mut topic = Field::new_from_string("temperatura/uruguay").unwrap().encode();
    let mut v: Vec<u8> = vec![21, 0, 1]; // remaining length + packet id
    v.append(&mut topic); // + payload
    let result = Unsubscribe::read_from(&v, control_byte).unwrap_err();
    let expected_error = PacketError::new_kind(MSG_PACKET_TYPE_UNSUBSCRIBE, ErrorKind::InvalidControlPacketType);
    assert!(result.same_as(&expected_error));
}

#[test]
fn test_unsubscribe_with_one_topic_filter() {
    let control_byte = 0b10100010u8;
    let mut topic = Field::new_from_string("temperatura/uruguay").unwrap().encode();
    let mut v: Vec<u8> = vec![23, 0, 7]; // remaining length + packet id
    v.append(&mut topic);
    let unsubscribe = Unsubscribe::read_from(&v, control_byte).unwrap();
    assert_eq!(unsubscribe.packet_id(), 7);
    assert_eq!(unsubscribe.topic_filters().len(), 1);
    assert_eq!(unsubscribe.topic_filters()[0], "temperatura/uruguay");
}

#[test]
fn test_identifier() {
    let mut v: Vec<u8> = Vec::new();
    v.extend_from_slice(&[123, 5]); // identifier
    v.extend(Field::new_from_string("unTopic").unwrap().encode());
    v.push(1); // QoS level 1

    v.insert(0, v.len() as u8);
    let packet = Subscribe::new(&v).unwrap();
    assert_eq!(packet.identifier(), (123 << 8) + 5);
}

#[test]
fn test_no_topics_should_fail() {
    let mut v: Vec<u8> = Vec::new();
    v.extend_from_slice(&[123, 5]); // identifier

    v.insert(0, v.len() as u8);
    let packet = Subscribe::new(&v);
    assert!(packet.is_err());
}

#[test]
fn test_one_topic() {
    let mut v: Vec<u8> = Vec::new();
    v.extend_from_slice(&[123, 5]); // identifier
    v.extend(Field::new_from_string("unTopic/*/+/asd//x").unwrap().encode());
    v.push(1); // QoS level 1

    v.insert(0, v.len() as u8);
    let packet = Subscribe::new(&v).unwrap();
    assert_eq!(packet.topic_filters().len(), 1);
    assert_eq!(packet.topic_filters().first().unwrap().topic_name, "unTopic/*/+/asd//x");
    assert_eq!(packet.topic_filters().first().unwrap().qos, QoSLevel::QoSLevel1);
}

#[test]
fn test_two_topics() {
    let mut v: Vec<u8> = Vec::new();
    v.extend_from_slice(&[123, 5]); // identifier
    v.extend(Field::new_from_string("first").unwrap().encode());
    v.push(2); // QoS level 2 should set to 1
    v.extend(Field::new_from_string("second").unwrap().encode());
    v.push(0); // QoS level 0

    v.insert(0, v.len() as u8);
    let packet = Subscribe::new(&v).unwrap();
    assert_eq!(packet.topic_filters().len(), 2);
    assert_eq!(packet.topic_filters().first().unwrap().topic_name, "first");
    assert_eq!(packet.topic_filters().first().unwrap().qos, QoSLevel::QoSLevel1);
    assert_eq!(packet.topic_filters()[1].topic_name, "second");
    assert_eq!(packet.topic_filters()[1].qos, QoSLevel::QoSLevel0);
}

#[test]
fn test_field_roundtrip_through_stream() {
    let encoded = Field::new_from_string("a/b").unwrap().encode();
    assert_eq!(encoded, vec![0, 3, b'a', b'/', b'b']);
    let (field, used) = Field::new_from_stream(&encoded).unwrap();
    assert_eq!(field.value, "a/b");
    assert_eq!(used, 5);
}
