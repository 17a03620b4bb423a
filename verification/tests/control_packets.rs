use mqtt_server::client_packets::pingreq::{PingReq, RESERVED_BYTES_MASK};
use mqtt_server::packets::packet_reader::{ErrorKind, PacketError};
use mqtt_server::server_packets::connack::{Connack, ConnackReturnCode};
use mqtt_server::server_packets::disconnect::Disconnect;
use mqtt_server::server_packets::pingresp::PingResp;
use mqtt_server::server_packets::unsuback::{Unsuback, CONTROL_BYTE, FIXED_REMAINING_LENGTH, MSG_INVALID_PACKET_ID};

#[test]
fn test_packet_type() {
    let bytes = PingReq::new().encode();
    let packet_type = bytes[0] >> 4;
    assert_eq!(packet_type, 12);
}

#[test]
fn test_reserved_bytes_are_zero() {
    let bytes = PingReq::new().encode();
    let reserved_bytes = bytes[0] & RESERVED_BYTES_MASK;
    assert_eq!(reserved_bytes, 0);
}

#[test]
fn test_remaining_length_is_zero() {
    let bytes = PingReq::new().encode();
    let remaining_length = bytes[1];
    assert_eq!(remaining_length, 0);
}

#[test]
fn test_valid_disconnect() {
    let mut bytes = vec![];
    let control_byte = 0b11100000;
    bytes.push(0b00000000); // remaining_length
    let packet = Disconnect::read_from(control_byte, &bytes);
    assert!(packet.is_ok());
}

#[test]
fn test_remaining_length_not_zero_should_fail() {
    let mut bytes = vec![];
    let control_byte = 0b11100000;
    bytes.push(0b00000001); // remaining_length
    let packet = Disconnect::read_from(control_byte, &bytes);
    assert!(packet.is_err());
}

#[test]
fn test_invalid_packet_type() {
    let mut bytes = vec![];
    let control_byte = 0b11110000;
    bytes.push(0b00000000); // remaining_length
    let packet = Disconnect::read_from(control_byte, &bytes);
    assert!(packet.is_err());
}

#[test]
fn test_invalid_reserved_bytes() {
    let mut bytes = vec![];
    let control_byte = 0b11100100;
    bytes.push(0b00000000); // remaining_length
    let packet = Disconnect::read_from(control_byte, &bytes);
    assert!(packet.is_err());
}

#[test]
fn test_disconnect_without_remaining_length_fails() {
    let bytes: Vec<u8> = vec![];
    let packet = Disconnect::read_from(0b11100000, &bytes);
    assert!(packet.is_err());
}

#[test]
fn test_control_byte() {
    let encoded = PingResp::new().encode();
    let control_byte = encoded[0];
    assert_eq!(control_byte, 0b11010000);
}

#[test]
fn test_remaining_length() {
    let encoded = PingResp::new().encode();
    let remaining_length = encoded[1];
    assert_eq!(remaining_length, 0b00000000);
}

#[test]
fn test_packet_should_be_two_bytes_long() {
    let encoded = PingResp::new().encode();
    assert_eq!(encoded.len(), 2);
}

#[test]
fn test_unsuback_with_packet_id_0_should_raise_invalid_protocol_error() {
    let result = Unsuback::new(0).unwrap_err();
    let expected_error = PacketError::new_kind(MSG_INVALID_PACKET_ID, ErrorKind::InvalidProtocol);
    assert!(expected_error.same_as(&result));
}

#[test]
fn test_encoding_unsuback_packet_with_packet_id_1() {
    let unsuback = Unsuback::new(1).unwrap();
    let result = unsuback.encode();
    let expected: Vec<u8> = vec![CONTROL_BYTE, FIXED_REMAINING_LENGTH, 0, 1];
    assert_eq!(expected, result)
}

#[test]
fn test_encoding_unsuback_with_two_byte_packet_id() {
    let unsuback = Unsuback::new(0x1234).unwrap();
    assert_eq!(unsuback.packet_id(), 0x1234);
    assert_eq!(unsuback.encode(), vec![CONTROL_BYTE, FIXED_REMAINING_LENGTH, 0x12, 0x34]);
}

#[test]
fn test_connack_encoding_accepted_with_session_present() {
    let connack = Connack::new(true, ConnackReturnCode::Accepted);
    assert_eq!(connack.encode(), vec![32, 2, 1, 0]);
}

#[test]
fn test_connack_encoding_refused() {
    let connack = Connack::new(false, ConnackReturnCode::NotAuthorized);
    assert_eq!(connack.encode(), vec![32, 2, 0, 5]);
    assert_eq!(u8::from(ConnackReturnCode::BadUserNameOrPassword), 4);
    assert_eq!(u8::from(ConnackReturnCode::IdentifierRejected), 2);
}

#[test]
fn test_disconnect_read_whole_from_stream() {
    assert!(Disconnect::new(&[0b11100000, 0]).is_ok());
    assert_eq!(Disconnect::new(&[]).err().unwrap().kind(), ErrorKind::UnexpectedEof);
    assert_eq!(Disconnect::new(&[0b11110000, 0]).err().unwrap().kind(), ErrorKind::InvalidControlPacketType);
    assert_eq!(Disconnect::new(&[0b11100100, 0]).err().unwrap().kind(), ErrorKind::InvalidReservedBits);
    assert!(Disconnect::new(&[0b11100000, 1, 0]).is_err());
}
