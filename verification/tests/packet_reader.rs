use mqtt_server::packets::packet_reader::{
    decode_remaining_length, encode_remaining_length, read_packet_body, read_packet_bytes, ErrorKind,
    MAX_REMAINING_LENGTH,
};

#[test]
fn test_decode_short() {
    let fixed_header = [0, 10];
    let remaining: Vec<u8> = (0u8..10u8).collect();

    let result = read_packet_bytes(fixed_header, &remaining);

    assert_eq!(remaining, result.unwrap());
}

#[test]
fn test_decode_2_length_bytes() {
    let fixed_header = [0, 0b10000101]; // 5 + continuation bit
    let mut vector = vec![1u8]; // 1 in the second length byte
    // Total: 128 * 1 + 5 = 133
    let remaining: Vec<u8> = (0u8..133u8).collect(); // 133 bytes
    vector.append(&mut remaining.clone());

    let result = read_packet_bytes(fixed_header, &vector);

    assert_eq!(remaining, result.unwrap());
}

#[test]
fn test_decode_4_length_bytes() {
    let fixed_header = [0, 0b10000001]; // 1 + continuation bit
    let mut vector = vec![0xf3, 0xe7, 0x5c];
    // Total length: 1 + 128 * 0x73 + 128^2 * 0x67 + 128^3 * 0x5c = 0xb99f981 = 194640257 bytes

    let mut remaining = vec![1u8; 194640257];
    vector.append(&mut remaining);

    let result = read_packet_bytes(fixed_header, &vector);

    assert_eq!(194640257, result.unwrap().len());
}

#[test]
fn test_decode_more_than_4_length_bytes_should_be_error() {
    let fixed_header = [0, 0x80];
    let repeat = vec![0x80u8; 64];

    let result = read_packet_bytes(fixed_header, &repeat);

    assert!(result.is_err());
}

#[test]
fn test_decode_truncated_body_is_unexpected_eof() {
    let result = read_packet_bytes([0, 3], &[1, 2]);
    assert_eq!(result.unwrap_err().kind(), ErrorKind::UnexpectedEof);
}

#[test]
fn test_remaining_length_values() {
    assert_eq!(encode_remaining_length(0), vec![0]);
    assert_eq!(encode_remaining_length(127), vec![0x7f]);
    assert_eq!(encode_remaining_length(128), vec![0x80, 0x01]);
    assert_eq!(encode_remaining_length(16383), vec![0xff, 0x7f]);
    assert_eq!(encode_remaining_length(16384), vec![0x80, 0x80, 0x01]);
    assert_eq!(encode_remaining_length(MAX_REMAINING_LENGTH), vec![0xff, 0xff, 0xff, 0x7f]);
}

#[test]
fn test_remaining_length_roundtrip() {
    for v in [0usize, 1, 127, 128, 300, 16383, 16384, 2097151, 2097152, MAX_REMAINING_LENGTH] {
        let bytes = encode_remaining_length(v);
        let (decoded, used) = decode_remaining_length(&bytes).unwrap();
        assert_eq!(decoded, v);
        assert_eq!(used, bytes.len());
    }
}

#[test]
fn test_read_packet_body_reports_bytes_read() {
    let stream = vec![2u8, 9, 8, 7];
    let (body, read) = read_packet_body(&stream).unwrap();
    assert_eq!(body, vec![9, 8]);
    assert_eq!(read, 3);
}
