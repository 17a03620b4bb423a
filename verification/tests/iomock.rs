use mqtt_server::io_error::IoErrorKind;
use mqtt_server::iomock::IOMock;
use mqtt_server::connection_stream::ConnectionStream;
use mqtt_server::network_connection::NetworkConnection;
use mqtt_server::traits::{Close, Interrupt, WriteBytes};

#[test]
fn test_read_write_one_byte() {
    let mut iomock = IOMock::new();

    let byte = [5u8];

    iomock.write_all(&byte).unwrap();
    let buf = iomock.read(1);

    assert_eq!(buf[0], 5);
}

#[test]
fn test_read_write_multiple_bytes() {
    let mut iomock = IOMock::new();

    let byte = [5u8, 10u8];

    iomock.write_all(&byte).unwrap();
    let buf = iomock.read(2);

    assert_eq!(buf[0], 5);
    assert_eq!(buf[1], 10);
}

#[test]
fn test_read_write_multiple_bytes_separately() {
    let mut iomock = IOMock::new();

    let byte = [5u8, 10u8];

    iomock.write_all(&byte).unwrap();

    let buf = iomock.read(1);
    assert_eq!(buf[0], 5);
    let buf = iomock.read(1);
    assert_eq!(buf[0], 10);
}

#[test]
fn test_read_past_end_returns_what_is_left() {
    let mut iomock = IOMock::new();
    iomock.write_all(&[1, 2]).unwrap();
    assert_eq!(iomock.read(10), vec![1, 2]);
    assert!(iomock.read(1).is_empty());
}

#[test]
fn test_write_after_close_fails() {
    let mut iomock = IOMock::new();
    iomock.close().unwrap();
    let error = iomock.write_all(&[1]).unwrap_err();
    assert_eq!(error.kind(), IoErrorKind::UnexpectedEof);
    assert!(iomock.buf.is_empty());
}

#[test]
fn test_network_connection_close_closes_the_stream() {
    let mut connection = NetworkConnection::new(7u64, IOMock::new());
    assert!(connection.close().is_ok());
    assert!(connection.stream().closed);
    assert_eq!(connection.write_all(&[1]).unwrap_err().kind(), IoErrorKind::UnexpectedEof);
    assert_eq!(*connection.id(), 7);
}

#[test]
fn test_network_connection_forwards_writes_and_timeouts() {
    let mut connection = NetworkConnection::new(1u64, IOMock::new());
    connection.write_all(&[3, 4]).unwrap();
    connection.alert(250).unwrap();
    assert_eq!(connection.stream().buf, vec![3, 4]);
    assert_eq!(connection.stream().read_timeout, Some(250));
    connection.sleep().unwrap();
    assert_eq!(connection.stream().read_timeout, None);
}

#[test]
fn test_connection_stream_forwards_to_its_stream() {
    let mut stream = ConnectionStream::new(9u64, IOMock::new());
    stream.write_all(&[1, 2]).unwrap();
    assert_eq!(stream.stream().buf, vec![1, 2]);
    stream.alert(100).unwrap();
    assert_eq!(stream.stream().read_timeout, Some(100));
    stream.sleep().unwrap();
    assert_eq!(stream.stream().read_timeout, None);
    stream.close().unwrap();
    assert!(stream.stream().closed);
    assert!(stream.write_all(&[3]).is_err());
    assert_eq!(stream.id(), 9);
}

#[test]
fn test_flush_succeeds_and_keeps_the_bytes() {
    let mut iomock = IOMock::new();
    assert!(!iomock.closed && iomock.buf.is_empty());
    assert!(iomock.flush().is_ok());
    iomock.write_all(&[1, 2]).unwrap();
    assert!(iomock.flush().is_ok());
    assert_eq!(iomock.buf, vec![1, 2]);
    let mut stream = ConnectionStream::new(1u64, iomock);
    assert!(stream.flush().is_ok());
    assert_eq!(stream.stream().buf, vec![1, 2]);
}
