use mqtt_server::config::FileConfig;
use mqtt_server::http::config::{Config, SEP};

#[test]
fn test_valid_file() {
    let text = "port=8080
dump_path=foo.txt
dump_time=10
log_path=bar.txt
accounts_path=baz.csv
ip=localhost";

    let config = FileConfig::new_from_file(text).unwrap();
    assert_eq!(config.port(), 8080);
    assert_eq!(config.dump_info().unwrap().0, "foo.txt");
    assert_eq!(config.dump_info().unwrap().1, 10);
    assert_eq!(config.log_path(), "bar.txt");
    assert_eq!(config.accounts_path(), "baz.csv");
    assert_eq!(config.ip(), "localhost");
}

#[test]
fn test_valid_file_with_whitespace() {
    let text = "port=8080
    dump_path=foo.txt
  dump_time=10
log_path=bar.txt    
accounts_path=baz.csv
    ip=localhost";

    let config = FileConfig::new_from_file(text).unwrap();
    assert_eq!(config.port(), 8080);
    assert_eq!(config.dump_info().unwrap().0, "foo.txt");
    assert_eq!(config.dump_info().unwrap().1, 10);
    assert_eq!(config.log_path(), "bar.txt");
    assert_eq!(config.accounts_path(), "baz.csv");
    assert_eq!(config.ip(), "localhost");
}

#[test]
fn test_invalid_key() {
    let text = "invalid_key=8080
dump_path=foo.txt
dump_time=10
log_path=bar.txt
accounts_path=baz.csv
ip=localhost";

    assert!(FileConfig::new_from_file(text).is_none());
}

#[test]
fn test_invalid_value() {
    let text = "port=WWWW
dump_path=foo.txt
dump_time=10
log_path=bar.txt
accounts_path=baz.csv
ip=localhost";

    assert!(FileConfig::new_from_file(text).is_none());
}

#[test]
fn test_no_dump_info() {
    let text = "port=8080
dump_path=
dump_time=
log_path=bar.txt
accounts_path=baz.csv
ip=localhost";

    let config = FileConfig::new_from_file(text).unwrap();

    assert_eq!(config.port(), 8080);
    assert!(config.dump_info().is_none());
    assert_eq!(config.log_path(), "bar.txt");
    assert_eq!(config.accounts_path(), "baz.csv");
    assert_eq!(config.ip(), "localhost");
}

#[test]
fn test_port_out_of_range_is_rejected() {
    let text = "port=70000
dump_path=foo.txt
dump_time=10
log_path=bar.txt
accounts_path=baz.csv
ip=localhost";

    assert!(FileConfig::new_from_file(text).is_none());
}

#[test]
fn test_new_from_file() {
    let text = "
            server=localhost
            port=1883
            client_id=test_client
            topic=test_topic
            user=test_user
            password=test_password
            period=1000"
        .replace("=", SEP);
    let config = Config::new_from_file(&text).unwrap();
    assert_eq!(config.server, "localhost");
    assert_eq!(config.port, "1883");
    assert_eq!(config.client_id, "test_client");
    assert_eq!(config.topic, "test_topic");
    assert_eq!(config.user, "test_user");
    assert_eq!(config.password, "test_password");
    assert_eq!(config.period, 1000);
}

#[test]
fn test_missing_fields() {
    let text = "
            server=localhost
            client_id=test_client
            topic=test_topic
            user=test_user
            period=1000"
        .replace("=", SEP);
    let config = Config::new_from_file(&text);
    assert!(config.is_none());
}
