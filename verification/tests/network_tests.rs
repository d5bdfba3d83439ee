use tn5250r::network::{extract_5250_data, validate_network_data, AS400Connection, ProtocolMode, SessionConfig};

#[test]
fn test_connection_creation() {
    let conn = AS400Connection::new("localhost".to_string(), 23);
    assert_eq!(conn.get_host(), "localhost");
    assert_eq!(conn.get_port(), 23);
    assert!(!conn.is_connected());
}

#[test]
fn test_tls_default_for_port_992() {
    let conn = AS400Connection::new("example.com".to_string(), 992);
    assert!(conn.is_tls_enabled(), "TLS should be enabled by default on port 992");
}

#[test]
fn test_tls_default_for_port_23() {
    let conn = AS400Connection::new("example.com".to_string(), 23);
    assert!(!conn.is_tls_enabled(), "TLS should be disabled by default on port 23");
}

#[test]
fn test_tls_override_enable_on_23() {
    let mut conn = AS400Connection::new("example.com".to_string(), 23);
    assert!(!conn.is_tls_enabled());
    conn.set_tls(true);
    assert!(conn.is_tls_enabled(), "TLS override should enable TLS on non-SSL port");
}

#[test]
fn test_tls_override_disable_on_992() {
    let mut conn = AS400Connection::new("example.com".to_string(), 992);
    assert!(conn.is_tls_enabled());
    conn.set_tls(false);
    assert!(!conn.is_tls_enabled(), "TLS override should disable TLS on SSL port");
}

#[test]
fn network_data_checks() {
    assert!(!validate_network_data(&[]));
    assert!(validate_network_data(&[1, 0]));
    assert!(!validate_network_data(&[0, 0, 1]));
    assert!(!validate_network_data(&[0xFF, 0xFF, 0xFF, 1]));
    let mut long = vec![1u8; 100];
    for b in long.iter_mut().take(40).skip(8) {
        *b = 0;
    }
    assert!(!validate_network_data(&long));
    long[20] = 7;
    assert!(validate_network_data(&long));
    assert!(!validate_network_data(&vec![1u8; 65536]));
}

#[test]
fn telnet_commands_are_filtered() {
    // IAC DO option, data, IAC IAC, IAC SB ... IAC SE, data, IAC NOP.
    let data = [0xFF, 0xFD, 0x18, 0x41, 0xFF, 0xFF, 0xFF, 0xFA, 0x18, 0x01, 0xFF, 0xF0, 0x42, 0xFF, 0xF1];
    assert_eq!(extract_5250_data(&data), vec![0x41, 0xFF, 0x42]);
    // An unfinished subnegotiation ends the data.
    assert_eq!(extract_5250_data(&[0x41, 0xFF, 0xFA, 0x18, 0x01]), vec![0x41]);
    // An incomplete command at the end is dropped.
    assert_eq!(extract_5250_data(&[0x41, 0x42, 0xFF]), vec![0x41, 0x42]);
    assert!(extract_5250_data(&[0, 0, 0]).is_empty());
}

#[test]
fn protocol_detection_from_received_data() {
    let mut conn = AS400Connection::new("host".to_string(), 23);
    assert_eq!(conn.get_detected_protocol_mode(), ProtocolMode::TN5250);
    assert!(conn.is_protocol_detection_complete());
    assert_eq!(conn.accept_received(&[0x04, 0xF1, 0x00, 0x01]), Some(vec![0x04, 0xF1, 0x00, 0x01]));

    conn.set_protocol_mode(ProtocolMode::AutoDetect);
    assert_eq!(conn.accept_received(b"hi"), None);
    assert_eq!(conn.get_detected_protocol_mode(), ProtocolMode::AutoDetect);
    assert_eq!(conn.accept_received(b" there"), Some(b" there".to_vec()));
    assert_eq!(conn.get_detected_protocol_mode(), ProtocolMode::NVT);

    conn.set_protocol_mode(ProtocolMode::AutoDetect);
    conn.disconnect();
    assert_eq!(conn.accept_received(&[0x05, 0x42, 0x11, 0x40]), Some(vec![0x05, 0x42, 0x11, 0x40]));
    assert_eq!(conn.get_detected_protocol_mode(), ProtocolMode::TN3270);
}

#[test]
fn connection_state_checks() {
    let mut conn = AS400Connection::new("host".to_string(), 23);
    assert_eq!(conn.check_send(&[1]).unwrap_err(), "Not connected to AS/400 system");
    assert_eq!(conn.check_send(&[]).unwrap_err(), "Cannot send empty data");
    assert!(conn.validate_connection_integrity().is_ok());
    assert!(!conn.is_session_idle_timeout());
    assert!(conn.time_since_last_activity().is_none());
    conn.mark_established();
    assert!(conn.is_connected());
    assert!(conn.is_negotiation_complete());
    assert!(conn.check_send(&[1, 2]).is_ok());
    assert_eq!(conn.check_send(&[0, 0, 1]).unwrap_err(), "Invalid data for transmission");
    assert!(!conn.is_session_idle_timeout());
    assert!(conn.time_since_last_activity().is_some());
    conn.mark_channel_lost();
    assert_eq!(
        conn.validate_connection_integrity().unwrap_err(),
        "Negotiation complete but connection not running"
    );
    conn.set_tls_ca_bundle_path("/etc/ca.pem".to_string());
    assert_eq!(conn.tls_ca_bundle_path().map(|s| s.as_str()), Some("/etc/ca.pem"));
    conn.set_tls_ca_bundle_path(String::new());
    assert!(conn.tls_ca_bundle_path().is_none());
    let mut config = SessionConfig::default();
    config.idle_timeout_secs = 5;
    conn.set_session_config(config);
    assert_eq!(conn.session_config().idle_timeout_secs, 5);
    conn.safe_cleanup();
    assert_eq!(conn.get_host(), "");
    assert!(!conn.is_connected());
    assert!(conn.validate_connection_integrity().is_ok());
}
