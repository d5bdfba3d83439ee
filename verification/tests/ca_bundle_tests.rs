use tn5250r::ca_bundle::{parse_ca_bundle, pem_certificate_bodies};

const TWO_CERTS: &str = "junk before\n-----BEGIN CERTIFICATE-----\r\nAQ\r\n\r\nID\r\n-----END CERTIFICATE-----\nbetween\n-----BEGIN CERTIFICATE-----\nBAUG\n-----END CERTIFICATE-----\n";

#[test]
fn test_ca_bundle_pem_certificates() {
    assert_eq!(pem_certificate_bodies(TWO_CERTS.as_bytes()), Ok(vec!["AQID".to_string(), "BAUG".to_string()]));
    assert_eq!(parse_ca_bundle(TWO_CERTS.as_bytes()), Ok(vec![vec![1u8, 2, 3], vec![4u8, 5, 6]]));
}

#[test]
fn test_ca_bundle_skips_undecodable_certificates() {
    let text = "-----BEGIN CERTIFICATE-----\nAQI\n-----END CERTIFICATE-----\n-----BEGIN CERTIFICATE-----\nBAUG\n-----END CERTIFICATE-----\n";
    assert_eq!(parse_ca_bundle(text.as_bytes()), Ok(vec![vec![4u8, 5, 6]]));
    let only_bad = "-----BEGIN CERTIFICATE-----\nAQI\n-----END CERTIFICATE-----\n";
    assert_eq!(parse_ca_bundle(only_bad.as_bytes()), Err("No valid certificates found in PEM bundle".to_string()));
}

#[test]
fn test_ca_bundle_errors() {
    let bad_char = "-----BEGIN CERTIFICATE-----\nAQ@D\n-----END CERTIFICATE-----\n";
    assert_eq!(parse_ca_bundle(bad_char.as_bytes()), Err("Invalid base64 characters in certificate".to_string()));
    assert_eq!(parse_ca_bundle(b"no markers here"), Err("Invalid PEM certificate format".to_string()));
    assert_eq!(
        pem_certificate_bodies(&[0x30, 0x82, 0x01]),
        Err("CA bundle contains invalid UTF-8".to_string())
    );
    let big = vec![b'A'; 10_000_001];
    assert_eq!(parse_ca_bundle(&big), Err("Certificate bundle too large - possible DoS attempt".to_string()));
}

#[test]
fn test_ca_bundle_der_certificate() {
    let der = vec![0x30u8, 0x82, 0x01, 0x0A, 0xFF];
    assert_eq!(parse_ca_bundle(&der), Ok(vec![der.clone()]));
}

#[test]
fn test_ca_bundle_begin_without_end() {
    let text = "-----BEGIN CERTIFICATE-----\nBAUG\n-----END CERTIFICATE-----\n-----BEGIN CERTIFICATE-----\nAQID\n";
    assert_eq!(parse_ca_bundle(text.as_bytes()), Ok(vec![vec![4u8, 5, 6]]));
}
