//! Validation of key text, address text, descriptors and the error
//! taxonomy's HTTP projection.

use wgadmin::addr::is_valid_ipv4;
use wgadmin::error::{Error, Field};
use wgadmin::key::{is_valid_key_b64, Key};
use wgadmin::peer::{AllowedIpDesc, EndpointDesc, PeerDesc};

const SOME_KEY: &str = "abcdefghijklmnopqrstuvwxyzABCDEFGHIJKLMNOPQ=";

#[test]
fn key_text_accepts_canonical_encodings() {
    assert!(is_valid_key_b64("AAAAAAAAAAAAAAAAAAAAAAAAAAAAAAAAAAAAAAAAAAA="));
    assert!(is_valid_key_b64(SOME_KEY));
    assert!(is_valid_key_b64("0123456789+/abcdefghijklmnopqrstuvwxyzABCDE="));
}

#[test]
fn key_text_rejects_malformed_encodings() {
    // Wrong length.
    assert!(!is_valid_key_b64(""));
    assert!(!is_valid_key_b64("AAAA"));
    assert!(!is_valid_key_b64("AAAAAAAAAAAAAAAAAAAAAAAAAAAAAAAAAAAAAAAAAA="));
    // A character outside the alphabet.
    assert!(!is_valid_key_b64("abcdefghijklmnopqrstuvwxyz ABCDEFGHIJKLMNOP="));
    // Nonzero padding bits in the last value character: 'R' is 17.
    assert!(!is_valid_key_b64("abcdefghijklmnopqrstuvwxyzABCDEFGHIJKLMNOPR="));
    // No trailing '='.
    assert!(!is_valid_key_b64("abcdefghijklmnopqrstuvwxyzABCDEFGHIJKLMNOPQR"));
}

#[test]
fn key_round_trips_through_base64() {
    let k = Key::from_base64(SOME_KEY).unwrap();
    assert_eq!(k.to_base64(), SOME_KEY);
    assert!(Key::from_base64("not a key").is_none());
}

#[test]
fn ipv4_accepts_dotted_quads() {
    assert!(is_valid_ipv4("10.0.0.2"));
    assert!(is_valid_ipv4("0.0.0.0"));
    assert!(is_valid_ipv4("255.255.255.255"));
    assert!(is_valid_ipv4("192.168.1.1"));
    assert!(is_valid_ipv4("1.22.333.4") == false);
}

#[test]
fn ipv4_rejects_malformed_addresses() {
    assert!(!is_valid_ipv4(""));
    assert!(!is_valid_ipv4("1.2.3"));
    assert!(!is_valid_ipv4("1.2.3.4.5"));
    assert!(!is_valid_ipv4("256.0.0.1"));
    assert!(!is_valid_ipv4("01.2.3.4"));
    assert!(!is_valid_ipv4("1..2.3"));
    assert!(!is_valid_ipv4("a.b.c.d"));
    assert!(!is_valid_ipv4("1.2.3.4 "));
    assert!(!is_valid_ipv4("1.2.3.-4"));
}

#[test]
fn allowed_ip_conversion_checks_the_address() {
    let good = AllowedIpDesc { address: "10.0.0.2".to_string(), netmask: 32 };
    let ip = good.to_allowed_ip().unwrap();
    assert_eq!(ip.address, "10.0.0.2");
    assert_eq!(ip.netmask, 32);

    let bad = AllowedIpDesc { address: "10.0.0.256".to_string(), netmask: 32 };
    assert_eq!(bad.to_allowed_ip().unwrap_err(), Error::InvalidField(Field::AllowedIpAddress));
}

#[test]
fn endpoint_conversion_checks_the_address() {
    let good = EndpointDesc { address: "8.8.8.8".to_string(), port: 51820 };
    let ep = good.to_endpoint().unwrap();
    assert_eq!(ep.address, "8.8.8.8");
    assert_eq!(ep.port, 51820);

    let bad = EndpointDesc { address: "host.example".to_string(), port: 51820 };
    assert_eq!(bad.to_endpoint().unwrap_err(), Error::InvalidField(Field::EndpointAddress));
}

#[test]
fn peer_conversion_fails_fast_in_field_order() {
    // Missing public key is reported first, whatever else is wrong.
    let p = PeerDesc {
        public_key: None,
        endpoint: Some(EndpointDesc { address: "bad".to_string(), port: 1 }),
        allowed_ips: vec![AllowedIpDesc { address: "bad".to_string(), netmask: 0 }],
    };
    assert_eq!(p.to_peer().unwrap_err(), Error::MissingField(Field::PeerPublicKey));

    // A malformed key is reported before the endpoint.
    let p = PeerDesc {
        public_key: Some("zzz".to_string()),
        endpoint: Some(EndpointDesc { address: "bad".to_string(), port: 1 }),
        allowed_ips: Vec::new(),
    };
    assert_eq!(p.to_peer().unwrap_err(), Error::InvalidField(Field::PeerPublicKey));

    // A bad endpoint is reported before the allowed IPs.
    let p = PeerDesc {
        public_key: Some(SOME_KEY.to_string()),
        endpoint: Some(EndpointDesc { address: "bad".to_string(), port: 1 }),
        allowed_ips: vec![AllowedIpDesc { address: "bad".to_string(), netmask: 0 }],
    };
    assert_eq!(p.to_peer().unwrap_err(), Error::InvalidField(Field::EndpointAddress));

    // Finally the allowed IPs.
    let p = PeerDesc {
        public_key: Some(SOME_KEY.to_string()),
        endpoint: Some(EndpointDesc { address: "1.2.3.4".to_string(), port: 1 }),
        allowed_ips: vec![
            AllowedIpDesc { address: "10.0.0.1".to_string(), netmask: 32 },
            AllowedIpDesc { address: "bad".to_string(), netmask: 0 },
        ],
    };
    assert_eq!(p.to_peer().unwrap_err(), Error::InvalidField(Field::AllowedIpAddress));
}

#[test]
fn valid_peer_converts_and_reads_back() {
    let desc = PeerDesc {
        public_key: Some(SOME_KEY.to_string()),
        endpoint: Some(EndpointDesc { address: "1.2.3.4".to_string(), port: 51820 }),
        allowed_ips: vec![AllowedIpDesc { address: "10.0.0.1".to_string(), netmask: 32 }],
    };
    let peer = desc.to_peer().unwrap();
    let back = PeerDesc::from_peer(&peer);
    assert_eq!(back, desc);
}

#[test]
fn os_codes_map_to_error_kinds() {
    assert_eq!(Error::from_os_code(Some(1)), Error::PermissionDenied);
    assert_eq!(Error::from_os_code(Some(17)), Error::AlreadyExists);
    assert_eq!(Error::from_os_code(Some(19)), Error::NotFound);
    assert_eq!(Error::from_os_code(Some(2)), Error::InternalServerError);
    assert_eq!(Error::from_os_code(None), Error::InternalServerError);
}

#[test]
fn errors_project_to_http() {
    assert_eq!(Error::InternalServerError.into_http().status, 500);
    assert_eq!(Error::InternalServerError.into_http().body, None);
    assert_eq!(Error::PermissionDenied.into_http().status, 401);
    assert_eq!(Error::PermissionDenied.into_http().body, None);
    assert_eq!(Error::AlreadyExists.into_http().status, 409);
    assert_eq!(Error::AlreadyExists.into_http().body, None);
    assert_eq!(Error::NotFound.into_http().status, 404);
    assert_eq!(Error::NotFound.into_http().body, None);

    let reply = Error::InvalidField(Field::AllowedIpAddress).into_http();
    assert_eq!(reply.status, 400);
    assert_eq!(reply.body.as_deref(), Some("{\"error\":\"invalid field: allowed ip address\"}"));

    let reply = Error::MissingField(Field::DevicePrivateKey).into_http();
    assert_eq!(reply.status, 400);
    assert_eq!(reply.body.as_deref(), Some("{\"error\":\"missing field: device private key\"}"));
}
