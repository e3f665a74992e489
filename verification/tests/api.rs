//! End-to-end scenarios through the store and the handlers.

use wgadmin::device::{get, list, post, DeviceRequest, DeviceStore};
use wgadmin::error::{Error, Field};
use wgadmin::peer::{AllowedIpDesc, PeerDesc};

const GENERATED_KEY: &str = "AAAAAAAAAAAAAAAAAAAAAAAAAAAAAAAAAAAAAAAAAAA=";
const SOME_KEY: &str = "abcdefghijklmnopqrstuvwxyzABCDEFGHIJKLMNOPQ=";

fn empty_request() -> DeviceRequest {
    DeviceRequest { listen_port: None, private_key: None, peers: Vec::new() }
}

#[test]
fn scenario_a_create_fresh_device() {
    let mut store = DeviceStore::new();
    let echo = post(&mut store, "wg0", empty_request()).unwrap();
    assert_eq!(echo, empty_request());

    let resp = get(&store, "wg0").unwrap();
    assert_eq!(resp.name, "wg0");
    assert_eq!(resp.listen_port, None);
    assert_eq!(resp.public_key, Some(GENERATED_KEY.to_string()));
    assert!(resp.peers.is_empty());
}

#[test]
fn scenario_b_update_in_place() {
    let mut store = DeviceStore::new();
    post(&mut store, "wg0", empty_request()).unwrap();

    let req = DeviceRequest {
        listen_port: Some(51820),
        private_key: None,
        peers: vec![PeerDesc {
            public_key: Some(SOME_KEY.to_string()),
            endpoint: None,
            allowed_ips: vec![AllowedIpDesc { address: "10.0.0.2".to_string(), netmask: 32 }],
        }],
    };
    let echo = post(&mut store, "wg0", req.clone()).unwrap();
    assert_eq!(echo, req);

    let resp = get(&store, "wg0").unwrap();
    assert_eq!(resp.listen_port, Some(51820));
    assert_eq!(resp.public_key, Some(GENERATED_KEY.to_string()));
    assert_eq!(resp.peers.len(), 1);
    assert_eq!(resp.peers[0].public_key, Some(SOME_KEY.to_string()));
    assert_eq!(resp.peers[0].allowed_ips.len(), 1);
    assert_eq!(resp.peers[0].allowed_ips[0].address, "10.0.0.2");
    assert_eq!(resp.peers[0].allowed_ips[0].netmask, 32);
    // A single device exists: the POST updated, it did not duplicate.
    assert_eq!(list(&store).len(), 1);
}

#[test]
fn scenario_c_missing_public_key_rejected() {
    let mut store = DeviceStore::new();
    post(&mut store, "wg0", empty_request()).unwrap();
    let before = get(&store, "wg0").unwrap();

    let bad = DeviceRequest {
        listen_port: None,
        private_key: None,
        peers: vec![PeerDesc { public_key: None, endpoint: None, allowed_ips: Vec::new() }],
    };
    let err = post(&mut store, "wg0", bad).unwrap_err();
    assert_eq!(err, Error::MissingField(Field::PeerPublicKey));

    let reply = err.into_http();
    assert_eq!(reply.status, 400);
    assert_eq!(reply.body.as_deref(), Some("{\"error\":\"missing field: peer public key\"}"));

    // Device state is unchanged from before the call.
    assert_eq!(get(&store, "wg0").unwrap(), before);
}

#[test]
fn scenario_d_get_absent_device() {
    let store = DeviceStore::new();
    let err = get(&store, "doesnotexist").unwrap_err();
    assert_eq!(err, Error::NotFound);

    let reply = err.into_http();
    assert_eq!(reply.status, 404);
    assert_eq!(reply.body, None);
}

#[test]
fn post_is_idempotent() {
    let req = DeviceRequest {
        listen_port: Some(7),
        private_key: None,
        peers: vec![PeerDesc {
            public_key: Some(SOME_KEY.to_string()),
            endpoint: None,
            allowed_ips: vec![AllowedIpDesc { address: "192.168.1.1".to_string(), netmask: 24 }],
        }],
    };
    let mut store = DeviceStore::new();
    post(&mut store, "wg0", req.clone()).unwrap();
    let first = get(&store, "wg0").unwrap();
    post(&mut store, "wg0", req).unwrap();
    let second = get(&store, "wg0").unwrap();
    assert_eq!(first, second);
    assert_eq!(list(&store).len(), 1);
}

#[test]
fn response_request_round_trip_is_stable() {
    let mut store = DeviceStore::new();
    let req = DeviceRequest {
        listen_port: Some(51820),
        private_key: Some(SOME_KEY.to_string()),
        peers: vec![PeerDesc {
            public_key: Some(GENERATED_KEY.to_string()),
            endpoint: None,
            allowed_ips: vec![AllowedIpDesc { address: "10.1.2.3".to_string(), netmask: 16 }],
        }],
    };
    post(&mut store, "wg0", req).unwrap();
    let resp = get(&store, "wg0").unwrap();

    // Re-wrap the response as a request (a private key cannot be re-applied).
    let rewrapped = DeviceRequest {
        listen_port: resp.listen_port,
        private_key: None,
        peers: resp.peers.clone(),
    };
    post(&mut store, "wg0", rewrapped).unwrap();
    let resp2 = get(&store, "wg0").unwrap();
    assert_eq!(resp2.listen_port, resp.listen_port);
    assert_eq!(resp2.public_key, resp.public_key);
    assert_eq!(resp2.peers, resp.peers);
}

#[test]
fn create_with_private_key_derives_public_key() {
    let mut store = DeviceStore::new();
    let req = DeviceRequest {
        listen_port: None,
        private_key: Some(SOME_KEY.to_string()),
        peers: Vec::new(),
    };
    post(&mut store, "wg0", req).unwrap();
    let resp = get(&store, "wg0").unwrap();
    // The in-memory store models key derivation as identity.
    assert_eq!(resp.public_key, Some(SOME_KEY.to_string()));
}

#[test]
fn create_with_invalid_private_key_rejected() {
    let mut store = DeviceStore::new();
    let req = DeviceRequest {
        listen_port: None,
        private_key: Some("not base64".to_string()),
        peers: Vec::new(),
    };
    let err = post(&mut store, "wg0", req).unwrap_err();
    assert_eq!(err, Error::InvalidField(Field::DevicePrivateKey));
    assert!(get(&store, "wg0").is_err());
}

#[test]
fn update_ignores_private_key() {
    // No code path re-applies a private key to an existing device, so an
    // unparsable one in an update request is never looked at.
    let mut store = DeviceStore::new();
    post(&mut store, "wg0", empty_request()).unwrap();
    let req = DeviceRequest {
        listen_port: Some(1),
        private_key: Some("not base64".to_string()),
        peers: Vec::new(),
    };
    post(&mut store, "wg0", req).unwrap();
    let resp = get(&store, "wg0").unwrap();
    assert_eq!(resp.listen_port, Some(1));
    assert_eq!(resp.public_key, Some(GENERATED_KEY.to_string()));
}

#[test]
fn failed_create_persists_nothing() {
    let mut store = DeviceStore::new();
    let req = DeviceRequest {
        listen_port: None,
        private_key: None,
        peers: vec![PeerDesc {
            public_key: Some(SOME_KEY.to_string()),
            endpoint: None,
            allowed_ips: vec![AllowedIpDesc { address: "nonsense".to_string(), netmask: 0 }],
        }],
    };
    let err = post(&mut store, "wg0", req).unwrap_err();
    assert_eq!(err, Error::InvalidField(Field::AllowedIpAddress));
    assert_eq!(get(&store, "wg0").unwrap_err(), Error::NotFound);
    assert!(list(&store).is_empty());
}

#[test]
fn list_reports_devices_in_store_order() {
    let mut store = DeviceStore::new();
    assert!(list(&store).is_empty());
    post(&mut store, "wg0", empty_request()).unwrap();
    post(&mut store, "wg1", empty_request()).unwrap();
    let all = list(&store);
    assert_eq!(all.len(), 2);
    assert_eq!(all[0].name, "wg0");
    assert_eq!(all[1].name, "wg1");
}
