use lansync::discovery::{
    add_peer_dedup, advertisement_properties, parse_service_record, service_host,
    service_instance_name, DiscoveredPeer, ResolvedService, ServiceProp,
};

fn prop(key: &str, value: &str) -> ServiceProp {
    ServiceProp {
        key: key.to_string(),
        value: value.to_string(),
    }
}

fn full_service() -> ResolvedService {
    ResolvedService {
        properties: vec![
            prop("device_id", "peer-1"),
            prop("name", "Office Desktop"),
            prop("type", "desktop"),
            prop("pk_fp", "fp-123"),
            prop("pairing", "false"),
        ],
        addresses: vec!["192.168.1.9".to_string()],
        port: 4242,
    }
}

#[test]
fn test_parse_full_record() {
    let peer = parse_service_record(&full_service()).unwrap();
    assert_eq!(peer.device_id, "peer-1");
    assert_eq!(peer.name, "Office Desktop");
    assert_eq!(peer.device_type, "desktop");
    assert_eq!(peer.address, "192.168.1.9");
    assert_eq!(peer.port, 4242);
    assert_eq!(peer.public_key_fingerprint, "fp-123");
    assert!(!peer.requires_pairing);
}

#[test]
fn test_parse_defaults_for_missing_properties() {
    let svc = ResolvedService {
        properties: vec![prop("device_id", "peer-2")],
        addresses: vec!["10.0.0.7".to_string()],
        port: 4243,
    };
    let peer = parse_service_record(&svc).unwrap();
    assert_eq!(peer.name, "Unknown Device");
    assert_eq!(peer.device_type, "unknown");
    assert_eq!(peer.public_key_fingerprint, "");
    assert!(peer.requires_pairing, "pairing is assumed when unstated");
}

#[test]
fn test_parse_requires_device_id() {
    let svc = ResolvedService {
        properties: vec![prop("name", "Anonymous")],
        addresses: vec!["10.0.0.7".to_string()],
        port: 4242,
    };
    assert!(parse_service_record(&svc).is_none());
}

#[test]
fn test_parse_requires_address() {
    let mut svc = full_service();
    svc.addresses.clear();
    assert!(parse_service_record(&svc).is_none());
}

#[test]
fn test_dedup_by_device_id() {
    let mut peers: Vec<DiscoveredPeer> = Vec::new();
    let first = parse_service_record(&full_service()).unwrap();
    let mut again = full_service();
    again.addresses = vec!["192.168.1.10".to_string()];
    let second = parse_service_record(&again).unwrap();

    add_peer_dedup(&mut peers, first);
    add_peer_dedup(&mut peers, second);
    assert_eq!(peers.len(), 1);
    assert_eq!(peers[0].address, "192.168.1.9");

    let mut other = full_service();
    other.properties[0] = prop("device_id", "peer-2");
    let third = parse_service_record(&other).unwrap();
    add_peer_dedup(&mut peers, third);
    assert_eq!(peers.len(), 2);
}

#[test]
fn test_service_instance_name() {
    let name = service_instance_name("0a1b2c3d4e5f");
    assert_eq!(name, "mutaba3a-0a1b2c3d");
}

#[test]
fn test_service_host() {
    assert_eq!(service_host(Some("office-pc".to_string())), "office-pc.local.");
    assert_eq!(service_host(None), "localhost.local.");
}

#[test]
fn test_advertisement_properties() {
    let props = advertisement_properties(
        &"desktop-1".to_string(),
        &"My Desktop".to_string(),
        &"".to_string(),
    );
    assert_eq!(props.len(), 5);
    assert_eq!(props[0].key, "device_id");
    assert_eq!(props[0].value, "desktop-1");
    assert_eq!(props[1].key, "name");
    assert_eq!(props[1].value, "My Desktop");
    assert_eq!(props[2].key, "type");
    assert_eq!(props[2].value, "desktop");
    assert_eq!(props[3].key, "pk_fp");
    assert_eq!(props[3].value, "");
    assert_eq!(props[4].key, "pairing");
    assert_eq!(props[4].value, "false");

    // An advertisement parses back into a peer that does not require
    // pairing.
    let svc = ResolvedService {
        properties: props,
        addresses: vec!["192.168.1.2".to_string()],
        port: 4242,
    };
    let peer = parse_service_record(&svc).unwrap();
    assert_eq!(peer.device_id, "desktop-1");
    assert!(!peer.requires_pairing);
}
