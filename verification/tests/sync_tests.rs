use lansync::pairing::{PairConfirmRequest, PairingManager, PairingMethod};
use lansync::persistence::DeviceRegistry;
use lansync::server::{
    confirm_pairing, effective_start_port, hello_response, http_status_for, port_candidates,
    select_host_candidates, server_start_result, should_auto_shutdown, status_response,
};
use lansync::pairing::PairingError;
use lansync::sync_ops::{pull_ops, push_ops, OpRecord};
use lansync::text::u64_to_string;

fn op(hlc: Option<&str>, body: &str) -> OpRecord {
    OpRecord {
        hlc: hlc.map(|h| h.to_string()),
        body: body.to_string(),
    }
}

#[test]
fn test_pull_returns_all_in_order() {
    // Three stored operations with increasing clocks, pulled from zero:
    // all three, in stored order, nothing more behind them.
    let store = vec![op(Some("10"), "a"), op(Some("20"), "b"), op(Some("30"), "c")];
    let out = pull_ops(&store, "0", 100);
    assert_eq!(out.operations.len(), 3);
    assert_eq!(out.operations[0].body, "a");
    assert_eq!(out.operations[1].body, "b");
    assert_eq!(out.operations[2].body, "c");
    assert!(!out.has_more);
    assert_eq!(out.next_hlc.as_deref(), Some("30"));
}

#[test]
fn test_pull_respects_max_ops() {
    let store = vec![op(Some("10"), "a"), op(Some("20"), "b"), op(Some("30"), "c")];
    let out = pull_ops(&store, "0", 1);
    assert_eq!(out.operations.len(), 1);
    assert_eq!(out.operations[0].body, "a");
    assert!(out.has_more);
    assert_eq!(out.next_hlc.as_deref(), Some("10"));
}

#[test]
fn test_pull_filters_by_hlc() {
    let store = vec![op(Some("10"), "a"), op(Some("20"), "b"), op(Some("30"), "c")];
    let out = pull_ops(&store, "20", 100);
    assert_eq!(out.operations.len(), 1);
    assert_eq!(out.operations[0].body, "c");
    assert!(!out.has_more);
    assert_eq!(out.next_hlc.as_deref(), Some("30"));
}

#[test]
fn test_pull_includes_ops_without_hlc() {
    let store = vec![op(None, "legacy"), op(Some("10"), "a")];
    let out = pull_ops(&store, "99", 100);
    assert_eq!(out.operations.len(), 1);
    assert_eq!(out.operations[0].body, "legacy");
    // The last returned operation has no clock, so none is echoed.
    assert!(out.next_hlc.is_none());
}

#[test]
fn test_pull_empty_store() {
    let store: Vec<OpRecord> = Vec::new();
    let out = pull_ops(&store, "0", 100);
    assert!(out.operations.is_empty());
    assert!(!out.has_more);
    assert!(out.next_hlc.is_none());
}

#[test]
fn test_push_appends_batch() {
    // A two-operation batch: accepted = 2, nothing rejected, and the
    // pending queue grows by exactly two, in order.
    let mut queue = vec![op(Some("1"), "old")];
    let batch = vec![op(Some("2"), "x"), op(Some("3"), "y")];
    let out = push_ops(&mut queue, &batch, 1704628920123);
    assert_eq!(out.accepted, 2);
    assert!(out.rejected.is_empty());
    assert_eq!(out.server_hlc, "1704628920123");
    assert_eq!(queue.len(), 3);
    assert_eq!(queue[1].body, "x");
    assert_eq!(queue[2].body, "y");
}

#[test]
fn test_push_empty_batch() {
    let mut queue: Vec<OpRecord> = Vec::new();
    let out = push_ops(&mut queue, &Vec::new(), 7);
    assert_eq!(out.accepted, 0);
    assert!(queue.is_empty());
    assert_eq!(out.server_hlc, "7");
}

#[test]
fn test_effective_start_port() {
    assert_eq!(effective_start_port(0), 4242);
    assert_eq!(effective_start_port(9000), 9000);
}

#[test]
fn test_port_candidates() {
    let ports = port_candidates(4242);
    assert_eq!(ports, vec![4242, 4243, 4244, 4245, 4246, 4247, 4248, 4249, 4250, 4251]);
    let high = port_candidates(65530);
    assert_eq!(high, vec![65530, 65531, 65532, 65533, 65534, 65535, 65535, 65535, 65535, 65535]);
}

#[test]
fn test_should_auto_shutdown() {
    assert!(!should_auto_shutdown(1000, 1000 + 30 * 60, 30));
    assert!(should_auto_shutdown(1000, 1000 + 30 * 60 + 1, 30));
    // Zero disables the watchdog entirely.
    assert!(!should_auto_shutdown(1000, 1000 + 86400, 0));
    // A clock that moved backwards never triggers it.
    assert!(!should_auto_shutdown(5000, 1000, 1));
}

#[test]
fn test_hello_and_status_responses() {
    let id = "desktop-1".to_string();
    let name = "My Desktop".to_string();
    let hello = hello_response(&id, &name);
    assert_eq!(hello.status, "ok");
    assert_eq!(hello.device_id, "desktop-1");
    assert_eq!(hello.device_name, "My Desktop");
    assert_eq!(hello.version, "1.0.0");

    let status = status_response(&id, &name);
    assert_eq!(status.device_id, "desktop-1");
    assert_eq!(status.server_version, "1.0.0");
    assert_eq!(status.capabilities, vec!["pull", "push", "pairing"]);
}

#[test]
fn test_select_host_candidates() {
    let all = vec![
        "127.0.0.1".to_string(),
        "::1".to_string(),
        "192.168.1.5".to_string(),
        "10.0.0.2".to_string(),
        "192.168.1.5".to_string(),
    ];
    let picked = select_host_candidates(Some("192.168.1.5".to_string()), all.clone());
    assert_eq!(picked, vec!["192.168.1.5", "10.0.0.2"]);

    let no_primary = select_host_candidates(None, all);
    assert_eq!(no_primary, vec!["192.168.1.5", "10.0.0.2"]);

    let fallback = select_host_candidates(None, vec!["127.0.0.1".to_string()]);
    assert_eq!(fallback, vec!["127.0.0.1"]);
}

#[test]
fn test_http_status_for_errors() {
    assert_eq!(http_status_for(&PairingError::NotFound), 400);
    assert_eq!(http_status_for(&PairingError::Expired), 400);
    assert_eq!(http_status_for(&PairingError::InvalidCode), 400);
    assert_eq!(http_status_for(&PairingError::RateLimited(5)), 429);
    assert_eq!(http_status_for(&PairingError::TooManyAttempts), 429);
}

#[test]
fn test_server_start_result() {
    let r = server_start_result(4242, Some(30), 1704628920);
    assert_eq!(r.port, 4242);
    assert_eq!(r.expires_at.as_deref(), Some("2024-01-07T12:32:00+00:00"));

    let none = server_start_result(4242, None, 1704628920);
    assert!(none.expires_at.is_none());
}

#[test]
fn test_confirm_pairing_persists_device() {
    let now: u64 = 1704628920;
    let mut manager = PairingManager::new("desktop-1".to_string(), "Desktop".to_string());
    let mut registry = DeviceRegistry::new();
    let start = manager.create_session(vec!["192.168.1.2".to_string()], 4242, now);

    let req = PairConfirmRequest {
        pairing_id: Some(start.pairing_id.clone()),
        method: PairingMethod::Code,
        code: Some(start.code.clone()),
        nonce: None,
        device_name: "Phone".to_string(),
        device_id: "mobile-1".to_string(),
    };
    let resp = confirm_pairing(
        &mut manager,
        &mut registry,
        &req,
        now + 5,
        "2024-01-07T12:02:05+00:00".to_string(),
    )
    .expect("pairing should succeed");
    assert_eq!(resp.desktop_device_id, "desktop-1");

    // The minted token is now the device's sync credential.
    assert!(registry.validate_token("mobile-1", &resp.session_token));
    let stored = registry.get_device("mobile-1").unwrap();
    assert_eq!(stored.name, "Phone");
    assert_eq!(stored.paired_at, "2024-01-07T12:02:05+00:00");

    // Revoking the device invalidates the token.
    assert!(registry.revoke_device("mobile-1"));
    assert!(!registry.validate_token("mobile-1", &resp.session_token));
}

#[test]
fn test_confirm_pairing_maps_errors() {
    let now: u64 = 1704628920;
    let mut manager = PairingManager::new("desktop-1".to_string(), "Desktop".to_string());
    let mut registry = DeviceRegistry::new();
    let req = PairConfirmRequest {
        pairing_id: Some("no-session".to_string()),
        method: PairingMethod::Code,
        code: Some("123456".to_string()),
        nonce: None,
        device_name: "Phone".to_string(),
        device_id: "mobile-1".to_string(),
    };
    let (code, err) = confirm_pairing(
        &mut manager,
        &mut registry,
        &req,
        now,
        "2024-01-07T12:00:00+00:00".to_string(),
    )
    .unwrap_err();
    assert_eq!(code, 400);
    assert_eq!(err.error, "invalid_pairing_id");
    assert!(registry.load().is_empty());
}

#[test]
fn test_u64_to_string_exact() {
    assert_eq!(u64_to_string(0), "0");
    assert_eq!(u64_to_string(7), "7");
    assert_eq!(u64_to_string(12345), "12345");
    assert_eq!(u64_to_string(u64::MAX), "18446744073709551615");
}
