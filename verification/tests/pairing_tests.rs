use lansync::pairing::{
    PairConfirmRequest, PairingError, PairingManager, PairingMethod, PairingStatus,
};

const NOW: u64 = 1704628920;

fn manager() -> PairingManager {
    PairingManager::new("desktop-1".to_string(), "My Desktop".to_string())
}

fn hosts() -> Vec<String> {
    vec!["192.168.1.100".to_string()]
}

fn code_request(pairing_id: &str, code: &str) -> PairConfirmRequest {
    PairConfirmRequest {
        pairing_id: Some(pairing_id.to_string()),
        method: PairingMethod::Code,
        code: Some(code.to_string()),
        nonce: None,
        device_name: "Phone".to_string(),
        device_id: "mobile-1".to_string(),
    }
}

#[test]
fn test_code_generation_format() {
    for _ in 0..100 {
        let code = PairingManager::generate_code();
        assert_eq!(code.len(), 6, "Code should be 6 digits");
        assert!(
            code.chars().all(|c| c.is_ascii_digit()),
            "Code should only contain digits"
        );
    }
}

#[test]
fn test_code_generation_allows_leading_zeros() {
    // Run many iterations to increase chance of getting leading zeros
    let mut has_leading_zero = false;
    for _ in 0..10000 {
        let code = PairingManager::generate_code();
        if code.starts_with('0') {
            has_leading_zero = true;
            break;
        }
    }
    assert!(has_leading_zero, "Should allow leading zeros");
}

#[test]
fn test_code_hashing_and_verification() {
    let code = "123456";
    let hash = PairingManager::hash_code(code);

    assert!(PairingManager::verify_code(&hash, "123456"));
    assert!(!PairingManager::verify_code(&hash, "654321"));
    assert!(!PairingManager::verify_code(&hash, "12345"));
    assert!(!PairingManager::verify_code(&hash, "1234567"));
}

#[test]
fn test_nonce_generation() {
    let nonce1 = PairingManager::generate_nonce();
    let nonce2 = PairingManager::generate_nonce();

    assert!(!nonce1.is_empty());
    assert_ne!(nonce1, nonce2, "Nonces should be unique");
}

#[test]
fn test_token_generation() {
    let token1 = PairingManager::generate_token();
    let token2 = PairingManager::generate_token();

    assert!(!token1.is_empty());
    assert_ne!(token1, token2, "Tokens should be unique");
    // Token should be 43 chars (32 bytes base64 URL-safe no padding)
    assert_eq!(token1.len(), 43);
}

#[test]
fn test_qr_payload_format() {
    let payload = PairingManager::build_qr_payload(
        "test-id",
        &["192.168.1.100".to_string(), "10.0.0.5".to_string()],
        8443,
        "test-nonce",
        1704628920,
    );

    assert!(payload.starts_with("mini-crm://pair?v=1"));
    assert!(payload.contains("hosts=192.168.1.100%2C10.0.0.5"));
    assert!(payload.contains("port=8443"));
    assert!(payload.contains("pairingId=test-id"));
    assert!(payload.contains("nonce=test-nonce"));
    assert!(payload.contains("exp=1704628920"));
}

#[test]
fn test_code_distribution_is_uniform() {
    // Across a large sample every digit position is near-uniform and a
    // leading zero occurs at about the expected ten percent rate.
    let samples = 10000;
    let mut position_digit_counts = [[0u32; 10]; 6];
    let mut leading_zero = 0u32;
    for _ in 0..samples {
        let code = PairingManager::generate_code();
        let digits: Vec<u32> = code.chars().map(|c| c.to_digit(10).unwrap()).collect();
        assert_eq!(digits.len(), 6);
        for (pos, d) in digits.iter().enumerate() {
            position_digit_counts[pos][*d as usize] += 1;
        }
        if digits[0] == 0 {
            leading_zero += 1;
        }
    }
    // Expected 1000 per digit per position; allow a wide statistical margin.
    for pos in 0..6 {
        for d in 0..10 {
            let count = position_digit_counts[pos][d];
            assert!(
                (700..=1300).contains(&count),
                "digit {} at position {} occurred {} times in {}",
                d,
                pos,
                count,
                samples
            );
        }
    }
    assert!((700..=1300).contains(&leading_zero));
}

#[test]
fn test_create_session_twice_leaves_one_pending() {
    let mut m = manager();
    let first = m.create_session(hosts(), 4242, NOW);
    let second = m.create_session(hosts(), 4242, NOW + 5);

    let pending: Vec<_> = m
        .sessions
        .iter()
        .filter(|s| s.status == PairingStatus::Pending)
        .collect();
    assert_eq!(pending.len(), 1);
    assert_eq!(pending[0].id, second.pairing_id);
    assert_ne!(first.pairing_id, second.pairing_id);
}

#[test]
fn test_create_session_response_shape() {
    let mut m = manager();
    let resp = m.create_session(hosts(), 4242, NOW);
    assert_eq!(resp.code.len(), 6);
    assert!(resp.code.chars().all(|c| c.is_ascii_digit()));
    assert_eq!(resp.pairing_id.len(), 36);
    assert_eq!(resp.port, 4242);
    assert_eq!(resp.host_candidates, hosts());
    assert!(resp.qr_payload.starts_with("mini-crm://pair?v=1&hosts="));
    assert!(resp.qr_payload.ends_with(&format!("exp={}", NOW + 120)));
    // Two minutes of lifetime, rendered as RFC 3339.
    assert_eq!(resp.expires_at, "2024-01-07T12:04:00+00:00");
}

#[test]
fn test_verify_correct_code_then_already_paired() {
    let mut m = manager();
    let resp = m.create_session(hosts(), 4242, NOW);
    let req = code_request(&resp.pairing_id, &resp.code);

    let ok = m.verify(&req, NOW + 10).expect("correct code should verify");
    assert_eq!(ok.desktop_device_id, "desktop-1");
    assert_eq!(ok.desktop_name, "My Desktop");
    assert_eq!(ok.paired_device_id, "mobile-1");
    assert_eq!(ok.token.len(), 43);
    assert_eq!(m.sessions[0].status, PairingStatus::Verified);
    assert_eq!(m.sessions[0].paired_device_id.as_deref(), Some("mobile-1"));

    let again = m.verify(&req, NOW + 20);
    assert_eq!(again.unwrap_err(), PairingError::AlreadyPaired);
}

#[test]
fn test_verify_by_qr_nonce() {
    let mut m = manager();
    let resp = m.create_session(hosts(), 4242, NOW);
    let nonce = m.sessions[0].nonce.clone();
    let req = PairConfirmRequest {
        pairing_id: Some(resp.pairing_id.clone()),
        method: PairingMethod::QR,
        code: None,
        nonce: Some(nonce),
        device_name: "Phone".to_string(),
        device_id: "mobile-1".to_string(),
    };
    assert!(m.verify(&req, NOW + 1).is_ok());
    assert_eq!(m.sessions[0].status, PairingStatus::Verified);
}

#[test]
fn test_verify_wrong_nonce_fails() {
    let mut m = manager();
    let resp = m.create_session(hosts(), 4242, NOW);
    let req = PairConfirmRequest {
        pairing_id: Some(resp.pairing_id.clone()),
        method: PairingMethod::QR,
        code: None,
        nonce: Some("not-the-nonce".to_string()),
        device_name: "Phone".to_string(),
        device_id: "mobile-1".to_string(),
    };
    assert_eq!(m.verify(&req, NOW + 1).unwrap_err(), PairingError::InvalidNonce);
}

#[test]
fn test_missing_code_consumes_attempt() {
    let mut m = manager();
    let resp = m.create_session(hosts(), 4242, NOW);
    let req = PairConfirmRequest {
        pairing_id: Some(resp.pairing_id.clone()),
        method: PairingMethod::Code,
        code: None,
        nonce: None,
        device_name: "Phone".to_string(),
        device_id: "mobile-1".to_string(),
    };
    assert_eq!(m.verify(&req, NOW + 1).unwrap_err(), PairingError::MissingCode);
    assert_eq!(m.sessions[0].attempts, 1);
}

#[test]
fn test_find_session_by_code() {
    let mut m = manager();
    let resp = m.create_session(hosts(), 4242, NOW);
    assert_eq!(m.find_session_by_code(&resp.code), Some(resp.pairing_id.clone()));
    // A code lookup must also work without an explicit pairing id.
    let req = PairConfirmRequest {
        pairing_id: None,
        method: PairingMethod::Code,
        code: Some(resp.code.clone()),
        nonce: None,
        device_name: "Phone".to_string(),
        device_id: "mobile-1".to_string(),
    };
    assert!(m.verify(&req, NOW + 1).is_ok());
}

fn wrong_code(code: &str) -> String {
    if code == "000000" {
        "000001".to_string()
    } else {
        "000000".to_string()
    }
}

#[test]
fn test_rate_limit_after_third_attempt() {
    let mut m = manager();
    let resp = m.create_session(hosts(), 4242, NOW);
    let bad = code_request(&resp.pairing_id, &wrong_code(&resp.code));

    // Three failed attempts, the last at NOW + 3.
    for i in 1..=3u64 {
        assert_eq!(m.verify(&bad, NOW + i).unwrap_err(), PairingError::InvalidCode);
    }
    assert_eq!(m.sessions[0].attempts, 3);

    // A fourth attempt inside the 30-second cooldown is rejected without
    // consuming the session.
    let err = m.verify(&bad, NOW + 10).unwrap_err();
    match err {
        PairingError::RateLimited(retry) => {
            assert_eq!(retry, 23); // 30 - (NOW+10 - (NOW+3))
        }
        other => panic!("expected RateLimited, got {:?}", other),
    }
    assert_eq!(m.sessions[0].attempts, 3, "cooldown must not consume the session");
    assert_eq!(m.sessions[0].status, PairingStatus::Pending);

    // After the cooldown a wrong attempt increments normally.
    let err = m.verify(&bad, NOW + 34).unwrap_err();
    assert_eq!(err, PairingError::InvalidCode);
    assert_eq!(m.sessions[0].attempts, 4);
}

#[test]
fn test_five_failures_are_terminal() {
    let mut m = manager();
    let resp = m.create_session(hosts(), 4242, NOW);
    let bad = code_request(&resp.pairing_id, &wrong_code(&resp.code));
    let good = code_request(&resp.pairing_id, &resp.code);

    for i in 0..3u64 {
        assert_eq!(m.verify(&bad, NOW + i).unwrap_err(), PairingError::InvalidCode);
    }
    // Wait out the cooldown between later attempts.
    assert_eq!(m.verify(&bad, NOW + 40).unwrap_err(), PairingError::InvalidCode);
    assert_eq!(
        m.verify(&bad, NOW + 80).unwrap_err(),
        PairingError::TooManyAttempts
    );
    assert_eq!(m.sessions[0].status, PairingStatus::Failed);
    assert_eq!(m.sessions[0].attempts, 5);

    // Even the correct code is rejected now.
    assert_eq!(
        m.verify(&good, NOW + 119).unwrap_err(),
        PairingError::TooManyAttempts
    );
    assert_eq!(m.sessions[0].status, PairingStatus::Failed);
}

#[test]
fn test_expired_session_rejected_and_marked() {
    let mut m = manager();
    let resp = m.create_session(hosts(), 4242, NOW);
    let req = code_request(&resp.pairing_id, &resp.code);
    assert_eq!(m.verify(&req, NOW + 121).unwrap_err(), PairingError::Expired);
    assert_eq!(m.sessions[0].status, PairingStatus::Expired);
}

#[test]
fn test_get_status_projects_expiry_lazily() {
    let mut m = manager();
    let resp = m.create_session(hosts(), 4242, NOW);

    let live = m.get_status(&resp.pairing_id, NOW + 20).unwrap();
    assert_eq!(live.status, PairingStatus::Pending);
    assert_eq!(live.remaining_seconds, 100);
    assert_eq!(live.attempts_remaining, 5);

    let stale = m.get_status(&resp.pairing_id, NOW + 200).unwrap();
    assert_eq!(stale.status, PairingStatus::Expired);
    assert_eq!(stale.remaining_seconds, 0);
    // The stored record is projected, not mutated.
    assert_eq!(m.sessions[0].status, PairingStatus::Pending);

    assert_eq!(
        m.get_status("no-such-id", NOW).unwrap_err(),
        PairingError::NotFound
    );
}

#[test]
fn test_cancel_removes_session() {
    let mut m = manager();
    let resp = m.create_session(hosts(), 4242, NOW);
    m.cancel(&resp.pairing_id);
    assert!(m.sessions.is_empty());
}

#[test]
fn test_cleanup_expired_sessions() {
    let mut m = manager();
    let _first = m.create_session(hosts(), 4242, NOW);
    // Pending and unexpired: kept.
    m.cleanup_expired(NOW + 60);
    assert_eq!(m.sessions.len(), 1);
    // Pending and expired: swept.
    m.cleanup_expired(NOW + 121);
    assert!(m.sessions.is_empty());

    // A verified session survives five minutes past expiry, then goes.
    let resp = m.create_session(hosts(), 4242, NOW);
    let req = code_request(&resp.pairing_id, &resp.code);
    m.verify(&req, NOW + 1).unwrap();
    m.cleanup_expired(NOW + 120 + 299);
    assert_eq!(m.sessions.len(), 1);
    m.cleanup_expired(NOW + 120 + 300);
    assert!(m.sessions.is_empty());
}

#[test]
fn test_get_paired_device() {
    let mut m = manager();
    let resp = m.create_session(hosts(), 4242, NOW);
    assert!(m.get_paired_device(&resp.pairing_id).is_none());
    let req = code_request(&resp.pairing_id, &resp.code);
    m.verify(&req, NOW + 1).unwrap();
    let (id, name) = m.get_paired_device(&resp.pairing_id).unwrap();
    assert_eq!(id, "mobile-1");
    assert_eq!(name, "Phone");
}

#[test]
fn test_verify_http_maps_errors_to_public_labels() {
    let mut m = manager();
    let resp = m.create_session(hosts(), 4242, NOW);
    let bad = code_request(&resp.pairing_id, &wrong_code(&resp.code));

    let err = m.verify_http(&bad, NOW + 1).unwrap_err();
    assert_eq!(err.error, "wrong_code");

    let missing = code_request("not-a-session", "000000");
    let err = m.verify_http(&missing, NOW + 1).unwrap_err();
    assert_eq!(err.error, "invalid_pairing_id");

    let good = code_request(&resp.pairing_id, &resp.code);
    let ok = m.verify_http(&good, NOW + 2).unwrap();
    assert_eq!(ok.desktop_device_id, "desktop-1");
    assert_eq!(ok.session_token.len(), 43);
    assert!(ok.shared_secret.is_none());

    let err = m.verify_http(&good, NOW + 3).unwrap_err();
    assert_eq!(err.error, "invalid_pairing_id");
}

#[test]
fn test_error_codes_and_messages() {
    assert_eq!(PairingError::not_found().code(), "NOT_FOUND");
    assert_eq!(PairingError::expired().code(), "EXPIRED");
    assert_eq!(PairingError::invalid_code().code(), "INVALID_CODE");
    assert_eq!(PairingError::invalid_nonce().code(), "INVALID_NONCE");
    assert_eq!(PairingError::too_many_attempts().code(), "TOO_MANY_ATTEMPTS");
    assert_eq!(PairingError::rate_limited(7).code(), "RATE_LIMITED");
    assert_eq!(PairingError::already_paired().code(), "ALREADY_PAIRED");
    assert_eq!(PairingError::missing_code().code(), "MISSING_CODE");
    assert_eq!(PairingError::missing_nonce().code(), "MISSING_NONCE");

    assert_eq!(
        PairingError::rate_limited(7).message(),
        "Rate limited. Try again in 7 seconds"
    );
    assert_eq!(PairingError::rate_limited(7).retry_after(), Some(7));
    assert_eq!(PairingError::expired().retry_after(), None);

    assert_eq!(PairingError::expired().public_label(), "expired");
    assert_eq!(PairingError::invalid_code().public_label(), "wrong_code");
    assert_eq!(PairingError::invalid_nonce().public_label(), "wrong_code");
    assert_eq!(PairingError::rate_limited(3).public_label(), "rate_limited");
    assert_eq!(PairingError::too_many_attempts().public_label(), "rate_limited");
    assert_eq!(PairingError::not_found().public_label(), "invalid_pairing_id");
    assert_eq!(PairingError::missing_code().public_label(), "invalid_pairing_id");
}

#[test]
fn test_constant_time_eq() {
    assert!(PairingManager::constant_time_eq(b"abc", b"abc"));
    assert!(!PairingManager::constant_time_eq(b"abc", b"abd"));
    assert!(!PairingManager::constant_time_eq(b"abc", b"abcd"));
    assert!(PairingManager::constant_time_eq(b"", b""));
}
