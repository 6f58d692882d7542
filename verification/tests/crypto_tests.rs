use lansync::crypto::{decrypt, encrypt, CryptoError, SingleNonce};

#[test]
fn test_encrypt_decrypt_roundtrip() {
    let data = b"Hello, world! This is a test of the encryption system.";
    let passphrase = "test-passphrase-123";

    let encrypted = encrypt(data, passphrase).expect("Encryption failed");
    let decrypted = decrypt(&encrypted, passphrase).expect("Decryption failed");

    assert_eq!(data.as_slice(), decrypted.as_slice());
}

#[test]
fn test_wrong_passphrase_fails() {
    let data = b"Secret data";
    let passphrase = "correct-passphrase";
    let wrong_passphrase = "wrong-passphrase";

    let encrypted = encrypt(data, passphrase).expect("Encryption failed");
    let result = decrypt(&encrypted, wrong_passphrase);

    assert!(result.is_err());
}

#[test]
fn test_corrupted_ciphertext_fails() {
    let data = b"payload that must not survive tampering";
    let passphrase = "a passphrase";

    let mut encrypted = encrypt(data, passphrase).expect("Encryption failed");

    // Flip one character of the base64 ciphertext body.
    let mut chars: Vec<char> = encrypted.ciphertext.chars().collect();
    let idx = chars.len() / 2;
    chars[idx] = if chars[idx] == 'A' { 'B' } else { 'A' };
    encrypted.ciphertext = chars.into_iter().collect();

    let result = decrypt(&encrypted, passphrase);
    assert!(result.is_err());
}

#[test]
fn test_empty_plaintext_roundtrip() {
    let data: &[u8] = b"";
    let passphrase = "pw";

    let encrypted = encrypt(data, passphrase).expect("Encryption failed");
    let decrypted = decrypt(&encrypted, passphrase).expect("Decryption failed");
    assert!(decrypted.is_empty());
}

#[test]
fn test_bundle_fields_are_base64() {
    let encrypted = encrypt(b"abc", "pw").expect("Encryption failed");
    let b64 = |s: &str| {
        s.chars().all(|c| c.is_ascii_alphanumeric() || c == '+' || c == '/' || c == '=')
    };
    assert!(b64(&encrypted.salt));
    assert!(b64(&encrypted.nonce));
    assert!(b64(&encrypted.ciphertext));
    // 16-byte salt, 12-byte nonce, 3-byte plaintext plus 16-byte tag.
    assert_eq!(encrypted.salt.len(), 24);
    assert_eq!(encrypted.nonce.len(), 16);
    assert_eq!(encrypted.ciphertext.len(), 28);
}

#[test]
fn test_invalid_bundle_format_rejected() {
    let mut encrypted = encrypt(b"abc", "pw").expect("Encryption failed");
    encrypted.nonce = "!!!not base64!!!".to_string();
    match decrypt(&encrypted, "pw") {
        Err(CryptoError::InvalidFormat) => {}
        other => panic!("expected InvalidFormat, got {:?}", other.map(|_| ())),
    }
}

#[test]
fn test_single_nonce_yields_once() {
    let mut source = SingleNonce::new(vec![7u8; 12]);
    let first = source.advance();
    assert_eq!(first.unwrap(), vec![7u8; 12]);
    let second = source.advance();
    assert!(second.is_err());
}
