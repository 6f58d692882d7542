//! Passphrase-based bundle encryption: Argon2id key derivation and
//! AES-256-GCM authenticated encryption.
//!
//! A bundle is `{salt, nonce, ciphertext}`, all standard base64; the
//! ciphertext carries the 16-byte authentication tag.  Decryption is
//! all-or-nothing and deliberately collapses every failure after decoding to
//! one generic error, so a caller cannot tell a wrong passphrase from
//! corrupted data.  The round trip is pinned by `bundle_seals`: encryption
//! produces a bundle that seals the plaintext under the passphrase, and
//! decryption returns exactly the sealed plaintext of such a bundle.

use crate::encodings::{b64std_decode, b64std_encode, b64std_of};
use crate::rng::random_bytes;
use argon2::password_hash::PasswordHasher;
use vstd::prelude::*;

verus! {

/// Errors of bundle encryption.  `Decryption` deliberately does not say
/// which stage failed.
#[derive(Clone, Copy, Debug, PartialEq, Eq, Structural)]
pub enum CryptoError {
    KeyDerivation,
    Encryption,
    Decryption,
    InvalidFormat,
}

/// Human-readable message of each error.
pub open spec fn spec_crypto_error_message(e: CryptoError) -> Seq<char> {
    match e {
        CryptoError::KeyDerivation => "Key derivation failed"@,
        CryptoError::Encryption => "Encryption failed"@,
        CryptoError::Decryption => "Decryption failed - wrong passphrase or corrupted data"@,
        CryptoError::InvalidFormat => "Invalid data format"@,
    }
}

impl CryptoError {
    /// The human-readable message.
    pub fn message(&self) -> (r: String)
        ensures
            r@ == spec_crypto_error_message(*self),
    {
        match self {
            CryptoError::KeyDerivation => String::from_str("Key derivation failed"),
            CryptoError::Encryption => String::from_str("Encryption failed"),
            CryptoError::Decryption => String::from_str(
                "Decryption failed - wrong passphrase or corrupted data",
            ),
            CryptoError::InvalidFormat => String::from_str("Invalid data format"),
        }
    }
}

/// An encrypted bundle: salt, nonce and tagged ciphertext, each as standard
/// base64.  Immutable once produced.
#[derive(Debug)]
pub struct EncryptedBundle {
    pub salt: String,
    pub nonce: String,
    pub ciphertext: String,
}

/// A nonce source that yields its value exactly once and fails every further
/// request: no (key, nonce) pair can be reused within a process run.
#[derive(Debug)]
pub struct SingleNonce {
    pub nonce: Option<Vec<u8>>,
}

impl SingleNonce {
    /// Wraps a nonce for a single use.
    pub fn new(nonce: Vec<u8>) -> (r: Self)
        ensures
            r.nonce matches Some(n) && n@ == nonce@,
    {
        SingleNonce { nonce: Some(nonce) }
    }

    /// Yields the nonce on the first call and an error on every later one.
    pub fn advance(&mut self) -> (r: Result<Vec<u8>, ()>)
        ensures
            final(self).nonce is None,
            match old(self).nonce {
                Some(n) => r matches Ok(v) && v@ == n@,
                None => r is Err,
            },
    {
        let taken = self.nonce.take();
        match taken {
            Some(n) => Ok(n),
            None => Err(()),
        }
    }
}

/// The 32-byte key Argon2id (default parameters) derives from a passphrase
/// and a raw salt, or nothing where the inputs are outside the algorithm's
/// limits.
pub uninterp spec fn argon2id_key_of(pass: Seq<char>, salt: Seq<u8>) -> Option<Seq<u8>>;

/// Relies on `argon2::Argon2::default().hash_password` over a B64-encoded
/// salt string: the derived key is a function of passphrase and salt alone,
/// 32 bytes with the default output length, and derivation succeeds for any
/// salt of 8 to 48 bytes and any password under the algorithm's 2^32-byte
/// limit.
#[verifier::external_body]
fn argon2id_derive(passphrase: &str, salt: &[u8]) -> (r: Option<Vec<u8>>)
    ensures
        match r {
            Some(k) => argon2id_key_of(passphrase@, salt@) == Some(k@) && k@.len() == 32,
            None => argon2id_key_of(passphrase@, salt@) is None,
        },
        (8 <= salt@.len() <= 48 && passphrase@.len() <= 0x3FFFFFFF) ==> r is Some,
{
    let salt_string = argon2::password_hash::SaltString::encode_b64(salt).ok()?;
    let hash = argon2::Argon2::default().hash_password(passphrase.as_bytes(), &salt_string).ok()?;
    let output = hash.hash?;
    let key: [u8; 32] = output.as_bytes().try_into().ok()?;
    Some(key.to_vec())
}

/// The AES-256-GCM sealing of `pt` under `key` and `nonce`: the ciphertext
/// with the 16-byte authentication tag appended.
pub uninterp spec fn aes_gcm_seal_of(key: Seq<u8>, nonce: Seq<u8>, pt: Seq<u8>) -> Seq<u8>;

/// Relies on `ring::aead::LessSafeKey::seal_in_place_append_tag` with
/// `AES_256_GCM` and empty associated data: sealing is a function of key,
/// nonce and plaintext, appends the 16-byte tag, and succeeds for any
/// plaintext under 2^32 bytes.
#[verifier::external_body]
fn aes_gcm_seal(key: &[u8], nonce: &[u8], data: &[u8]) -> (r: Option<Vec<u8>>)
    requires
        key@.len() == 32,
        nonce@.len() == 12,
    ensures
        match r {
            Some(ct) => ct@ == aes_gcm_seal_of(key@, nonce@, data@) && ct@.len() == data@.len()
                + 16,
            None => true,
        },
        data@.len() < 0x100000000 ==> r is Some,
{
    let unbound = ring::aead::UnboundKey::new(&ring::aead::AES_256_GCM, key).ok()?;
    let sealing_key = ring::aead::LessSafeKey::new(unbound);
    let n = ring::aead::Nonce::try_assume_unique_for_key(nonce).ok()?;
    let mut in_out = data.to_vec();
    sealing_key.seal_in_place_append_tag(n, ring::aead::Aad::empty(), &mut in_out).ok()?;
    Some(in_out)
}

/// Relies on `ring::aead::LessSafeKey::open_in_place` with `AES_256_GCM` and
/// empty associated data: opening verifies the tag and accepts exactly the
/// sealings of this key and nonce, returning the sealed plaintext (AES-GCM
/// sealing is injective in the plaintext for a fixed key and nonce, so that
/// plaintext is unique).
#[verifier::external_body]
fn aes_gcm_open(key: &[u8], nonce: &[u8], ct: &[u8]) -> (r: Option<Vec<u8>>)
    requires
        key@.len() == 32,
        nonce@.len() == 12,
    ensures
        match r {
            Some(pt) => ct@ == aes_gcm_seal_of(key@, nonce@, pt@) && (forall|p2: Seq<u8>|
                ct@ == aes_gcm_seal_of(key@, nonce@, p2) ==> p2 == pt@),
            None => forall|p2: Seq<u8>| ct@ != aes_gcm_seal_of(key@, nonce@, p2),
        },
{
    let unbound = ring::aead::UnboundKey::new(&ring::aead::AES_256_GCM, key).ok()?;
    let opening_key = ring::aead::LessSafeKey::new(unbound);
    let n = ring::aead::Nonce::try_assume_unique_for_key(nonce).ok()?;
    let mut in_out = ct.to_vec();
    let pt = opening_key.open_in_place(n, ring::aead::Aad::empty(), &mut in_out).ok()?;
    Some(pt.to_vec())
}

/// The bundle encodes, under this passphrase, exactly the plaintext `pt`:
/// its fields decode to a salt, a 12-byte nonce and the AES-256-GCM sealing
/// of `pt` under the key Argon2id derives from the passphrase and that salt.
pub open spec fn bundle_seals(bundle: EncryptedBundle, pass: Seq<char>, pt: Seq<u8>) -> bool {
    exists|salt: Seq<u8>, nonce: Seq<u8>, key: Seq<u8>|
        #![trigger argon2id_key_of(pass, salt), b64std_of(nonce), aes_gcm_seal_of(key, nonce, pt)]
        b64std_of(salt) == bundle.salt@ && b64std_of(nonce) == bundle.nonce@ && nonce.len() == 12
            && argon2id_key_of(pass, salt) == Some(key) && b64std_of(
            aes_gcm_seal_of(key, nonce, pt),
        ) == bundle.ciphertext@
}

/// Encrypts `data` under a passphrase: a fresh 16-byte random salt, a fresh
/// 12-byte random nonce drawn exactly once through a `SingleNonce`, Argon2id
/// key derivation and AES-256-GCM sealing.  On success the returned bundle
/// seals exactly `data` under the passphrase; encryption is owed whenever
/// passphrase and plaintext are within the algorithms' size limits.
pub fn encrypt(data: &[u8], passphrase: &str) -> (r: Result<EncryptedBundle, CryptoError>)
    ensures
        match r {
            Ok(bundle) => bundle_seals(bundle, passphrase@, data@),
            Err(e) => e == CryptoError::KeyDerivation || e == CryptoError::Encryption,
        },
        (passphrase@.len() <= 0x3FFFFFFF && data@.len() < 0x100000000) ==> r is Ok,
{
    let salt = random_bytes(16);
    let mut nonce_source = SingleNonce::new(random_bytes(12));
    let nonce = match nonce_source.advance() {
        Ok(n) => n,
        Err(_) => {
            return Err(CryptoError::Encryption);
        },
    };
    let key = match argon2id_derive(passphrase, salt.as_slice()) {
        Some(k) => k,
        None => {
            return Err(CryptoError::KeyDerivation);
        },
    };
    let sealed = match aes_gcm_seal(key.as_slice(), nonce.as_slice(), data) {
        Some(ct) => ct,
        None => {
            return Err(CryptoError::Encryption);
        },
    };
    let bundle = EncryptedBundle {
        salt: b64std_encode(salt.as_slice()),
        nonce: b64std_encode(nonce.as_slice()),
        ciphertext: b64std_encode(sealed.as_slice()),
    };
    proof {
        assert(b64std_of(salt@) == bundle.salt@ && b64std_of(nonce@) == bundle.nonce@
            && nonce@.len() == 12 && argon2id_key_of(passphrase@, salt@) == Some(key@)
            && b64std_of(aes_gcm_seal_of(key@, nonce@, data@)) == bundle.ciphertext@);
    }
    Ok(bundle)
}

/// The round trip: a bundle that seals `pt` under a passphrase — which is
/// what `encrypt(pt, pass)` returns — is decrypted to exactly `pt` by any
/// result that meets `decrypt`'s guarantee for that bundle and passphrase.
/// (That decryption under a *different* passphrase fails rests on the
/// cipher: two keys sealing one bundle would be a collision the algorithms
/// exclude in practice but no contract here states.)
pub proof fn lemma_round_trip(
    bundle: EncryptedBundle,
    pass: Seq<char>,
    pt: Seq<u8>,
    r: Result<Vec<u8>, CryptoError>,
)
    requires
        bundle_seals(bundle, pass, pt),
        forall|q: Seq<u8>|
            bundle_seals(bundle, pass, q) ==> (match r {
                Ok(res) => res@ == q,
                Err(_) => false,
            }),
    ensures
        r matches Ok(res) && res@ == pt,
{
}

/// Decrypts a bundle with a passphrase.  All-or-nothing: whenever the bundle
/// seals some plaintext under this passphrase, exactly that plaintext is
/// returned — in particular `decrypt(encrypt(P, K), K)` yields `P`; a bundle
/// sealing nothing under the passphrase (wrong passphrase, corrupted data)
/// is rejected.
pub fn decrypt(bundle: &EncryptedBundle, passphrase: &str) -> (r: Result<Vec<u8>, CryptoError>)
    ensures
        match r {
            Ok(pt) => bundle_seals(*bundle, passphrase@, pt@),
            Err(e) => e == CryptoError::InvalidFormat || e == CryptoError::KeyDerivation || e
                == CryptoError::Decryption,
        },
        forall|pt: Seq<u8>|
            bundle_seals(*bundle, passphrase@, pt) ==> (match r {
                Ok(res) => res@ == pt,
                Err(_) => false,
            }),
{
    let salt = match b64std_decode(bundle.salt.as_str()) {
        Some(s) => s,
        None => {
            proof {
                assert forall|pt: Seq<u8>| !bundle_seals(*bundle, passphrase@, pt) by {
                    if bundle_seals(*bundle, passphrase@, pt) {
                        let (sw, nw, kw) = choose|sw: Seq<u8>, nw: Seq<u8>, kw: Seq<u8>|
                            #![trigger argon2id_key_of(passphrase@, sw), b64std_of(nw), aes_gcm_seal_of(kw, nw, pt)]
                            b64std_of(sw) == bundle.salt@ && b64std_of(nw) == bundle.nonce@
                                && nw.len() == 12 && argon2id_key_of(passphrase@, sw) == Some(kw)
                                && b64std_of(aes_gcm_seal_of(kw, nw, pt)) == bundle.ciphertext@;
                        assert(b64std_of(sw) == bundle.salt@);
                    }
                }
            }
            return Err(CryptoError::InvalidFormat);
        },
    };
    let nonce = match b64std_decode(bundle.nonce.as_str()) {
        Some(n) => n,
        None => {
            proof {
                assert forall|pt: Seq<u8>| !bundle_seals(*bundle, passphrase@, pt) by {
                    if bundle_seals(*bundle, passphrase@, pt) {
                        let (sw, nw, kw) = choose|sw: Seq<u8>, nw: Seq<u8>, kw: Seq<u8>|
                            #![trigger argon2id_key_of(passphrase@, sw), b64std_of(nw), aes_gcm_seal_of(kw, nw, pt)]
                            b64std_of(sw) == bundle.salt@ && b64std_of(nw) == bundle.nonce@
                                && nw.len() == 12 && argon2id_key_of(passphrase@, sw) == Some(kw)
                                && b64std_of(aes_gcm_seal_of(kw, nw, pt)) == bundle.ciphertext@;
                        assert(b64std_of(nw) == bundle.nonce@);
                    }
                }
            }
            return Err(CryptoError::InvalidFormat);
        },
    };
    if nonce.len() != 12 {
        proof {
            assert forall|pt: Seq<u8>| !bundle_seals(*bundle, passphrase@, pt) by {
                if bundle_seals(*bundle, passphrase@, pt) {
                    let (sw, nw, kw) = choose|sw: Seq<u8>, nw: Seq<u8>, kw: Seq<u8>|
                        #![trigger argon2id_key_of(passphrase@, sw), b64std_of(nw), aes_gcm_seal_of(kw, nw, pt)]
                        b64std_of(sw) == bundle.salt@ && b64std_of(nw) == bundle.nonce@
                            && nw.len() == 12 && argon2id_key_of(passphrase@, sw) == Some(kw)
                            && b64std_of(aes_gcm_seal_of(kw, nw, pt)) == bundle.ciphertext@;
                    assert(nw == nonce@);
                }
            }
        }
        return Err(CryptoError::InvalidFormat);
    }
    let ciphertext = match b64std_decode(bundle.ciphertext.as_str()) {
        Some(c) => c,
        None => {
            proof {
                assert forall|pt: Seq<u8>| !bundle_seals(*bundle, passphrase@, pt) by {
                    if bundle_seals(*bundle, passphrase@, pt) {
                        let (sw, nw, kw) = choose|sw: Seq<u8>, nw: Seq<u8>, kw: Seq<u8>|
                            #![trigger argon2id_key_of(passphrase@, sw), b64std_of(nw), aes_gcm_seal_of(kw, nw, pt)]
                            b64std_of(sw) == bundle.salt@ && b64std_of(nw) == bundle.nonce@
                                && nw.len() == 12 && argon2id_key_of(passphrase@, sw) == Some(kw)
                                && b64std_of(aes_gcm_seal_of(kw, nw, pt)) == bundle.ciphertext@;
                        assert(b64std_of(aes_gcm_seal_of(kw, nw, pt)) == bundle.ciphertext@);
                    }
                }
            }
            return Err(CryptoError::InvalidFormat);
        },
    };
    let key = match argon2id_derive(passphrase, salt.as_slice()) {
        Some(k) => k,
        None => {
            proof {
                assert forall|pt: Seq<u8>| !bundle_seals(*bundle, passphrase@, pt) by {
                    if bundle_seals(*bundle, passphrase@, pt) {
                        let (sw, nw, kw) = choose|sw: Seq<u8>, nw: Seq<u8>, kw: Seq<u8>|
                            #![trigger argon2id_key_of(passphrase@, sw), b64std_of(nw), aes_gcm_seal_of(kw, nw, pt)]
                            b64std_of(sw) == bundle.salt@ && b64std_of(nw) == bundle.nonce@
                                && nw.len() == 12 && argon2id_key_of(passphrase@, sw) == Some(kw)
                                && b64std_of(aes_gcm_seal_of(kw, nw, pt)) == bundle.ciphertext@;
                        assert(sw == salt@);
                    }
                }
            }
            return Err(CryptoError::KeyDerivation);
        },
    };
    match aes_gcm_open(key.as_slice(), nonce.as_slice(), ciphertext.as_slice()) {
        Some(pt) => {
            proof {
                assert(b64std_of(salt@) == bundle.salt@ && b64std_of(nonce@) == bundle.nonce@
                    && nonce@.len() == 12 && argon2id_key_of(passphrase@, salt@) == Some(key@)
                    && b64std_of(aes_gcm_seal_of(key@, nonce@, pt@)) == bundle.ciphertext@);
                assert forall|other: Seq<u8>|
                    bundle_seals(*bundle, passphrase@, other) implies other == pt@ by {
                    let (sw, nw, kw) = choose|sw: Seq<u8>, nw: Seq<u8>, kw: Seq<u8>|
                        #![trigger argon2id_key_of(passphrase@, sw), b64std_of(nw), aes_gcm_seal_of(kw, nw, other)]
                        b64std_of(sw) == bundle.salt@ && b64std_of(nw) == bundle.nonce@
                            && nw.len() == 12 && argon2id_key_of(passphrase@, sw) == Some(kw)
                            && b64std_of(aes_gcm_seal_of(kw, nw, other)) == bundle.ciphertext@;
                    assert(sw == salt@);
                    assert(nw == nonce@);
                    assert(kw == key@);
                    assert(aes_gcm_seal_of(kw, nw, other) == ciphertext@);
                }
            }
            Ok(pt)
        },
        None => {
            proof {
                assert forall|pt: Seq<u8>| !bundle_seals(*bundle, passphrase@, pt) by {
                    if bundle_seals(*bundle, passphrase@, pt) {
                        let (sw, nw, kw) = choose|sw: Seq<u8>, nw: Seq<u8>, kw: Seq<u8>|
                            #![trigger argon2id_key_of(passphrase@, sw), b64std_of(nw), aes_gcm_seal_of(kw, nw, pt)]
                            b64std_of(sw) == bundle.salt@ && b64std_of(nw) == bundle.nonce@
                                && nw.len() == 12 && argon2id_key_of(passphrase@, sw) == Some(kw)
                                && b64std_of(aes_gcm_seal_of(kw, nw, pt)) == bundle.ciphertext@;
                        assert(sw == salt@);
                        assert(nw == nonce@);
                        assert(kw == key@);
                        assert(aes_gcm_seal_of(kw, nw, pt) == ciphertext@);
                    }
                }
            }
            Err(CryptoError::Decryption)
        },
    }
}

} // verus!
