//! Device pairing: session registry and verification state machine.
//!
//! A pairing session is a time-boxed, single-use handshake authenticated by a
//! six-digit code or a QR nonce shown out of band.  Sessions live two minutes,
//! allow at most five verification attempts, and enforce a thirty-second
//! cooldown after the third attempt.  Codes are never stored: only their
//! SHA-256 digest is kept, and all comparisons of secret material run in
//! constant time.

use crate::encodings::{
    b64url_encode, b64url_of, new_random_id, pct_encoded_of, percent_encode, rfc3339_utc,
    rfc3339_utc_of, sha256_of, sha256_str,
};
use crate::rng::{random_bytes, random_u32_below};
use crate::text::{
    join_with_commas, six_digit_code, spec_code6, spec_decimal, spec_join_comma, u64_to_string,
};
use crate::seqs::{find_first, lemma_find_first};
use vstd::prelude::*;
use vstd::string::*;

verus! {

/// Lifecycle of a pairing session.  `Pending` is the only live state; the
/// other three are terminal.
#[derive(Clone, Copy, Debug, PartialEq, Eq, Structural)]
pub enum PairingStatus {
    Pending,
    Verified,
    Expired,
    Failed,
}

/// How the remote device proves knowledge of the session secret.
#[derive(Clone, Copy, Debug, PartialEq, Eq, Structural)]
pub enum PairingMethod {
    QR,
    Code,
}

/// One in-memory pairing session.  The code itself is never stored, only its
/// SHA-256 digest.
#[derive(Debug)]
pub struct PairingSession {
    pub id: String,
    pub code_hash: Vec<u8>,
    pub nonce: String,
    pub created_at: u64,
    pub expires_at: u64,
    pub attempts: u8,
    pub last_attempt_at: Option<u64>,
    pub status: PairingStatus,
    pub paired_device_id: Option<String>,
    pub paired_device_name: Option<String>,
}

/// Result of starting a pairing session: the one-time code, the expiry and
/// the QR deep-link payload.
#[derive(Debug)]
pub struct PairStartResponse {
    pub pairing_id: String,
    pub code: String,
    pub expires_at: String,
    pub host_candidates: Vec<String>,
    pub port: u16,
    pub qr_payload: String,
}

/// A verification attempt from the remote device.
#[derive(Debug)]
pub struct PairConfirmRequest {
    pub pairing_id: Option<String>,
    pub method: PairingMethod,
    pub code: Option<String>,
    pub nonce: Option<String>,
    pub device_name: String,
    pub device_id: String,
}

/// Public confirmation response returned over the wire.
#[derive(Debug)]
pub struct PairConfirmResponse {
    pub desktop_device_id: String,
    pub session_token: String,
    pub shared_secret: Option<String>,
}

/// Internal confirmation response, carrying the minted session token for
/// persistence.
#[derive(Debug)]
pub struct PairConfirmResponseInternal {
    pub paired_device_id: String,
    pub desktop_device_id: String,
    pub token: String,
    pub desktop_name: String,
}

/// Status projection of one session.
#[derive(Debug)]
pub struct PairStatusResponse {
    pub pairing_id: String,
    pub status: PairingStatus,
    pub remaining_seconds: u64,
    pub attempts_remaining: u8,
}

/// Errors of the verification state machine.
#[derive(Clone, Copy, Debug, PartialEq, Eq, Structural)]
pub enum PairingError {
    NotFound,
    Expired,
    InvalidCode,
    InvalidNonce,
    TooManyAttempts,
    RateLimited(u64),
    AlreadyPaired,
    MissingCode,
    MissingNonce,
}

/// The coarse public error vocabulary exposed at the HTTP boundary.
#[derive(Debug)]
pub struct PairingErrorSimple {
    pub error: String,
}

/// Stable machine-readable code of each error.
pub open spec fn spec_error_code(e: PairingError) -> Seq<char> {
    match e {
        PairingError::NotFound => "NOT_FOUND"@,
        PairingError::Expired => "EXPIRED"@,
        PairingError::InvalidCode => "INVALID_CODE"@,
        PairingError::InvalidNonce => "INVALID_NONCE"@,
        PairingError::TooManyAttempts => "TOO_MANY_ATTEMPTS"@,
        PairingError::RateLimited(_) => "RATE_LIMITED"@,
        PairingError::AlreadyPaired => "ALREADY_PAIRED"@,
        PairingError::MissingCode => "MISSING_CODE"@,
        PairingError::MissingNonce => "MISSING_NONCE"@,
    }
}

/// Human-readable message of each error.
pub open spec fn spec_error_message(e: PairingError) -> Seq<char> {
    match e {
        PairingError::NotFound => "Pairing session not found"@,
        PairingError::Expired => "Pairing session has expired"@,
        PairingError::InvalidCode => "Invalid pairing code"@,
        PairingError::InvalidNonce => "Invalid QR nonce"@,
        PairingError::TooManyAttempts => "Too many failed attempts"@,
        PairingError::RateLimited(n) => "Rate limited. Try again in "@ + spec_decimal(n as nat)
            + " seconds"@,
        PairingError::AlreadyPaired => "Session already paired"@,
        PairingError::MissingCode => "Code is required for code-based pairing"@,
        PairingError::MissingNonce => "Nonce is required for QR-based pairing"@,
    }
}

/// The restricted public vocabulary: internal distinctions are deliberately
/// collapsed so a remote caller learns no more than it must.
pub open spec fn spec_public_label(e: PairingError) -> Seq<char> {
    match e {
        PairingError::Expired => "expired"@,
        PairingError::InvalidCode => "wrong_code"@,
        PairingError::InvalidNonce => "wrong_code"@,
        PairingError::RateLimited(_) => "rate_limited"@,
        PairingError::TooManyAttempts => "rate_limited"@,
        PairingError::NotFound => "invalid_pairing_id"@,
        PairingError::AlreadyPaired => "invalid_pairing_id"@,
        PairingError::MissingCode => "invalid_pairing_id"@,
        PairingError::MissingNonce => "invalid_pairing_id"@,
    }
}

impl PairingError {
    pub fn not_found() -> (r: Self)
        ensures
            r == PairingError::NotFound,
    {
        PairingError::NotFound
    }

    pub fn expired() -> (r: Self)
        ensures
            r == PairingError::Expired,
    {
        PairingError::Expired
    }

    pub fn invalid_code() -> (r: Self)
        ensures
            r == PairingError::InvalidCode,
    {
        PairingError::InvalidCode
    }

    pub fn invalid_nonce() -> (r: Self)
        ensures
            r == PairingError::InvalidNonce,
    {
        PairingError::InvalidNonce
    }

    pub fn too_many_attempts() -> (r: Self)
        ensures
            r == PairingError::TooManyAttempts,
    {
        PairingError::TooManyAttempts
    }

    pub fn rate_limited(retry_after: u64) -> (r: Self)
        ensures
            r == PairingError::RateLimited(retry_after),
    {
        PairingError::RateLimited(retry_after)
    }

    pub fn already_paired() -> (r: Self)
        ensures
            r == PairingError::AlreadyPaired,
    {
        PairingError::AlreadyPaired
    }

    pub fn missing_code() -> (r: Self)
        ensures
            r == PairingError::MissingCode,
    {
        PairingError::MissingCode
    }

    pub fn missing_nonce() -> (r: Self)
        ensures
            r == PairingError::MissingNonce,
    {
        PairingError::MissingNonce
    }

    /// The stable machine-readable code.
    pub fn code(&self) -> (r: String)
        ensures
            r@ == spec_error_code(*self),
    {
        match self {
            PairingError::NotFound => String::from_str("NOT_FOUND"),
            PairingError::Expired => String::from_str("EXPIRED"),
            PairingError::InvalidCode => String::from_str("INVALID_CODE"),
            PairingError::InvalidNonce => String::from_str("INVALID_NONCE"),
            PairingError::TooManyAttempts => String::from_str("TOO_MANY_ATTEMPTS"),
            PairingError::RateLimited(_) => String::from_str("RATE_LIMITED"),
            PairingError::AlreadyPaired => String::from_str("ALREADY_PAIRED"),
            PairingError::MissingCode => String::from_str("MISSING_CODE"),
            PairingError::MissingNonce => String::from_str("MISSING_NONCE"),
        }
    }

    /// The human-readable message.
    pub fn message(&self) -> (r: String)
        ensures
            r@ == spec_error_message(*self),
    {
        match self {
            PairingError::NotFound => String::from_str("Pairing session not found"),
            PairingError::Expired => String::from_str("Pairing session has expired"),
            PairingError::InvalidCode => String::from_str("Invalid pairing code"),
            PairingError::InvalidNonce => String::from_str("Invalid QR nonce"),
            PairingError::TooManyAttempts => String::from_str("Too many failed attempts"),
            PairingError::RateLimited(n) => {
                let mut m = String::from_str("Rate limited. Try again in ");
                let num = u64_to_string(*n);
                m.append(num.as_str());
                m.append(" seconds");
                m
            },
            PairingError::AlreadyPaired => String::from_str("Session already paired"),
            PairingError::MissingCode => String::from_str(
                "Code is required for code-based pairing",
            ),
            PairingError::MissingNonce => String::from_str(
                "Nonce is required for QR-based pairing",
            ),
        }
    }

    /// Seconds to wait before retrying, present only on `RateLimited`.
    pub fn retry_after(&self) -> (r: Option<u64>)
        ensures
            r == (match *self {
                PairingError::RateLimited(n) => Some(n),
                _ => None::<u64>,
            }),
    {
        match self {
            PairingError::RateLimited(n) => Some(*n),
            _ => None,
        }
    }

    /// The coarse public label for the HTTP boundary.
    pub fn public_label(&self) -> (r: String)
        ensures
            r@ == spec_public_label(*self),
    {
        match self {
            PairingError::Expired => String::from_str("expired"),
            PairingError::InvalidCode => String::from_str("wrong_code"),
            PairingError::InvalidNonce => String::from_str("wrong_code"),
            PairingError::RateLimited(_) => String::from_str("rate_limited"),
            PairingError::TooManyAttempts => String::from_str("rate_limited"),
            _ => String::from_str("invalid_pairing_id"),
        }
    }

    /// The error as the public wire shape.
    pub fn to_simple(&self) -> (r: PairingErrorSimple)
        ensures
            r.error@ == spec_public_label(*self),
    {
        PairingErrorSimple { error: self.public_label() }
    }
}

/// How long ago the last attempt was, clamped at zero for clocks that moved
/// backwards.
pub open spec fn spec_elapsed(t: u64, now: u64) -> int {
    if now >= t {
        now - t
    } else {
        0
    }
}

/// The rate-limit decision: a session with five attempts is spent; one with
/// three or more is in a thirty-second cooldown measured from its last
/// attempt.  A cooldown rejection carries the seconds left to wait.
pub open spec fn spec_rate_limit(s: PairingSession, now: u64) -> Result<(), PairingError> {
    if s.attempts >= 5 {
        Err(PairingError::TooManyAttempts)
    } else {
        match s.last_attempt_at {
            Some(t) => if s.attempts >= 3 && spec_elapsed(t, now) < 30 {
                Err(PairingError::RateLimited((30 - spec_elapsed(t, now)) as u64))
            } else {
                Ok(())
            },
            None => Ok(()),
        }
    }
}

/// The QR deep-link payload, each variable component percent-encoded.
pub open spec fn spec_qr_payload(
    id: Seq<char>,
    hosts: Seq<Seq<char>>,
    port: u16,
    nonce: Seq<char>,
    exp: u64,
) -> Seq<char> {
    "mini-crm://pair?v=1&hosts="@ + pct_encoded_of(spec_join_comma(hosts)) + "&port="@
        + spec_decimal(port as nat) + "&pairingId="@ + pct_encoded_of(id) + "&nonce="@
        + pct_encoded_of(nonce) + "&exp="@ + spec_decimal(exp as nat)
}

/// The in-memory session registry and verification state machine.  The host
/// application owns one instance behind a lock and injects the clock: every
/// time-dependent operation takes `now`, a Unix timestamp in seconds.
#[derive(Debug)]
pub struct PairingManager {
    pub sessions: Vec<PairingSession>,
    pub device_id: String,
    pub device_name: String,
}

impl PairingManager {
    /// Fixed-time byte comparison: the whole of both buffers is scanned with
    /// no early exit on a mismatching element (lengths are not secret).
    pub fn constant_time_eq(a: &[u8], b: &[u8]) -> (r: bool)
        ensures
            r == (a@ == b@),
    {
        if a.len() != b.len() {
            return false;
        }
        let mut diff: u8 = 0;
        let mut i: usize = 0;
        while i < a.len()
            invariant
                i <= a@.len(),
                a@.len() == b@.len(),
                (diff == 0) == (forall|j: int| 0 <= j < i ==> a@[j] == b@[j]),
            decreases a@.len() - i,
        {
            let x = a[i];
            let y = b[i];
            proof {
                assert(((x ^ y) == 0) == (x == y)) by (bit_vector);
                assert(((diff | (x ^ y)) == 0) == (diff == 0 && (x ^ y) == 0)) by (bit_vector);
            }
            diff = diff | (x ^ y);
            i = i + 1;
        }
        proof {
            if diff == 0 {
                assert(a@ =~= b@);
            }
        }
        diff == 0
    }

    /// SHA-256 digest of a code string.  The digest, not the code, is what a
    /// session stores.
    pub fn hash_code(code: &str) -> (r: Vec<u8>)
        ensures
            r@ == sha256_of(code@),
            r@.len() == 32,
    {
        sha256_str(code)
    }

    /// Whether the supplied code hashes to the stored digest, compared in
    /// constant time.
    pub fn verify_code(stored_hash: &[u8], provided_code: &str) -> (r: bool)
        ensures
            r == (stored_hash@ == sha256_of(provided_code@)),
    {
        let provided_hash = Self::hash_code(provided_code);
        Self::constant_time_eq(stored_hash, provided_hash.as_slice())
    }

    /// Whether the supplied nonce equals the stored one, compared in fixed
    /// time over the characters (a length mismatch alone may exit early:
    /// the length is not secret).
    pub fn verify_nonce(stored_nonce: &str, provided_nonce: &str) -> (r: bool)
        ensures
            r == (stored_nonce@ == provided_nonce@),
    {
        let alen = stored_nonce.unicode_len();
        let blen = provided_nonce.unicode_len();
        if alen != blen {
            return false;
        }
        let mut diff: u32 = 0;
        let mut i: usize = 0;
        while i < alen
            invariant
                i <= alen,
                alen == stored_nonce@.len(),
                alen == provided_nonce@.len(),
                (diff == 0) == (forall|j: int| 0 <= j < i ==> stored_nonce@[j]
                    == provided_nonce@[j]),
            decreases alen - i,
        {
            let x = stored_nonce.get_char(i) as u32;
            let y = provided_nonce.get_char(i) as u32;
            proof {
                assert(((x ^ y) == 0) == (x == y)) by (bit_vector);
                assert(((diff | (x ^ y)) == 0) == (diff == 0 && (x ^ y) == 0)) by (bit_vector);
                assert((stored_nonce@[i as int] as u32 == provided_nonce@[i as int] as u32)
                    ==> stored_nonce@[i as int] == provided_nonce@[i as int]);
            }
            diff = diff | (x ^ y);
            i = i + 1;
        }
        proof {
            if diff == 0 {
                assert(stored_nonce@ =~= provided_nonce@);
            }
        }
        diff == 0
    }

    /// Draws a uniform six-digit code; leading zeros are kept.
    pub fn generate_code() -> (r: String)
        ensures
            exists|n: int| 0 <= n < 1000000 && r@ == #[trigger] spec_code6(n as nat),
            r@.len() == 6,
    {
        let n = random_u32_below(1000000);
        let code = six_digit_code(n);
        proof {
            let w: int = n as int;
            assert(0 <= w < 1000000 && code@ == spec_code6(w as nat));
        }
        code
    }

    /// Draws a fresh 16-byte nonce, rendered as URL-safe unpadded base64.
    pub fn generate_nonce() -> (r: String)
        ensures
            exists|b: Seq<u8>| b.len() == 16 && r@ == b64url_of(b),
            r@.len() == 22,
    {
        let bytes = random_bytes(16);
        b64url_encode(bytes.as_slice())
    }

    /// Mints a fresh 32-byte session token, rendered as URL-safe unpadded
    /// base64 (43 characters).
    pub fn generate_token() -> (r: String)
        ensures
            exists|b: Seq<u8>| b.len() == 32 && r@ == b64url_of(b),
            r@.len() == 43,
    {
        let bytes = random_bytes(32);
        b64url_encode(bytes.as_slice())
    }

    /// Builds the QR deep-link payload URL from the session parameters.
    pub fn build_qr_payload(
        pairing_id: &str,
        hosts: &[String],
        port: u16,
        nonce: &str,
        exp: u64,
    ) -> (r: String)
        ensures
            r@ == spec_qr_payload(pairing_id@, hosts.deep_view(), port, nonce@, exp),
    {
        let hosts_param = join_with_commas(hosts);
        let mut s = String::from_str("mini-crm://pair?v=1&hosts=");
        let enc_hosts = percent_encode(hosts_param.as_str());
        s.append(enc_hosts.as_str());
        s.append("&port=");
        let port_str = u64_to_string(port as u64);
        s.append(port_str.as_str());
        s.append("&pairingId=");
        let enc_id = percent_encode(pairing_id);
        s.append(enc_id.as_str());
        s.append("&nonce=");
        let enc_nonce = percent_encode(nonce);
        s.append(enc_nonce.as_str());
        s.append("&exp=");
        let exp_str = u64_to_string(exp);
        s.append(exp_str.as_str());
        proof {
            assert(s@ =~= spec_qr_payload(pairing_id@, hosts.deep_view(), port, nonce@, exp));
        }
        s
    }

    /// Applies the attempt-count and cooldown limits to a session without
    /// changing it.
    pub fn check_rate_limit(session: &PairingSession, now: u64) -> (r: Result<(), PairingError>)
        ensures
            r == spec_rate_limit(*session, now),
    {
        if session.attempts >= 5 {
            return Err(PairingError::too_many_attempts());
        }
        if session.attempts >= 3 {
            if let Some(t) = session.last_attempt_at {
                let elapsed: u64 = if now >= t {
                    now - t
                } else {
                    0
                };
                if elapsed < 30 {
                    return Err(PairingError::rate_limited(30 - elapsed));
                }
            }
        }
        Ok(())
    }
}

/// No two sessions share an identifier.
pub open spec fn unique_ids(ss: Seq<PairingSession>) -> bool {
    forall|i: int, j: int|
        0 <= i < ss.len() && 0 <= j < ss.len() && i != j ==> ss[i].id@ != ss[j].id@
}

/// At most one session is `Pending` at any time.
pub open spec fn at_most_one_pending(ss: Seq<PairingSession>) -> bool {
    forall|i: int, j: int|
        0 <= i < ss.len() && 0 <= j < ss.len() && ss[i].status == PairingStatus::Pending
            && ss[j].status == PairingStatus::Pending ==> i == j
}

/// The predicate selecting the session with the given identifier.
pub open spec fn id_pred(id: Seq<char>) -> spec_fn(PairingSession) -> bool {
    |s: PairingSession| s.id@ == id
}

/// The predicate selecting a pending session whose stored digest is `h`.
pub open spec fn pending_hash_pred(h: Seq<u8>) -> spec_fn(PairingSession) -> bool {
    |s: PairingSession| s.status == PairingStatus::Pending && s.code_hash@ == h
}

/// Index of the session with identifier `id`, or `-1`.
pub open spec fn find_id_idx(ss: Seq<PairingSession>, id: Seq<char>) -> int {
    find_first(ss, id_pred(id))
}

/// Index of the pending session whose digest is `h`, or `-1`.
pub open spec fn find_code_idx(ss: Seq<PairingSession>, h: Seq<u8>) -> int {
    find_first(ss, pending_hash_pred(h))
}

/// Filtering a well-formed registry keeps it well-formed, and every kept
/// session satisfies the predicate and comes from the original registry.
pub proof fn lemma_filter_wf(ss: Seq<PairingSession>, p: spec_fn(PairingSession) -> bool)
    requires
        unique_ids(ss),
        at_most_one_pending(ss),
    ensures
        unique_ids(ss.filter(p)),
        at_most_one_pending(ss.filter(p)),
        forall|k: int|
            0 <= k < ss.filter(p).len() ==> p(#[trigger] ss.filter(p)[k]) && ss.contains(
                ss.filter(p)[k],
            ),
    decreases ss.len(),
{
    reveal(Seq::filter);
    if ss.len() > 0 {
        let rest = ss.drop_last();
        let last = ss.last();
        assert(forall|j: int| 0 <= j < rest.len() ==> #[trigger] rest[j] == ss[j]);
        lemma_filter_wf(rest, p);
        let fr = rest.filter(p);
        assert forall|k: int| 0 <= k < fr.len() implies ss.contains(#[trigger] fr[k]) by {
            let w = choose|w: int| 0 <= w < rest.len() && rest[w] == fr[k];
            assert(ss[w] == fr[k]);
        }
        if p(last) {
            let f = ss.filter(p);
            assert(f == fr.push(last));
            assert forall|k: int| 0 <= k < fr.len() implies #[trigger] fr[k].id@ != last.id@ by {
                let w = choose|w: int| 0 <= w < rest.len() && rest[w] == fr[k];
                assert(ss[w] == fr[k]);
                assert(ss[w].id@ != ss[ss.len() - 1].id@);
            }
            if last.status == PairingStatus::Pending {
                assert forall|k: int|
                    0 <= k < fr.len() implies #[trigger] fr[k].status
                    != PairingStatus::Pending by {
                    let w = choose|w: int| 0 <= w < rest.len() && rest[w] == fr[k];
                    assert(ss[w] == fr[k]);
                    if ss[w].status == PairingStatus::Pending {
                        assert(w == ss.len() - 1);
                    }
                }
            }
            assert(unique_ids(f));
            assert(at_most_one_pending(f));
        } else {
            assert(ss.filter(p) == fr);
        }
    }
}

/// The sessions kept when a new session under `new_id` is created: everything
/// still pending is cancelled, and a stale record under the same identifier
/// is dropped.
pub open spec fn live_pred(new_id: Seq<char>) -> spec_fn(PairingSession) -> bool {
    |s: PairingSession| s.status != PairingStatus::Pending && s.id@ != new_id
}

/// The sessions kept by `cancel`: everything but the cancelled identifier.
pub open spec fn not_id_pred(id: Seq<char>) -> spec_fn(PairingSession) -> bool {
    |s: PairingSession| s.id@ != id
}

/// The sessions kept by the periodic sweep at time `now`: verified sessions
/// for a five-minute grace window past expiry, pending sessions until expiry,
/// terminal failures and expiries not at all.
pub open spec fn retain_pred(now: u64) -> spec_fn(PairingSession) -> bool {
    |s: PairingSession|
        match s.status {
            PairingStatus::Verified => (now as int) < s.expires_at + 300,
            PairingStatus::Pending => now < s.expires_at,
            _ => false,
        }
}

/// Seconds left until `exp`, zero once past it.
pub open spec fn spec_remaining(exp: u64, now: u64) -> int {
    if now > exp {
        0
    } else {
        exp - now
    }
}

/// The status a read-only caller observes: an expired record still stored as
/// `Pending` is reported `Expired` without being written.
pub open spec fn spec_projected_status(status: PairingStatus, remaining: int) -> PairingStatus {
    if remaining == 0 && status == PairingStatus::Pending {
        PairingStatus::Expired
    } else {
        status
    }
}

/// Attempts left before the session is spent.
pub open spec fn spec_attempts_remaining(attempts: u8) -> int {
    if attempts >= 5 {
        0
    } else {
        5 - attempts
    }
}

/// The characters of an optional string, empty when absent.
pub open spec fn spec_opt_str(o: Option<String>) -> Seq<char> {
    match o {
        Some(s) => s@,
        None => Seq::empty(),
    }
}

impl PairingManager {
    /// Both registry invariants: unique identifiers, at most one pending
    /// session.
    pub open spec fn wf(&self) -> bool {
        unique_ids(self.sessions@) && at_most_one_pending(self.sessions@)
    }

    /// A fresh, empty registry for this device identity.
    pub fn new(device_id: String, device_name: String) -> (r: Self)
        ensures
            r.sessions@.len() == 0,
            r.device_id == device_id,
            r.device_name == device_name,
            r.wf(),
    {
        PairingManager { sessions: Vec::new(), device_id, device_name }
    }

    /// Finds the position of the session with the given identifier.
    fn find_index(&self, id: &str) -> (r: Option<usize>)
        ensures
            match r {
                Some(i) => i < self.sessions@.len() && find_id_idx(self.sessions@, id@) == i,
                None => find_id_idx(self.sessions@, id@) == -1,
            },
    {
        let ghost p = id_pred(id@);
        let ghost fi = find_first(self.sessions@, p);
        proof {
            lemma_find_first(self.sessions@, p);
        }
        let mut i: usize = 0;
        while i < self.sessions.len()
            invariant
                i <= self.sessions@.len(),
                forall|j: int| 0 <= j < i ==> !p(#[trigger] self.sessions@[j]),
                p == id_pred(id@),
                fi == find_first(self.sessions@, p),
                fi == -1 ==> (forall|j: int|
                    0 <= j < self.sessions@.len() ==> !p(#[trigger] self.sessions@[j])),
                fi >= 0 ==> fi < self.sessions@.len() && p(self.sessions@[fi]) && (forall|j: int|
                    0 <= j < fi ==> !p(#[trigger] self.sessions@[j])),
            decreases self.sessions@.len() - i,
        {
            if crate::text::str_eq(self.sessions[i].id.as_str(), id) {
                proof {
                    assert(p(self.sessions@[i as int]));
                    if fi == -1 {
                        assert(!p(self.sessions@[i as int]));
                    } else if fi < i as int {
                        assert(!p(self.sessions@[fi]));
                    } else if fi > i as int {
                        assert(!p(self.sessions@[i as int]));
                    }
                    assert(fi == i as int);
                }
                return Some(i);
            }
            proof {
                assert(!p(self.sessions@[i as int]));
            }
            i = i + 1;
        }
        proof {
            if fi >= 0 {
                assert(!p(self.sessions@[fi]));
            }
        }
        None
    }

    /// Finds the position of the pending session whose stored digest equals
    /// `hash`.
    fn find_pending_by_hash(&self, hash: &Vec<u8>) -> (r: Option<usize>)
        ensures
            match r {
                Some(i) => i < self.sessions@.len() && find_code_idx(self.sessions@, hash@) == i,
                None => find_code_idx(self.sessions@, hash@) == -1,
            },
    {
        let ghost p = pending_hash_pred(hash@);
        let ghost fi = find_first(self.sessions@, p);
        proof {
            lemma_find_first(self.sessions@, p);
        }
        let mut i: usize = 0;
        while i < self.sessions.len()
            invariant
                i <= self.sessions@.len(),
                forall|j: int| 0 <= j < i ==> !p(#[trigger] self.sessions@[j]),
                p == pending_hash_pred(hash@),
                fi == find_first(self.sessions@, p),
                fi == -1 ==> (forall|j: int|
                    0 <= j < self.sessions@.len() ==> !p(#[trigger] self.sessions@[j])),
                fi >= 0 ==> fi < self.sessions@.len() && p(self.sessions@[fi]) && (forall|j: int|
                    0 <= j < fi ==> !p(#[trigger] self.sessions@[j])),
            decreases self.sessions@.len() - i,
        {
            let is_pending = match self.sessions[i].status {
                PairingStatus::Pending => true,
                _ => false,
            };
            let matches_hash = is_pending && Self::constant_time_eq(
                self.sessions[i].code_hash.as_slice(),
                hash.as_slice(),
            );
            if matches_hash {
                proof {
                    assert(p(self.sessions@[i as int]));
                    if fi == -1 {
                        assert(!p(self.sessions@[i as int]));
                    } else if fi < i as int {
                        assert(!p(self.sessions@[fi]));
                    } else if fi > i as int {
                        assert(!p(self.sessions@[i as int]));
                    }
                    assert(fi == i as int);
                }
                return Some(i);
            }
            proof {
                assert(!p(self.sessions@[i as int]));
            }
            i = i + 1;
        }
        proof {
            if fi >= 0 {
                assert(!p(self.sessions@[fi]));
            }
        }
        None
    }

    /// Scans the pending sessions for one whose stored digest matches the
    /// supplied code, comparing digests in constant time.  Used when a caller
    /// supplies a code without a pairing identifier.
    pub fn find_session_by_code(&self, code: &str) -> (r: Option<String>)
        ensures
            match r {
                Some(id) => find_code_idx(self.sessions@, sha256_of(code@)) >= 0 && id
                    == self.sessions@[find_code_idx(self.sessions@, sha256_of(code@))].id,
                None => find_code_idx(self.sessions@, sha256_of(code@)) == -1,
            },
    {
        let code_hash = Self::hash_code(code);
        match self.find_pending_by_hash(&code_hash) {
            Some(i) => Some(self.sessions[i].id.clone()),
            None => None,
        }
    }

    /// Unconditionally removes the session with the given identifier.
    pub fn cancel(&mut self, pairing_id: &str)
        requires
            old(self).wf(),
        ensures
            final(self).wf(),
            final(self).sessions@ == old(self).sessions@.filter(not_id_pred(pairing_id@)),
            final(self).device_id == old(self).device_id,
            final(self).device_name == old(self).device_name,
    {
        let ghost orig = self.sessions@;
        let ghost p = not_id_pred(pairing_id@);
        let mut kept: Vec<PairingSession> = Vec::new();
        proof {
            reveal(Seq::filter);
            assert(orig.take(0).filter(p) =~= Seq::<PairingSession>::empty());
            assert(orig.skip(0) =~= orig);
        }
        while self.sessions.len() > 0
            invariant
                self.sessions@.len() <= orig.len(),
                self.sessions@ == orig.skip(orig.len() - self.sessions@.len()),
                kept@ == orig.take(orig.len() - self.sessions@.len()).filter(p),
                p == not_id_pred(pairing_id@),
                self.device_id == old(self).device_id,
                self.device_name == old(self).device_name,
            decreases self.sessions@.len(),
        {
            let ghost i = orig.len() - self.sessions@.len();
            let s = self.sessions.remove(0);
            proof {
                assert(s == orig[i]);
                assert(self.sessions@ =~= orig.skip(i + 1));
                reveal(Seq::filter);
                assert(orig.take(i + 1).drop_last() =~= orig.take(i));
                assert(orig.take(i + 1).last() == orig[i]);
            }
            if !crate::text::str_eq(s.id.as_str(), pairing_id) {
                kept.push(s);
                proof {
                    reveal(Seq::filter);
                    assert(p(orig[i]));
                    assert(orig.take(i + 1).filter(p) =~= orig.take(i).filter(p).push(orig[i]));
                }
            } else {
                proof {
                    reveal(Seq::filter);
                    assert(!p(orig[i]));
                    assert(orig.take(i + 1).filter(p) =~= orig.take(i).filter(p));
                }
            }
        }
        proof {
            assert(orig.take(orig.len() as int) =~= orig);
            lemma_filter_wf(orig, p);
        }
        self.sessions = kept;
    }

    /// The periodic sweep: drops terminal and expired sessions, keeping
    /// verified ones for a five-minute grace window so the desktop can still
    /// poll their status.
    pub fn cleanup_expired(&mut self, now: u64)
        requires
            old(self).wf(),
        ensures
            final(self).wf(),
            final(self).sessions@ == old(self).sessions@.filter(retain_pred(now)),
            final(self).device_id == old(self).device_id,
            final(self).device_name == old(self).device_name,
    {
        let ghost orig = self.sessions@;
        let ghost p = retain_pred(now);
        let mut kept: Vec<PairingSession> = Vec::new();
        proof {
            reveal(Seq::filter);
            assert(orig.take(0).filter(p) =~= Seq::<PairingSession>::empty());
            assert(orig.skip(0) =~= orig);
        }
        while self.sessions.len() > 0
            invariant
                self.sessions@.len() <= orig.len(),
                self.sessions@ == orig.skip(orig.len() - self.sessions@.len()),
                kept@ == orig.take(orig.len() - self.sessions@.len()).filter(p),
                p == retain_pred(now),
                self.device_id == old(self).device_id,
                self.device_name == old(self).device_name,
            decreases self.sessions@.len(),
        {
            let ghost i = orig.len() - self.sessions@.len();
            let s = self.sessions.remove(0);
            proof {
                assert(s == orig[i]);
                assert(self.sessions@ =~= orig.skip(i + 1));
                reveal(Seq::filter);
                assert(orig.take(i + 1).drop_last() =~= orig.take(i));
                assert(orig.take(i + 1).last() == orig[i]);
            }
            let keep = match s.status {
                PairingStatus::Verified => if s.expires_at > u64::MAX - 300 {
                    true
                } else {
                    now < s.expires_at + 300
                },
                PairingStatus::Pending => now < s.expires_at,
                _ => false,
            };
            if keep {
                kept.push(s);
                proof {
                    reveal(Seq::filter);
                    assert(p(orig[i]));
                    assert(orig.take(i + 1).filter(p) =~= orig.take(i).filter(p).push(orig[i]));
                }
            } else {
                proof {
                    reveal(Seq::filter);
                    assert(!p(orig[i]));
                    assert(orig.take(i + 1).filter(p) =~= orig.take(i).filter(p));
                }
            }
        }
        proof {
            assert(orig.take(orig.len() as int) =~= orig);
            lemma_filter_wf(orig, p);
        }
        self.sessions = kept;
    }

    /// Read-only status projection: seconds remaining, attempts left, and the
    /// status with lazy expiry observed (never written) for stale `Pending`
    /// records.
    pub fn get_status(&self, pairing_id: &str, now: u64) -> (r: Result<
        PairStatusResponse,
        PairingError,
    >)
        ensures
            ({
                let fi = find_id_idx(self.sessions@, pairing_id@);
                if fi < 0 {
                    r == Err::<PairStatusResponse, PairingError>(PairingError::NotFound)
                } else {
                    let s = self.sessions@[fi];
                    let remaining = spec_remaining(s.expires_at, now);
                    match r {
                        Ok(resp) => resp.pairing_id == s.id && resp.remaining_seconds
                            == remaining && resp.status == spec_projected_status(
                            s.status,
                            remaining,
                        ) && resp.attempts_remaining == spec_attempts_remaining(s.attempts),
                        Err(_) => false,
                    }
                }
            }),
    {
        match self.find_index(pairing_id) {
            None => Err(PairingError::not_found()),
            Some(i) => {
                let s = &self.sessions[i];
                let remaining: u64 = if now > s.expires_at {
                    0
                } else {
                    s.expires_at - now
                };
                let status = if remaining == 0 {
                    match s.status {
                        PairingStatus::Pending => PairingStatus::Expired,
                        _ => s.status,
                    }
                } else {
                    s.status
                };
                let attempts_remaining: u8 = if s.attempts >= 5 {
                    0
                } else {
                    5 - s.attempts
                };
                Ok(
                    PairStatusResponse {
                        pairing_id: s.id.clone(),
                        status,
                        remaining_seconds: remaining,
                        attempts_remaining,
                    },
                )
            },
        }
    }

    /// Starts a new pairing session at time `now` (Unix seconds): cancels
    /// every session still pending, draws a fresh identifier, a uniform
    /// six-digit code (stored only as its SHA-256 digest) and a 16-byte
    /// nonce, and returns the one-time code together with the QR deep-link
    /// payload.  Afterwards exactly one session — the new one — is pending.
    pub fn create_session(
        &mut self,
        host_candidates: Vec<String>,
        port: u16,
        now: u64,
    ) -> (r: PairStartResponse)
        requires
            old(self).wf(),
            now < 253402300680,
        ensures
            final(self).wf(),
            final(self).device_id == old(self).device_id,
            final(self).device_name == old(self).device_name,
            final(self).sessions@.len() >= 1,
            final(self).sessions@.drop_last() == old(self).sessions@.filter(
                live_pred(r.pairing_id@),
            ),
            ({
                let ns = final(self).sessions@.last();
                &&& ns.id == r.pairing_id
                &&& ns.code_hash@ == sha256_of(r.code@)
                &&& ns.created_at == now
                &&& ns.expires_at == now + 120
                &&& ns.attempts == 0
                &&& ns.last_attempt_at is None
                &&& ns.status == PairingStatus::Pending
                &&& ns.paired_device_id is None
                &&& ns.paired_device_name is None
                &&& (exists|nb: Seq<u8>| nb.len() == 16 && ns.nonce@ == b64url_of(nb))
                &&& r.qr_payload@ == spec_qr_payload(
                    r.pairing_id@,
                    host_candidates.deep_view(),
                    port,
                    ns.nonce@,
                    (now + 120) as u64,
                )
            }),
            exists|n: int| 0 <= n < 1000000 && r.code@ == #[trigger] spec_code6(n as nat),
            r.code@.len() == 6,
            r.pairing_id@.len() == 36,
            r.expires_at@ == rfc3339_utc_of((now + 120) as u64),
            r.host_candidates == host_candidates,
            r.port == port,
            forall|i: int|
                0 <= i < final(self).sessions@.len() ==> (((
                #[trigger] final(self).sessions@[i]).status == PairingStatus::Pending) <==> i
                    == final(self).sessions@.len() - 1),
    {
        let pairing_id = new_random_id();
        let code = Self::generate_code();
        let code_hash = Self::hash_code(code.as_str());
        let nonce = Self::generate_nonce();
        let expires_at: u64 = now + 120;

        let ghost orig = self.sessions@;
        let ghost p = live_pred(pairing_id@);
        let mut kept: Vec<PairingSession> = Vec::new();
        proof {
            reveal(Seq::filter);
            assert(orig.take(0).filter(p) =~= Seq::<PairingSession>::empty());
            assert(orig.skip(0) =~= orig);
        }
        while self.sessions.len() > 0
            invariant
                self.sessions@.len() <= orig.len(),
                self.sessions@ == orig.skip(orig.len() - self.sessions@.len()),
                kept@ == orig.take(orig.len() - self.sessions@.len()).filter(p),
                p == live_pred(pairing_id@),
                self.device_id == old(self).device_id,
                self.device_name == old(self).device_name,
            decreases self.sessions@.len(),
        {
            let ghost i = orig.len() - self.sessions@.len();
            let s = self.sessions.remove(0);
            proof {
                assert(s == orig[i]);
                assert(self.sessions@ =~= orig.skip(i + 1));
                reveal(Seq::filter);
                assert(orig.take(i + 1).drop_last() =~= orig.take(i));
                assert(orig.take(i + 1).last() == orig[i]);
            }
            let is_pending = match s.status {
                PairingStatus::Pending => true,
                _ => false,
            };
            if !is_pending && !crate::text::str_eq(s.id.as_str(), pairing_id.as_str()) {
                kept.push(s);
                proof {
                    reveal(Seq::filter);
                    assert(p(orig[i]));
                    assert(orig.take(i + 1).filter(p) =~= orig.take(i).filter(p).push(orig[i]));
                }
            } else {
                proof {
                    reveal(Seq::filter);
                    assert(!p(orig[i]));
                    assert(orig.take(i + 1).filter(p) =~= orig.take(i).filter(p));
                }
            }
        }
        proof {
            assert(orig.take(orig.len() as int) =~= orig);
            lemma_filter_wf(orig, p);
        }
        self.sessions = kept;

        let qr_payload = Self::build_qr_payload(
            pairing_id.as_str(),
            host_candidates.as_slice(),
            port,
            nonce.as_str(),
            expires_at,
        );
        let expires_str = rfc3339_utc(expires_at);

        let session = PairingSession {
            id: pairing_id.clone(),
            code_hash,
            nonce,
            created_at: now,
            expires_at,
            attempts: 0,
            last_attempt_at: None,
            status: PairingStatus::Pending,
            paired_device_id: None,
            paired_device_name: None,
        };
        let ghost before = self.sessions@;
        let ghost ns = session;
        self.sessions.push(session);
        proof {
            let ss = self.sessions@;
            assert(ss == before.push(ns));
            assert(ss.drop_last() =~= before);
            assert(ns.id@ == pairing_id@);
            assert forall|i: int, j: int|
                0 <= i < ss.len() && 0 <= j < ss.len() && i != j implies ss[i].id@
                != ss[j].id@ by {
                if i < before.len() && j < before.len() {
                    assert(before[i].id@ != before[j].id@);
                } else if i == before.len() && j < before.len() {
                    assert(p(before[j]));
                } else if j == before.len() && i < before.len() {
                    assert(p(before[i]));
                }
            }
            assert forall|i: int|
                0 <= i < ss.len() implies ((#[trigger] ss[i]).status == PairingStatus::Pending
                <==> i == ss.len() - 1) by {
                if i < before.len() {
                    assert(p(before[i]));
                }
            }
            assert(at_most_one_pending(ss));
        }
        PairStartResponse {
            pairing_id,
            code,
            expires_at: expires_str,
            host_candidates,
            port,
            qr_payload,
        }
    }

    /// The device identity a verified session recorded, if any.
    pub fn get_paired_device(&self, pairing_id: &str) -> (r: Option<(String, String)>)
        ensures
            ({
                let fi = find_id_idx(self.sessions@, pairing_id@);
                if fi >= 0 && self.sessions@[fi].status == PairingStatus::Verified {
                    match r {
                        Some(pair) => pair.0@ == spec_opt_str(
                            self.sessions@[fi].paired_device_id,
                        ) && pair.1@ == spec_opt_str(self.sessions@[fi].paired_device_name),
                        None => false,
                    }
                } else {
                    r is None
                }
            }),
    {
        match self.find_index(pairing_id) {
            None => None,
            Some(i) => {
                let s = &self.sessions[i];
                match s.status {
                    PairingStatus::Verified => {
                        let device_id = match &s.paired_device_id {
                            Some(d) => d.clone(),
                            None => String::new(),
                        };
                        let device_name = match &s.paired_device_name {
                            Some(n) => n.clone(),
                            None => String::new(),
                        };
                        Some((device_id, device_name))
                    },
                    _ => None,
                }
            },
        }
    }
}

/// The request carries the credential its method calls for.
pub open spec fn cred_present(req: PairConfirmRequest) -> bool {
    match req.method {
        PairingMethod::Code => req.code is Some,
        PairingMethod::QR => req.nonce is Some,
    }
}

/// The supplied credential matches the session's stored secret: the code
/// hashes to the stored digest, or the nonce equals the stored nonce.
pub open spec fn cred_matches(s: PairingSession, req: PairConfirmRequest) -> bool {
    match req.method {
        PairingMethod::Code => match req.code {
            Some(c) => s.code_hash@ == sha256_of(c@),
            None => false,
        },
        PairingMethod::QR => match req.nonce {
            Some(n) => s.nonce@ == n@,
            None => false,
        },
    }
}

/// The error for an absent credential of the request's method.
pub open spec fn spec_missing_error(m: PairingMethod) -> PairingError {
    match m {
        PairingMethod::Code => PairingError::MissingCode,
        PairingMethod::QR => PairingError::MissingNonce,
    }
}

/// The error for a mismatching credential of the request's method.
pub open spec fn spec_mismatch_error(m: PairingMethod) -> PairingError {
    match m {
        PairingMethod::Code => PairingError::InvalidCode,
        PairingMethod::QR => PairingError::InvalidNonce,
    }
}

/// The session with its status replaced.
pub open spec fn with_status(s: PairingSession, st: PairingStatus) -> PairingSession {
    PairingSession { status: st, ..s }
}

/// The session with one more attempt recorded at `now`.
pub open spec fn record_attempt(s: PairingSession, now: u64) -> PairingSession
    recommends
        s.attempts < 5,
{
    PairingSession { attempts: (s.attempts + 1) as u8, last_attempt_at: Some(now), ..s }
}

/// The session marked verified for the requesting device.
pub open spec fn mark_verified(s: PairingSession, req: PairConfirmRequest) -> PairingSession {
    PairingSession {
        status: PairingStatus::Verified,
        paired_device_id: Some(req.device_id),
        paired_device_name: Some(req.device_name),
        ..s
    }
}

/// One verification attempt against one session — the complete decision
/// order of the state machine.  Returns the session afterwards and the
/// outcome.  A verified session rejects every further attempt; an expired
/// one is marked so; the rate limiter rejects *before* the attempt counter
/// moves, so flooding during a cooldown cannot push a session towards
/// `Failed`; a missing or wrong credential consumes an attempt, and the
/// fifth failure is terminal.
pub open spec fn verify_step(s: PairingSession, req: PairConfirmRequest, now: u64) -> (
    PairingSession,
    Result<(), PairingError>,
) {
    if s.status == PairingStatus::Verified {
        (s, Err(PairingError::AlreadyPaired))
    } else if now > s.expires_at {
        (with_status(s, PairingStatus::Expired), Err(PairingError::Expired))
    } else {
        match spec_rate_limit(s, now) {
            Err(e) => (s, Err(e)),
            Ok(_) => {
                let s1 = record_attempt(s, now);
                if !cred_present(req) {
                    (s1, Err(spec_missing_error(req.method)))
                } else if !cred_matches(s, req) {
                    if s1.attempts >= 5 {
                        (with_status(s1, PairingStatus::Failed), Err(PairingError::TooManyAttempts))
                    } else {
                        (s1, Err(spec_mismatch_error(req.method)))
                    }
                } else {
                    (mark_verified(s1, req), Ok(()))
                }
            },
        }
    }
}

/// Which session a confirmation request addresses: by explicit identifier
/// when one is given, by constant-time code lookup for a code request
/// without one.
pub open spec fn resolve_target(ss: Seq<PairingSession>, req: PairConfirmRequest) -> Result<
    int,
    PairingError,
> {
    match req.pairing_id {
        Some(id) => if find_id_idx(ss, id@) < 0 {
            Err(PairingError::NotFound)
        } else {
            Ok(find_id_idx(ss, id@))
        },
        None => match req.method {
            PairingMethod::QR => Err(PairingError::NotFound),
            PairingMethod::Code => match req.code {
                None => Err(PairingError::MissingCode),
                Some(c) => if find_code_idx(ss, sha256_of(c@)) < 0 {
                    Err(PairingError::InvalidCode)
                } else {
                    Ok(find_code_idx(ss, sha256_of(c@)))
                },
            },
        },
    }
}

/// A well-formed freshly minted session token: 43 characters of URL-safe
/// base64 over 32 random bytes.
pub open spec fn token_ok(t: String) -> bool {
    t@.len() == 43 && (exists|b: Seq<u8>| b.len() == 32 && t@ == b64url_of(b))
}

/// The full contract of `verify`: the registry changes exactly as
/// `resolve_target` and `verify_step` dictate, and the result carries the
/// device identities and a fresh token on success, the step's error
/// otherwise.
pub open spec fn verify_post(
    pre: PairingManager,
    post: PairingManager,
    req: PairConfirmRequest,
    now: u64,
    r: Result<PairConfirmResponseInternal, PairingError>,
) -> bool {
    match resolve_target(pre.sessions@, req) {
        Err(e) => post.sessions@ == pre.sessions@ && r == Err::<
            PairConfirmResponseInternal,
            PairingError,
        >(e),
        Ok(i) => {
            let step = verify_step(pre.sessions@[i], req, now);
            post.sessions@ == pre.sessions@.update(i, step.0) && (match step.1 {
                Err(e) => r == Err::<PairConfirmResponseInternal, PairingError>(e),
                Ok(_) => (match r {
                    Ok(resp) => resp.paired_device_id == req.device_id && resp.desktop_device_id
                        == pre.device_id && resp.desktop_name == pre.device_name && token_ok(
                        resp.token,
                    ),
                    Err(_) => false,
                }),
            })
        },
    }
}

/// The contract of `verify_http`: the same transition as `verify`, with the
/// response in wire shape and errors collapsed to the public vocabulary.
pub open spec fn verify_http_post(
    pre: PairingManager,
    post: PairingManager,
    req: PairConfirmRequest,
    now: u64,
    r: Result<PairConfirmResponse, PairingErrorSimple>,
) -> bool {
    match resolve_target(pre.sessions@, req) {
        Err(e) => post.sessions@ == pre.sessions@ && (match r {
            Err(se) => se.error@ == spec_public_label(e),
            Ok(_) => false,
        }),
        Ok(i) => {
            let step = verify_step(pre.sessions@[i], req, now);
            post.sessions@ == pre.sessions@.update(i, step.0) && (match step.1 {
                Err(e) => (match r {
                    Err(se) => se.error@ == spec_public_label(e),
                    Ok(_) => false,
                }),
                Ok(_) => (match r {
                    Ok(resp) => resp.desktop_device_id == pre.device_id && token_ok(
                        resp.session_token,
                    ) && resp.shared_secret is None,
                    Err(_) => false,
                }),
            })
        },
    }
}

impl PairingManager {
    /// Verifies a pairing attempt at time `now` (Unix seconds).  See
    /// `verify_step` for the decision order; on success the session records
    /// the remote identity and the caller receives a fresh session token.
    pub fn verify(&mut self, request: &PairConfirmRequest, now: u64) -> (r: Result<
        PairConfirmResponseInternal,
        PairingError,
    >)
        requires
            old(self).wf(),
        ensures
            final(self).wf(),
            final(self).device_id == old(self).device_id,
            final(self).device_name == old(self).device_name,
            verify_post(*old(self), *final(self), *request, now, r),
    {
        let ghost pre_ss = self.sessions@;
        let target: usize = match &request.pairing_id {
            Some(id) => match self.find_index(id.as_str()) {
                Some(i) => i,
                None => {
                    return Err(PairingError::not_found());
                },
            },
            None => match request.method {
                PairingMethod::QR => {
                    return Err(PairingError::not_found());
                },
                PairingMethod::Code => match &request.code {
                    None => {
                        return Err(PairingError::missing_code());
                    },
                    Some(c) => {
                        let code_hash = Self::hash_code(c.as_str());
                        match self.find_pending_by_hash(&code_hash) {
                            Some(i) => i,
                            None => {
                                return Err(PairingError::invalid_code());
                            },
                        }
                    },
                },
            },
        };
        proof {
            assert(resolve_target(pre_ss, *request) == Ok::<int, PairingError>(target as int));
        }
        let ghost s0 = pre_ss[target as int];

        // Already paired?
        let is_verified = match self.sessions[target].status {
            PairingStatus::Verified => true,
            _ => false,
        };
        if is_verified {
            proof {
                assert(pre_ss.update(target as int, s0) =~= pre_ss);
            }
            return Err(PairingError::already_paired());
        }

        // Expired?
        if now > self.sessions[target].expires_at {
            let sref = &mut self.sessions[target];
            sref.status = PairingStatus::Expired;
            proof {
                assert(self.sessions@[target as int] == with_status(s0, PairingStatus::Expired));
            }
            return Err(PairingError::expired());
        }

        // Rate limit: reject before the attempt counter moves.
        match Self::check_rate_limit(&self.sessions[target], now) {
            Err(e) => {
                proof {
                    assert(pre_ss.update(target as int, s0) =~= pre_ss);
                }
                return Err(e);
            },
            Ok(_) => {},
        }

        // Record the attempt.
        let sref = &mut self.sessions[target];
        sref.attempts = sref.attempts + 1;
        sref.last_attempt_at = Some(now);
        proof {
            assert(self.sessions@[target as int] == record_attempt(s0, now));
            assert(self.sessions@ == pre_ss.update(target as int, record_attempt(s0, now)));
        }

        // Compare the supplied credential in constant time.
        let verified = match request.method {
            PairingMethod::Code => match &request.code {
                None => {
                    return Err(PairingError::missing_code());
                },
                Some(c) => Self::verify_code(
                    self.sessions[target].code_hash.as_slice(),
                    c.as_str(),
                ),
            },
            PairingMethod::QR => match &request.nonce {
                None => {
                    return Err(PairingError::missing_nonce());
                },
                Some(n) => Self::verify_nonce(self.sessions[target].nonce.as_str(), n.as_str()),
            },
        };
        proof {
            assert(verified == cred_matches(s0, *request));
        }

        if !verified {
            if self.sessions[target].attempts >= 5 {
                let sref = &mut self.sessions[target];
                sref.status = PairingStatus::Failed;
                proof {
                    assert(self.sessions@[target as int] == with_status(
                        record_attempt(s0, now),
                        PairingStatus::Failed,
                    ));
                    assert(self.sessions@ =~= pre_ss.update(
                        target as int,
                        with_status(record_attempt(s0, now), PairingStatus::Failed),
                    ));
                }
                return Err(PairingError::too_many_attempts());
            }
            return Err(
                match request.method {
                    PairingMethod::Code => PairingError::invalid_code(),
                    PairingMethod::QR => PairingError::invalid_nonce(),
                },
            );
        }

        // Success: mark verified and mint the session token.
        let sref = &mut self.sessions[target];
        sref.status = PairingStatus::Verified;
        sref.paired_device_id = Some(request.device_id.clone());
        sref.paired_device_name = Some(request.device_name.clone());
        proof {
            assert(self.sessions@[target as int] == mark_verified(
                record_attempt(s0, now),
                *request,
            ));
            assert(self.sessions@ =~= pre_ss.update(
                target as int,
                mark_verified(record_attempt(s0, now), *request),
            ));
        }
        let token = Self::generate_token();
        Ok(
            PairConfirmResponseInternal {
                paired_device_id: request.device_id.clone(),
                desktop_device_id: self.device_id.clone(),
                token,
                desktop_name: self.device_name.clone(),
            },
        )
    }

    /// Verifies a pairing attempt and answers in the public wire shape,
    /// collapsing internal errors to the restricted vocabulary.
    pub fn verify_http(&mut self, request: &PairConfirmRequest, now: u64) -> (r: Result<
        PairConfirmResponse,
        PairingErrorSimple,
    >)
        requires
            old(self).wf(),
        ensures
            final(self).wf(),
            final(self).device_id == old(self).device_id,
            final(self).device_name == old(self).device_name,
            verify_http_post(*old(self), *final(self), *request, now, r),
    {
        match self.verify(request, now) {
            Ok(internal) => Ok(
                PairConfirmResponse {
                    desktop_device_id: internal.desktop_device_id,
                    session_token: internal.token,
                    shared_secret: None,
                },
            ),
            Err(e) => Err(e.to_simple()),
        }
    }
}

/// A pending, unexpired session with attempts left, outside its cooldown,
/// met with the matching credential, is verified by a single attempt: the
/// session comes out `Verified` with the remote identity recorded.
pub proof fn lemma_correct_attempt_verifies(s: PairingSession, req: PairConfirmRequest, now: u64)
    requires
        s.status == PairingStatus::Pending,
        now <= s.expires_at,
        spec_rate_limit(s, now) is Ok,
        cred_present(req),
        cred_matches(s, req),
    ensures
        verify_step(s, req, now).1 is Ok,
        verify_step(s, req, now).0.status == PairingStatus::Verified,
        verify_step(s, req, now).0.paired_device_id == Some(req.device_id),
        verify_step(s, req, now).0.paired_device_name == Some(req.device_name),
{
}

/// Once a session is `Verified`, every further attempt — at any later time,
/// with any credential — fails with `AlreadyPaired` and leaves the session
/// unchanged.
pub proof fn lemma_verified_rejects_repeat(s: PairingSession, req: PairConfirmRequest, now: u64)
    requires
        s.status == PairingStatus::Verified,
    ensures
        verify_step(s, req, now).0 == s,
        verify_step(s, req, now).1 == Err::<(), PairingError>(PairingError::AlreadyPaired),
{
}

/// A correct attempt verifies the session, and repeating the confirmation —
/// any credential, any later time — is rejected with `AlreadyPaired` without
/// touching the session again.
pub proof fn lemma_verify_then_repeat(
    s: PairingSession,
    req: PairConfirmRequest,
    now: u64,
    req2: PairConfirmRequest,
    now2: u64,
)
    requires
        s.status == PairingStatus::Pending,
        now <= s.expires_at,
        spec_rate_limit(s, now) is Ok,
        cred_present(req),
        cred_matches(s, req),
    ensures
        verify_step(s, req, now).1 is Ok,
        verify_step(verify_step(s, req, now).0, req2, now2).0 == verify_step(s, req, now).0,
        verify_step(verify_step(s, req, now).0, req2, now2).1 == Err::<(), PairingError>(
            PairingError::AlreadyPaired,
        ),
{
    lemma_correct_attempt_verifies(s, req, now);
    lemma_verified_rejects_repeat(verify_step(s, req, now).0, req2, now2);
}

/// An attempt made during the cooldown window — three or more attempts, the
/// last one under thirty seconds ago — fails with `RateLimited` carrying the
/// seconds left to wait, and does not consume the session: the attempt
/// counter and the whole record stay as they were.
pub proof fn lemma_cooldown_rejects_without_consuming(
    s: PairingSession,
    req: PairConfirmRequest,
    now: u64,
    t: u64,
)
    requires
        s.status == PairingStatus::Pending,
        now <= s.expires_at,
        3 <= s.attempts < 5,
        s.last_attempt_at == Some(t),
        spec_elapsed(t, now) < 30,
    ensures
        verify_step(s, req, now).0 == s,
        verify_step(s, req, now).1 == Err::<(), PairingError>(
            PairingError::RateLimited((30 - spec_elapsed(t, now)) as u64),
        ),
        1 <= 30 - spec_elapsed(t, now) <= 30,
{
}

/// Once the cooldown has elapsed, a wrong attempt is processed normally: it
/// increments the attempt counter, records the new attempt time and fails
/// with the method's mismatch error while the session stays pending.
pub proof fn lemma_after_cooldown_wrong_attempt_counts(
    s: PairingSession,
    req: PairConfirmRequest,
    now: u64,
    t: u64,
)
    requires
        s.status == PairingStatus::Pending,
        now <= s.expires_at,
        s.attempts == 3,
        s.last_attempt_at == Some(t),
        spec_elapsed(t, now) >= 30,
        cred_present(req),
        !cred_matches(s, req),
    ensures
        verify_step(s, req, now).0.attempts == 4,
        verify_step(s, req, now).0.last_attempt_at == Some(now),
        verify_step(s, req, now).0.status == PairingStatus::Pending,
        verify_step(s, req, now).1 == Err::<(), PairingError>(spec_mismatch_error(req.method)),
{
}

/// The fifth failed attempt is terminal: the session transitions to `Failed`
/// and the caller sees `TooManyAttempts`.
pub proof fn lemma_fifth_failure_is_terminal(s: PairingSession, req: PairConfirmRequest, now: u64)
    requires
        s.status == PairingStatus::Pending,
        now <= s.expires_at,
        s.attempts == 4,
        spec_rate_limit(s, now) is Ok,
        cred_present(req),
        !cred_matches(s, req),
    ensures
        verify_step(s, req, now).0.status == PairingStatus::Failed,
        verify_step(s, req, now).0.attempts == 5,
        verify_step(s, req, now).1 == Err::<(), PairingError>(PairingError::TooManyAttempts),
{
}

/// A spent session — five attempts used, not verified, not yet expired —
/// rejects every further attempt with `TooManyAttempts`, even a correct one,
/// and never changes again.
pub proof fn lemma_spent_session_rejects_all(s: PairingSession, req: PairConfirmRequest, now: u64)
    requires
        s.status != PairingStatus::Verified,
        now <= s.expires_at,
        s.attempts >= 5,
    ensures
        verify_step(s, req, now).0 == s,
        verify_step(s, req, now).1 == Err::<(), PairingError>(PairingError::TooManyAttempts),
{
}

} // verus!

