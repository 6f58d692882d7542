//! Access to the operating system's cryptographically secure random source.
//!
//! Randomness cannot be pinned down by a contract: the wrappers here state
//! only what holds of every outcome (ranges and lengths).  Uniformity of the
//! draws is the random source's own guarantee.

use rand::Rng;
use rand::RngCore;
use vstd::prelude::*;

verus! {

/// Relies on `rand::Rng::gen_range` over `rand::rngs::OsRng`: returns a
/// uniformly distributed value below `bound`.
#[verifier::external_body]
pub fn random_u32_below(bound: u32) -> (r: u32)
    requires
        bound > 0,
    ensures
        r < bound,
{
    rand::rngs::OsRng.gen_range(0..bound)
}

/// Relies on `rand::RngCore::fill_bytes` over `rand::rngs::OsRng`: fills a
/// buffer of exactly `n` bytes with random data.
#[verifier::external_body]
pub fn random_bytes(n: usize) -> (r: Vec<u8>)
    ensures
        r@.len() == n,
{
    let mut buf = vec![0u8; n];
    rand::rngs::OsRng.fill_bytes(&mut buf);
    buf
}

} // verus!
