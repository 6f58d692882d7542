//! Verified core of a local-network pairing and sync service.
//!
//! Two trusted devices on one network discover each other, establish trust
//! through a short-lived pairing ceremony (six-digit code or QR deep link),
//! and then exchange opaque operation records over a small HTTP protocol.
//! This crate holds the logic of that protocol — the pairing state machine,
//! the pull/push exchange, passphrase-based bundle encryption, the paired
//! device registry and the discovery record handling — with contracts checked
//! by Verus.  Network, disk and timer plumbing live outside the crate and feed
//! plain values (timestamps, byte vectors, strings) into it.

pub mod crypto;
pub mod discovery;
pub mod encodings;
pub mod pairing;
pub mod persistence;
pub mod rng;
pub mod seqs;
pub mod server;
pub mod sync_ops;
pub mod text;
