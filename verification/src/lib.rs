//! Round-management core of a leader-based BFT consensus protocol.
//!
//! The crate drives a validator through a monotonically increasing sequence
//! of consensus rounds: it computes per-round timeout durations, ingests
//! remote votes, aggregates them into quorum or timeout certificates, and
//! emits a new-round event every time a certificate advances the round.
//! A small payload-pull state machine decides when a proposer should wait
//! for a fuller transaction payload and when it must give up.
//!
//! All wall-clock reads, timers, channels and network transport live with
//! the caller; every function here is a total, verified computation over
//! plain values.

pub mod interval;
pub mod payload_client;
pub mod pending_votes;
pub mod round_state;
pub mod tx_api;
pub mod validator_verifier;
