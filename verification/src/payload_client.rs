//! The payload-pull client's decision logic.
//!
//! A proposer asks the payload provider for a batch of transactions and
//! waits for it within a bound. The request/response exchange, the await
//! and the sleep between retries are the caller's; everything the client
//! decides — the back-pressure heuristic, the flag sent with the request,
//! whether an empty payload is retried, and the one-shot wait callback —
//! is computed here over plain values.
//!
//! Fill fractions are carried in parts per thousand of a full block.

use vstd::prelude::*;

verus! {

/// Milliseconds slept between retries when the provider returned an empty
/// payload that the client does not want to accept yet.
pub const NO_TXN_DELAY_MS: u64 = 30;

/// Errors the pull path produces.
#[derive(Clone, Copy, PartialEq, Eq, Structural, Debug)]
pub enum QuorumStoreError {
    /// The provider did not answer within `pull_timeout_ms`, or its
    /// channel is closed.
    CouldNotGetData,
    /// An injected or wrapped lower-layer failure.
    InternalFailure,
}

/// What the caller must do after handing a response to the tracker.
#[derive(Clone, Copy, PartialEq, Eq, Structural, Debug)]
pub enum PullDecision {
    /// Accept the payload and stop polling.
    Finish,
    /// Retry: first run the wait callback if asked (it fires at most once
    /// per pull), then sleep and issue the request again.
    RetryAfter {
        /// Milliseconds to sleep before the retry.
        sleep_ms: u64,
        /// Whether the one-shot wait callback must run now.
        invoke_wait_callback: bool,
    },
}

/// Configuration of the payload-pull client.
pub struct QuorumStoreClient {
    /// Bound on one request/response exchange, in milliseconds.
    pub pull_timeout_ms: u64,
    /// A recent fill fraction at or above this threshold (parts per
    /// thousand) makes the client wait for full blocks.
    pub wait_for_full_blocks_above_recent_fill_threshold_permille: u32,
    /// This many pending uncommitted blocks or more makes the client wait
    /// for full blocks.
    pub wait_for_full_blocks_above_pending_blocks: usize,
}

/// The decision state of one pull, stepped by the caller through the
/// retry loop.
pub struct PullTracker {
    /// Whether the provider may answer with a non-full payload.
    pub return_non_full: bool,
    /// Whether an empty payload is acceptable right away.
    pub return_empty: bool,
    /// Soft bound on the whole poll, in milliseconds.
    pub max_poll_time_ms: u64,
    /// Whether the one-shot wait callback has already run.
    pub wait_callback_invoked: bool,
}

impl QuorumStoreClient {
    /// Builds the client configuration.
    pub fn new(
        pull_timeout_ms: u64,
        wait_for_full_blocks_above_recent_fill_threshold_permille: u32,
        wait_for_full_blocks_above_pending_blocks: usize,
    ) -> (r: QuorumStoreClient)
        ensures
            r == (QuorumStoreClient {
                pull_timeout_ms,
                wait_for_full_blocks_above_recent_fill_threshold_permille,
                wait_for_full_blocks_above_pending_blocks,
            }),
    {
        QuorumStoreClient {
            pull_timeout_ms,
            wait_for_full_blocks_above_recent_fill_threshold_permille,
            wait_for_full_blocks_above_pending_blocks,
        }
    }

    /// The back-pressure heuristic: a non-full payload is acceptable while
    /// recent blocks were not filling up and few proposals are in flight.
    pub open spec fn spec_return_non_full(
        &self,
        recent_max_fill_fraction_permille: u32,
        pending_uncommitted_blocks: usize,
    ) -> bool {
        &&& recent_max_fill_fraction_permille
            < self.wait_for_full_blocks_above_recent_fill_threshold_permille
        &&& pending_uncommitted_blocks < self.wait_for_full_blocks_above_pending_blocks
    }

    /// Opens one pull: fixes the heuristic flags for its whole retry loop.
    /// An empty payload is acceptable right away exactly when proposals
    /// are already in flight and a non-full payload is acceptable.
    pub fn start_pull(
        &self,
        max_poll_time_ms: u64,
        pending_ordering: bool,
        pending_uncommitted_blocks: usize,
        recent_max_fill_fraction_permille: u32,
    ) -> (t: PullTracker)
        ensures
            t.return_non_full == self.spec_return_non_full(
                recent_max_fill_fraction_permille,
                pending_uncommitted_blocks,
            ),
            t.return_empty == (pending_ordering && t.return_non_full),
            t.max_poll_time_ms == max_poll_time_ms,
            !t.wait_callback_invoked,
    {
        let return_non_full = recent_max_fill_fraction_permille
            < self.wait_for_full_blocks_above_recent_fill_threshold_permille
            && pending_uncommitted_blocks < self.wait_for_full_blocks_above_pending_blocks;
        let return_empty = pending_ordering && return_non_full;
        PullTracker {
            return_non_full,
            return_empty,
            max_poll_time_ms,
            wait_callback_invoked: false,
        }
    }

    /// The value observed by the wait-for-full-blocks metric: one exactly
    /// when the client insists on full blocks.
    pub fn wait_for_full_blocks_observation(&self, t: &PullTracker) -> (r: u64)
        ensures
            r == (if t.return_non_full {
                0int
            } else {
                1int
            }),
    {
        if t.return_non_full {
            0
        } else {
            1
        }
    }
}

impl PullTracker {
    /// Whether the poll's soft time bound is spent.
    pub open spec fn spec_done(&self, elapsed_ms: u64) -> bool {
        elapsed_ms >= self.max_poll_time_ms
    }

    /// The non-full flag carried by the next request: the provider may
    /// answer non-full when the heuristic allows it, when an empty answer
    /// is acceptable anyway, or when the poll's time bound is spent.
    pub fn request_return_non_full(&self, elapsed_ms: u64) -> (r: bool)
        ensures
            r == (self.return_non_full || self.return_empty || self.spec_done(elapsed_ms)),
    {
        self.return_non_full || self.return_empty || elapsed_ms >= self.max_poll_time_ms
    }

    /// Decides what to do with a payload the provider answered: an empty
    /// payload is retried — after the one-shot wait callback and a short
    /// sleep — unless an empty payload is acceptable or the poll's time
    /// bound is spent; anything else is accepted. Once the bound is spent
    /// no retry is ever decided, so the loop's length is bounded by the
    /// caller's clock.
    pub fn on_response(&mut self, elapsed_ms: u64, payload_len: usize) -> (d: PullDecision)
        ensures
            ({
                let retry = payload_len == 0 && !old(self).return_empty && !old(self).spec_done(
                    elapsed_ms,
                );
                &&& (retry ==> d == PullDecision::RetryAfter {
                    sleep_ms: NO_TXN_DELAY_MS,
                    invoke_wait_callback: !old(self).wait_callback_invoked,
                })
                &&& (!retry ==> d == PullDecision::Finish)
                &&& final(self).wait_callback_invoked == (old(self).wait_callback_invoked
                    || retry)
                &&& *final(self) == (PullTracker {
                    wait_callback_invoked: final(self).wait_callback_invoked,
                    ..*old(self)
                })
            }),
    {
        let done = elapsed_ms >= self.max_poll_time_ms;
        if payload_len == 0 && !self.return_empty && !done {
            let invoke_wait_callback = !self.wait_callback_invoked;
            self.wait_callback_invoked = true;
            PullDecision::RetryAfter { sleep_ms: NO_TXN_DELAY_MS, invoke_wait_callback }
        } else {
            PullDecision::Finish
        }
    }
}

} // verus!
