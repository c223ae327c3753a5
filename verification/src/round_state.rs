//! The round state machine.
//!
//! It drives a validator through a monotonically increasing sequence of
//! rounds: certificates carried by a `SyncInfo` digest advance the round
//! and emit a `NewRoundEvent`; local timeouts for the live round rearm the
//! round's deadline with a doubled multiplier; votes for the live round are
//! delegated to the pending-votes aggregator.
//!
//! Wall-clock reads, the timer task and all channels live with the caller:
//! every operation takes the current time as a plain value and records the
//! armed deadline, and the caller schedules the timeout notification.

use vstd::prelude::*;
use crate::interval::{ExponentialTimeInterval, RoundTimeInterval};
use crate::pending_votes::{
    PartialSignatures, PendingVotes, QcAggregatorMode, Vote, VoteReceptionResult,
};
use crate::validator_verifier::ValidatorVerifier;

verus! {

/// A reason for starting a new round.
#[derive(Clone, Copy, PartialEq, Eq, Structural, Debug)]
pub enum NewRoundReason {
    /// A quorum certificate for the previous round was observed.
    QCReady,
    /// Only a timeout certificate advanced the round.
    Timeout,
}

/// Digest of the highest rounds known to the caller: the largest round
/// with a quorum certificate, the largest with a timeout certificate, and
/// the largest round locally ordered for commit.
#[derive(Clone, Copy, PartialEq, Eq, Structural, Debug)]
pub struct SyncInfo {
    /// Largest round with a known quorum certificate.
    pub highest_certified_round: u64,
    /// Largest round with a known timeout certificate.
    pub highest_timeout_round: u64,
    /// Largest round whose block was ordered for commit.
    pub highest_ordered_round: u64,
}

impl SyncInfo {
    /// An ordered round always carries a quorum certificate.
    pub open spec fn wf(&self) -> bool {
        self.highest_ordered_round <= self.highest_certified_round
    }

    /// The larger of the certified and the timeout round.
    pub open spec fn spec_highest_round(&self) -> int {
        if self.highest_certified_round >= self.highest_timeout_round {
            self.highest_certified_round as int
        } else {
            self.highest_timeout_round as int
        }
    }

    /// The larger of the certified and the timeout round.
    pub fn highest_round(&self) -> (r: u64)
        ensures
            r == self.spec_highest_round(),
    {
        if self.highest_certified_round >= self.highest_timeout_round {
            self.highest_certified_round
        } else {
            self.highest_timeout_round
        }
    }
}

/// Emitted on every round advance. The duration is informational; the
/// carried-over aggregates are the previous round's residue, for
/// diagnostics.
#[derive(PartialEq, Eq, Clone, Debug)]
pub struct NewRoundEvent {
    /// The round that just became live.
    pub round: u64,
    /// Why it started.
    pub reason: NewRoundReason,
    /// The timeout duration armed for it, in milliseconds.
    pub timeout_ms: u64,
    /// The previous round's partial per-hash aggregates, by move.
    pub prev_round_votes: Vec<(u64, PartialSignatures)>,
    /// The previous round's partial timeout aggregate, by move.
    pub prev_round_timeout_votes: Option<PartialSignatures>,
}

/// A delayed-QC message: carries the vote that first reached quorum back
/// into the aggregator after the delay window.
#[derive(Clone, Copy, PartialEq, Eq, Structural, Debug)]
pub struct DelayedQcMsg {
    /// The vote that reached quorum.
    pub vote: Vote,
}

/// `a * b`, saturating at `u64::MAX`.
pub open spec fn spec_sat_mul(a: int, b: int) -> int {
    if a * b > u64::MAX {
        u64::MAX as int
    } else {
        a * b
    }
}

/// `a + b`, saturating at `u64::MAX`.
pub open spec fn spec_sat_add(a: int, b: int) -> int {
    if a + b > u64::MAX {
        u64::MAX as int
    } else {
        a + b
    }
}

/// The round index handed to the duration policy: rounds since the last
/// ordered round, under the 3-chain commit rule. Before the first commit
/// the rule does not apply and the index counts from round 1.
pub open spec fn spec_round_index(current_round: int, highest_ordered_round: int) -> int {
    if highest_ordered_round == 0 {
        if current_round >= 1 {
            current_round - 1
        } else {
            0
        }
    } else if current_round < highest_ordered_round + 3 {
        0
    } else {
        current_round - highest_ordered_round - 3
    }
}

/// Tracks the live round and moves forward when it receives new
/// certificates. A round `r` starts when a quorum or timeout certificate
/// for round `r - 1` is observed.
pub struct RoundState {
    /// The per-round duration policy.
    pub time_interval: ExponentialTimeInterval,
    /// Highest known ordered round, as reported by the caller.
    pub highest_ordered_round: u64,
    /// The live round: `max(highest_qc, highest_tc) + 1`.
    pub current_round: u64,
    /// Deadline of the live round, milliseconds since the epoch;
    /// `u64::MAX` while no timer was ever armed.
    pub current_round_deadline_ms: u64,
    /// Votes received for the live round.
    pub pending_votes: PendingVotes,
    /// The local vote sent for the live round, if any.
    pub vote_sent: Option<Vote>,
    /// Multiplier applied to the round's duration; doubles on every local
    /// timeout within a stuck round.
    pub timeout_multiplier: u64,
    /// How the aggregator materializes quorum certificates.
    pub qc_aggregator_mode: QcAggregatorMode,
}

impl RoundState {
    /// The state machine's invariant: a well-formed duration policy and
    /// aggregator, a recorded local vote only for the live round, a live
    /// round never behind the ordered round, and a positive multiplier.
    pub open spec fn wf(&self) -> bool {
        &&& self.time_interval.wf()
        &&& self.pending_votes.wf()
        &&& self.pending_votes.mode == self.qc_aggregator_mode
        &&& (self.vote_sent matches Some(v) ==> v.vote_data.proposed_round == self.current_round)
        &&& self.current_round >= self.highest_ordered_round
        &&& self.timeout_multiplier >= 1
    }

    /// The duration armed when the machine in state `s` arms its timer
    /// with multiplier `mult`.
    pub open spec fn spec_armed_duration(s: RoundState, mult: int) -> int {
        spec_sat_mul(
            s.time_interval.spec_duration_ms(
                spec_round_index(s.current_round as int, s.highest_ordered_round as int) as nat,
            ),
            mult,
        )
    }

    /// A fresh machine: round 0, nothing ordered, no timer armed (the
    /// deadline sentinel is the far future), an empty aggregator.
    pub fn new(time_interval: ExponentialTimeInterval, qc_aggregator_mode: QcAggregatorMode) -> (r:
        RoundState)
        requires
            time_interval.wf(),
        ensures
            r.wf(),
            r.time_interval == time_interval,
            r.highest_ordered_round == 0,
            r.current_round == 0,
            r.current_round_deadline_ms == u64::MAX,
            r.pending_votes.spec_is_fresh(),
            r.vote_sent is None,
            r.timeout_multiplier == 1,
            r.qc_aggregator_mode == qc_aggregator_mode,
    {
        RoundState {
            time_interval,
            highest_ordered_round: 0,
            current_round: 0,
            current_round_deadline_ms: u64::MAX,
            pending_votes: PendingVotes::new(qc_aggregator_mode),
            vote_sent: None,
            timeout_multiplier: 1,
            qc_aggregator_mode,
        }
    }

    /// The live round.
    pub fn current_round(&self) -> (r: u64)
        ensures
            r == self.current_round,
    {
        self.current_round
    }

    /// The live round's deadline, milliseconds since the epoch.
    pub fn current_round_deadline(&self) -> (r: u64)
        ensures
            r == self.current_round_deadline_ms,
    {
        self.current_round_deadline_ms
    }

    /// The local vote sent for the live round, if any.
    pub fn vote_sent(&self) -> (r: Option<Vote>)
        ensures
            r == self.vote_sent,
    {
        self.vote_sent
    }

    /// Whether the local vote sent for the live round carries the timeout
    /// marker.
    pub fn is_vote_timeout(&self) -> (r: bool)
        ensures
            r == (self.vote_sent matches Some(v) && v.vote_data.is_timeout),
    {
        match &self.vote_sent {
            Some(v) => v.is_timeout(),
            None => false,
        }
    }

    /// Arms the round's timer: computes the round duration, applies the
    /// multiplier, and records `now + duration` as the round's deadline.
    /// Returns the armed duration for the caller to schedule.
    fn setup_timeout(&mut self, now_ms: u64, multiplier: u64) -> (timeout_ms: u64)
        requires
            old(self).wf(),
        ensures
            final(self).wf(),
            timeout_ms == Self::spec_armed_duration(*old(self), multiplier as int),
            *final(self) == (RoundState {
                current_round_deadline_ms: final(self).current_round_deadline_ms,
                ..*old(self)
            }),
            final(self).current_round_deadline_ms == spec_sat_add(
                now_ms as int,
                timeout_ms as int,
            ),
    {
        let idx_wide: u64 = round_index(self.current_round, self.highest_ordered_round);
        let duration = self.time_interval.get_round_duration(idx_wide);
        proof {
            assert((duration as int) * (multiplier as int) <= u128::MAX) by (nonlinear_arith)
                requires
                    0 <= duration <= u64::MAX,
                    0 <= multiplier <= u64::MAX,
            ;
        }
        let armed_wide: u128 = (duration as u128) * (multiplier as u128);
        let timeout_ms: u64 = if armed_wide > u64::MAX as u128 {
            u64::MAX
        } else {
            armed_wide as u64
        };
        let deadline: u64 = if now_ms > u64::MAX - timeout_ms {
            u64::MAX
        } else {
            now_ms + timeout_ms
        };
        self.current_round_deadline_ms = deadline;
        timeout_ms
    }

    /// Notifies the machine of potentially new certificates. The highest
    /// ordered round is taken over when larger; when the certificates
    /// prove a round above the live one, the machine advances to it:
    /// the old aggregator is drained into the event, a fresh one takes its
    /// place, the local vote is cleared, a timer is armed with multiplier
    /// one, and the event is emitted — with reason `QCReady` exactly when
    /// a quorum certificate for the immediately preceding round was the
    /// cause. Without an advance nothing but the ordered round changes and
    /// no event is emitted.
    pub fn process_certificates(&mut self, sync_info: SyncInfo, now_ms: u64) -> (r: Option<
        NewRoundEvent,
    >)
        requires
            old(self).wf(),
            sync_info.wf(),
            sync_info.spec_highest_round() < u64::MAX,
        ensures
            final(self).wf(),
            final(self).highest_ordered_round == (if sync_info.highest_ordered_round
                > old(self).highest_ordered_round {
                sync_info.highest_ordered_round
            } else {
                old(self).highest_ordered_round
            }),
            final(self).current_round >= old(self).current_round,
            r is Some <==> sync_info.spec_highest_round() + 1 > old(self).current_round,
            (r is None ==> *final(self) == (RoundState {
                highest_ordered_round: final(self).highest_ordered_round,
                ..*old(self)
            })),
            (r matches Some(e) ==> {
                &&& final(self).current_round == sync_info.spec_highest_round() + 1
                &&& e.round == final(self).current_round
                &&& e.reason == (if sync_info.highest_certified_round + 1
                    == final(self).current_round {
                    NewRoundReason::QCReady
                } else {
                    NewRoundReason::Timeout
                })
                &&& e.prev_round_votes@ == old(self).pending_votes.regular_aggregates@
                &&& e.prev_round_timeout_votes == old(self).pending_votes.timeout_aggregate
                &&& final(self).pending_votes.spec_is_fresh()
                &&& final(self).pending_votes.mode == old(self).qc_aggregator_mode
                &&& final(self).vote_sent is None
                &&& final(self).timeout_multiplier == 1
                &&& final(self).qc_aggregator_mode == old(self).qc_aggregator_mode
                &&& final(self).time_interval == old(self).time_interval
                &&& e.timeout_ms == Self::spec_armed_duration(
                    (RoundState {
                        current_round: e.round,
                        highest_ordered_round: final(self).highest_ordered_round,
                        ..*old(self)
                    }),
                    1,
                )
                &&& final(self).current_round_deadline_ms == spec_sat_add(
                    now_ms as int,
                    e.timeout_ms as int,
                )
            }),
    {
        if sync_info.highest_ordered_round > self.highest_ordered_round {
            self.highest_ordered_round = sync_info.highest_ordered_round;
        }
        let new_round = sync_info.highest_round() + 1;
        if new_round > self.current_round {
            // start a new round: drain the old aggregator and replace it
            let mut drained = PendingVotes::new(self.qc_aggregator_mode);
            core::mem::swap(&mut self.pending_votes, &mut drained);
            let (prev_round_votes, prev_round_timeout_votes) = drained.drain_votes();

            self.current_round = new_round;
            self.vote_sent = None;
            self.timeout_multiplier = 1;
            let timeout_ms = self.setup_timeout(now_ms, 1);
            let reason = if sync_info.highest_certified_round + 1 == new_round {
                NewRoundReason::QCReady
            } else {
                NewRoundReason::Timeout
            };
            return Some(
                NewRoundEvent {
                    round: new_round,
                    reason,
                    timeout_ms,
                    prev_round_votes,
                    prev_round_timeout_votes,
                },
            );
        }
        None
    }

    /// Handles a local-timeout notification. A stale round is ignored and
    /// reported `false`; the live round doubles the multiplier, rearms the
    /// timer, and is reported `true`.
    pub fn process_local_timeout(&mut self, round: u64, now_ms: u64) -> (r: bool)
        requires
            old(self).wf(),
        ensures
            final(self).wf(),
            r <==> round == old(self).current_round,
            (!r ==> *final(self) == *old(self)),
            (r ==> ({
                let m2 = (if old(self).timeout_multiplier > u64::MAX / 2 {
                    u64::MAX as int
                } else {
                    2 * old(self).timeout_multiplier
                });
                &&& final(self).timeout_multiplier == m2
                &&& *final(self) == (RoundState {
                    timeout_multiplier: final(self).timeout_multiplier,
                    current_round_deadline_ms: final(self).current_round_deadline_ms,
                    ..*old(self)
                })
                &&& final(self).current_round_deadline_ms == spec_sat_add(
                    now_ms as int,
                    Self::spec_armed_duration(*old(self), m2),
                )
            })),
    {
        if round != self.current_round {
            return false;
        }
        let m2: u64 = if self.timeout_multiplier > u64::MAX / 2 {
            u64::MAX
        } else {
            2 * self.timeout_multiplier
        };
        self.timeout_multiplier = m2;
        let _timeout_ms = self.setup_timeout(now_ms, m2);
        true
    }

    /// Hands a remote vote for the live round to the aggregator; a vote
    /// for any other round is rejected as `UnexpectedRound` and changes
    /// nothing.
    pub fn insert_vote(&mut self, vote: &Vote, vv: &ValidatorVerifier) -> (r: VoteReceptionResult)
        requires
            old(self).wf(),
            vv.wf(),
        ensures
            final(self).wf(),
            (vote.vote_data.proposed_round != old(self).current_round ==> r
                == VoteReceptionResult::UnexpectedRound(
                vote.vote_data.proposed_round,
                old(self).current_round,
            ) && *final(self) == *old(self)),
            (vote.vote_data.proposed_round == old(self).current_round ==> {
                &&& PendingVotes::spec_insert_post(
                    old(self).pending_votes,
                    final(self).pending_votes,
                    *vote,
                    *vv,
                    r,
                )
                &&& *final(self) == (RoundState {
                    pending_votes: final(self).pending_votes,
                    ..*old(self)
                })
            }),
    {
        if vote.proposed_round() == self.current_round {
            self.pending_votes.insert_vote(vote, vv)
        } else {
            VoteReceptionResult::UnexpectedRound(vote.proposed_round(), self.current_round)
        }
    }

    /// Records the local node's own vote, to avoid double-voting; only a
    /// vote for the live round is kept.
    pub fn record_vote(&mut self, vote: Vote)
        requires
            old(self).wf(),
        ensures
            final(self).wf(),
            (vote.vote_data.proposed_round == old(self).current_round ==> *final(self)
                == (RoundState { vote_sent: Some(vote), ..*old(self) })),
            (vote.vote_data.proposed_round != old(self).current_round
                ==> *final(self) == *old(self)),
    {
        if vote.proposed_round() == self.current_round {
            self.vote_sent = Some(vote);
        }
    }

    /// Re-enters the aggregator for a delayed-QC message. A message whose
    /// vote is not for the live round is dropped as `UnexpectedRound`.
    pub fn process_delayed_qc_msg(&mut self, vv: &ValidatorVerifier, msg: DelayedQcMsg) -> (r:
        VoteReceptionResult)
        requires
            old(self).wf(),
            vv.wf(),
        ensures
            final(self).wf(),
            (msg.vote.vote_data.proposed_round != old(self).current_round ==> r
                == VoteReceptionResult::UnexpectedRound(
                msg.vote.vote_data.proposed_round,
                old(self).current_round,
            ) && *final(self) == *old(self)),
            (msg.vote.vote_data.proposed_round == old(self).current_round ==> {
                &&& PendingVotes::spec_delayed_post(
                    old(self).pending_votes,
                    final(self).pending_votes,
                    msg.vote,
                    *vv,
                    r,
                )
                &&& *final(self) == (RoundState {
                    pending_votes: final(self).pending_votes,
                    ..*old(self)
                })
            }),
    {
        let vote = msg.vote;
        if vote.proposed_round() == self.current_round {
            self.pending_votes.process_delayed_qc(vv, &vote)
        } else {
            VoteReceptionResult::UnexpectedRound(vote.proposed_round(), self.current_round)
        }
    }
}

/// The round index handed to the duration policy.
fn round_index(current_round: u64, highest_ordered_round: u64) -> (r: u64)
    requires
        current_round >= highest_ordered_round,
    ensures
        r == spec_round_index(current_round as int, highest_ordered_round as int),
{
    if highest_ordered_round == 0 {
        if current_round >= 1 {
            current_round - 1
        } else {
            0
        }
    } else if current_round - highest_ordered_round < 3 {
        0
    } else {
        current_round - highest_ordered_round - 3
    }
}

/// New-round events are strictly monotonic in their round. Every operation
/// of the machine keeps `current_round` non-decreasing (see each
/// operation's contract), so for any two advances of one machine — however
/// many other operations run in between — the state before the later
/// advance is at least at the round the earlier advance reached, and the
/// later event carries a strictly larger round.
pub proof fn lemma_new_round_events_strictly_increasing(
    pre1: RoundState,
    si1: SyncInfo,
    post1: RoundState,
    e1: NewRoundEvent,
    pre2: RoundState,
    si2: SyncInfo,
    post2: RoundState,
    e2: NewRoundEvent,
)
    requires
        si1.spec_highest_round() + 1 > pre1.current_round,
        post1.current_round == si1.spec_highest_round() + 1,
        e1.round == post1.current_round,
        si2.spec_highest_round() + 1 > pre2.current_round,
        post2.current_round == si2.spec_highest_round() + 1,
        e2.round == post2.current_round,
        post1.current_round <= pre2.current_round,
    ensures
        e1.round < e2.round,
{
}

} // verus!
