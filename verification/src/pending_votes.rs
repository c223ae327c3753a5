//! The pending-votes aggregator.
//!
//! It collects partial signatures from remote voters until a quorum is
//! reached for either a regular quorum certificate or a timeout certificate
//! for the round, deduplicates Byzantine re-submissions, surfaces
//! equivocation with a proof, and optionally delays the materialization of
//! a quorum certificate so that late signatures can still be batched in.

use vstd::prelude::*;
use crate::validator_verifier::ValidatorVerifier;

verus! {

/// The content a voter signs: the proposed block, its round, the parent it
/// extends, and an optional timeout marker.
#[derive(Clone, Copy, PartialEq, Eq, Structural, Debug)]
pub struct VoteData {
    /// Hash of the proposed block.
    pub proposed_block_hash: u64,
    /// Round of the proposed block.
    pub proposed_round: u64,
    /// Hash of the parent block.
    pub parent_block_hash: u64,
    /// Round of the parent block.
    pub parent_round: u64,
    /// Whether this vote also gives up on the round.
    pub is_timeout: bool,
}

/// Whether two vote-datas speak of the same proposal: equal on every
/// block-related field, the timeout marker left aside.
pub open spec fn spec_same_block(d1: VoteData, d2: VoteData) -> bool {
    &&& d1.proposed_block_hash == d2.proposed_block_hash
    &&& d1.proposed_round == d2.proposed_round
    &&& d1.parent_block_hash == d2.parent_block_hash
    &&& d1.parent_round == d2.parent_round
}

impl VoteData {
    /// Whether `self` and `other` speak of the same proposal, the timeout
    /// marker left aside.
    pub fn same_block(&self, other: &VoteData) -> (r: bool)
        ensures
            r == spec_same_block(*self, *other),
    {
        self.proposed_block_hash == other.proposed_block_hash && self.proposed_round
            == other.proposed_round && self.parent_block_hash == other.parent_block_hash
            && self.parent_round == other.parent_round
    }
}

/// A vote: the voter, the signed content, and the signature over it.
#[derive(Clone, Copy, PartialEq, Eq, Structural, Debug)]
pub struct Vote {
    /// The voter's address.
    pub author: u64,
    /// The signature over `vote_data`.
    pub signature: u64,
    /// The signed content.
    pub vote_data: VoteData,
}

impl Vote {
    /// Whether the vote carries the timeout marker.
    pub fn is_timeout(&self) -> (r: bool)
        ensures
            r == self.vote_data.is_timeout,
    {
        self.vote_data.is_timeout
    }

    /// The round of the proposed block.
    pub fn proposed_round(&self) -> (r: u64)
        ensures
            r == self.vote_data.proposed_round,
    {
        self.vote_data.proposed_round
    }
}

/// One voter's counted signature, with the voting power it carried when it
/// was counted.
#[derive(Clone, Copy, PartialEq, Eq, Structural, Debug)]
pub struct SignatureEntry {
    /// The voter.
    pub author: u64,
    /// The voter's signature.
    pub signature: u64,
    /// The voting power counted for this signature.
    pub power: u64,
}

/// A partial aggregate: the signatures collected so far.
#[derive(PartialEq, Eq, Clone, Debug)]
pub struct PartialSignatures {
    /// The counted signatures, in arrival order.
    pub signatures: Vec<SignatureEntry>,
}

/// Sum of the counted powers of a signature list.
pub open spec fn sig_sum(entries: Seq<SignatureEntry>) -> int
    decreases entries.len(),
{
    if entries.len() == 0 {
        0
    } else {
        entries[0].power + sig_sum(entries.drop_first())
    }
}

impl PartialSignatures {
    /// An empty aggregate.
    pub fn empty() -> (r: PartialSignatures)
        ensures
            r.signatures@ == Seq::<SignatureEntry>::empty(),
    {
        PartialSignatures { signatures: Vec::new() }
    }

    /// The aggregate's accumulated voting power.
    pub fn voting_power(&self) -> (r: u128)
        ensures
            r == sig_sum(self.signatures@),
    {
        let n = self.signatures.len();
        let mut sum: u128 = 0;
        let mut i: usize = 0;
        proof {
            lemma_sig_sum_bound(self.signatures@.skip(0));
            assert(self.signatures@.skip(0) =~= self.signatures@);
        }
        while i < n
            invariant
                n == self.signatures.len(),
                i <= n,
                sum + sig_sum(self.signatures@.skip(i as int)) == sig_sum(self.signatures@),
                sum <= i * (u64::MAX as int),
            decreases n - i,
        {
            proof {
                assert(self.signatures@.skip(i as int)[0] == self.signatures@[i as int]);
                assert(self.signatures@.skip(i as int).drop_first() =~= self.signatures@.skip(
                    i as int + 1,
                ));
                assert(i * (u64::MAX as int) + u64::MAX <= (i + 1) * (u64::MAX as int))
                    by (nonlinear_arith)
                ;
                assert((i + 1) * (u64::MAX as int) <= u128::MAX) by (nonlinear_arith)
                    requires
                        0 <= i + 1 <= usize::MAX,
                ;
            }
            sum = sum + self.signatures[i].power as u128;
            i = i + 1;
        }
        proof {
            assert(self.signatures@.skip(n as int).len() == 0);
        }
        sum
    }

    /// An element-for-element copy of the aggregate.
    pub fn copied(&self) -> (r: PartialSignatures)
        ensures
            r.signatures@ == self.signatures@,
    {
        let n = self.signatures.len();
        let mut out: Vec<SignatureEntry> = Vec::new();
        let mut i: usize = 0;
        while i < n
            invariant
                n == self.signatures.len(),
                i <= n,
                out@ == self.signatures@.take(i as int),
            decreases n - i,
        {
            out.push(self.signatures[i]);
            proof {
                assert(self.signatures@.take(i as int).push(self.signatures@[i as int])
                    =~= self.signatures@.take(i as int + 1));
            }
            i = i + 1;
        }
        proof {
            assert(self.signatures@.take(n as int) =~= self.signatures@);
        }
        PartialSignatures { signatures: out }
    }
}

/// A signature-list sum is nonnegative and bounded by the list's length
/// times the largest single power.
pub proof fn lemma_sig_sum_bound(entries: Seq<SignatureEntry>)
    ensures
        0 <= sig_sum(entries) <= entries.len() * (u64::MAX as int),
    decreases entries.len(),
{
    if entries.len() > 0 {
        lemma_sig_sum_bound(entries.drop_first());
        assert((entries.len() - 1) * (u64::MAX as int) + u64::MAX == entries.len() * (
        u64::MAX as int)) by (nonlinear_arith)
            requires
                entries.len() >= 1,
        ;
    }
}

/// Appending one entry adds exactly its power to the sum.
pub proof fn lemma_sig_sum_push(entries: Seq<SignatureEntry>, e: SignatureEntry)
    ensures
        sig_sum(entries.push(e)) == sig_sum(entries) + e.power,
    decreases entries.len(),
{
    let s2 = entries.push(e);
    assert(s2.len() == entries.len() + 1);
    assert(sig_sum(s2) == s2[0].power + sig_sum(s2.drop_first()));
    if entries.len() == 0 {
        assert(s2[0] == e);
        assert(s2.drop_first() =~= Seq::<SignatureEntry>::empty());
        assert(sig_sum(s2.drop_first()) == 0);
    } else {
        assert(s2[0] == entries[0]);
        assert(s2.drop_first() =~= entries.drop_first().push(e));
        lemma_sig_sum_push(entries.drop_first(), e);
        assert(sig_sum(s2.drop_first()) == sig_sum(entries.drop_first()) + e.power);
        assert(sig_sum(entries) == entries[0].power + sig_sum(entries.drop_first()));
    }
}

/// A fresh quorum certificate: proof that a quorum of voting power agreed
/// on one block at one round.
#[derive(PartialEq, Eq, Clone, Debug)]
pub struct QuorumCertificate {
    /// The certified round.
    pub round: u64,
    /// The certified block.
    pub block_hash: u64,
    /// The signatures it aggregates.
    pub signatures: PartialSignatures,
}

/// A fresh timeout certificate: proof that a quorum of voting power gave up
/// on one round.
#[derive(PartialEq, Eq, Clone, Debug)]
pub struct TimeoutCertificate {
    /// The abandoned round.
    pub round: u64,
    /// The signatures it aggregates.
    pub signatures: PartialSignatures,
}

/// Both signed vote-datas of an equivocating voter. The first signature
/// stays counted; the second is not.
#[derive(Clone, Copy, PartialEq, Eq, Structural, Debug)]
pub struct EquivocationProof {
    /// The equivocating voter.
    pub author: u64,
    /// The content of the vote that was counted.
    pub first_data: VoteData,
    /// The signature of the vote that was counted.
    pub first_signature: u64,
    /// The content of the conflicting vote.
    pub second_data: VoteData,
    /// The signature of the conflicting vote.
    pub second_signature: u64,
}

/// Why a vote was thrown away as malformed.
#[derive(Clone, Copy, PartialEq, Eq, Structural, Debug)]
pub enum MalformedReason {
    /// The claimed voter is not in the validator set.
    UnknownVoter,
    /// The voter is registered with zero voting power.
    ZeroVotingPower,
    /// The signature does not match the voter's registered key.
    InvalidSignature,
}

/// Outcome of handing one vote to the aggregator.
#[derive(PartialEq, Eq, Clone, Debug)]
pub enum VoteReceptionResult {
    /// Accepted; quorum not yet reached. Carries the accumulated power of
    /// the aggregate the vote joined.
    VoteAdded(u128),
    /// This vote produced a fresh quorum certificate.
    NewQuorumCertificate(QuorumCertificate),
    /// This vote produced a fresh timeout certificate.
    New2ChainTimeoutCertificate(TimeoutCertificate),
    /// The same voter already submitted this very vote-data.
    DuplicateVote,
    /// The same voter signed two conflicting vote-datas at the round.
    Equivocation(EquivocationProof),
    /// The vote's proposed round is not the current round: `(got, expected)`.
    UnexpectedRound(u64, u64),
    /// Signature invalid, unknown voter, or zero power.
    MalformedVote(MalformedReason),
    /// Quorum was reached, but the aggregator is delaying the certificate.
    VoteAddedQCDelayed,
}

/// When a quorum certificate is materialized: at the instant quorum is
/// reached, or only after a delayed-QC message makes it back.
#[derive(Clone, Copy, PartialEq, Eq, Structural, Debug)]
pub enum QcAggregatorMode {
    /// Materialize the certificate at the instant quorum is reached.
    Eager,
    /// On first reaching quorum, ask the caller to send a delayed-QC
    /// message and materialize only when it is processed, batching late
    /// signatures that arrive within the window.
    Delayed {
        /// The delay window, in milliseconds; timing is the caller's duty.
        window_ms: u64,
    },
}

/// The recorded vote of `author`, if any: vote-data and signature.
pub open spec fn spec_recorded_vote(ledger: Seq<(u64, VoteData, u64)>, author: u64) -> Option<
    (VoteData, u64),
>
    decreases ledger.len(),
{
    if ledger.len() == 0 {
        None
    } else if ledger[0].0 == author {
        Some((ledger[0].1, ledger[0].2))
    } else {
        spec_recorded_vote(ledger.drop_first(), author)
    }
}

/// The aggregate recorded for a block hash, if any.
pub open spec fn spec_agg_find(aggs: Seq<(u64, PartialSignatures)>, hash: u64) -> Option<
    PartialSignatures,
>
    decreases aggs.len(),
{
    if aggs.len() == 0 {
        None
    } else if aggs[0].0 == hash {
        Some(aggs[0].1)
    } else {
        spec_agg_find(aggs.drop_first(), hash)
    }
}

/// Accumulates partial signatures for one round, per proposed block hash,
/// with a single separate aggregate for timeout votes.
pub struct PendingVotes {
    /// Whether quorum certificates are materialized eagerly or delayed.
    pub mode: QcAggregatorMode,
    /// First vote-data and signature recorded per voter.
    pub author_votes: Vec<(u64, VoteData, u64)>,
    /// Partial aggregates per proposed block hash.
    pub regular_aggregates: Vec<(u64, PartialSignatures)>,
    /// The partial aggregate of timeout-flavored votes.
    pub timeout_aggregate: Option<PartialSignatures>,
    /// A quorum certificate was already materialized this round.
    pub qc_formed: bool,
    /// A timeout certificate was already materialized this round.
    pub tc_formed: bool,
    /// Quorum was reached and a delayed-QC message is outstanding.
    pub delayed_qc_pending: bool,
}

/// Why a vote is rejected without touching the aggregator, if it is.
pub open spec fn spec_vote_malformed(vv: ValidatorVerifier, vote: Vote) -> Option<
    MalformedReason,
> {
    match vv.spec_info_of(vote.author) {
        None => Some(MalformedReason::UnknownVoter),
        Some(info) => if info.voting_power == 0 {
            Some(MalformedReason::ZeroVotingPower)
        } else if vote.signature != info.public_key {
            Some(MalformedReason::InvalidSignature)
        } else {
            None
        },
    }
}

impl PendingVotes {
    /// No voter has two recorded votes, and no hash has two aggregates.
    pub open spec fn wf(&self) -> bool {
        &&& (forall|i: int, j: int|
            0 <= i < j < self.author_votes@.len() ==> self.author_votes@[i].0
                != self.author_votes@[j].0)
        &&& (forall|i: int, j: int|
            0 <= i < j < self.regular_aggregates@.len() ==> self.regular_aggregates@[i].0
                != self.regular_aggregates@[j].0)
    }

    /// A just-created aggregator: nothing recorded, nothing formed.
    pub open spec fn spec_is_fresh(&self) -> bool {
        &&& self.author_votes@.len() == 0
        &&& self.regular_aggregates@.len() == 0
        &&& self.timeout_aggregate is None
        &&& !self.qc_formed
        &&& !self.tc_formed
        &&& !self.delayed_qc_pending
    }

    /// The signatures aggregated for one block hash.
    pub open spec fn spec_hash_sigs(&self, hash: u64) -> Seq<SignatureEntry> {
        match spec_agg_find(self.regular_aggregates@, hash) {
            Some(ps) => ps.signatures@,
            None => Seq::empty(),
        }
    }

    /// The voting power aggregated for one block hash.
    pub open spec fn spec_hash_power(&self, hash: u64) -> int {
        sig_sum(self.spec_hash_sigs(hash))
    }

    /// The signatures aggregated for the round's timeout.
    pub open spec fn spec_timeout_sigs(&self) -> Seq<SignatureEntry> {
        match self.timeout_aggregate {
            Some(ps) => ps.signatures@,
            None => Seq::empty(),
        }
    }

    /// The voting power aggregated for the round's timeout.
    pub open spec fn spec_timeout_power(&self) -> int {
        sig_sum(self.spec_timeout_sigs())
    }

    /// How an accepted vote reshapes the aggregates: the vote is recorded,
    /// its entry joins the aggregate of its block hash, every other hash is
    /// untouched, and the timeout aggregate grows exactly for a
    /// timeout-flavored vote.
    pub open spec fn spec_accept_transition(
        pre: PendingVotes,
        post: PendingVotes,
        vote: Vote,
        power: u64,
    ) -> bool {
        let h = vote.vote_data.proposed_block_hash;
        let e = (SignatureEntry { author: vote.author, signature: vote.signature, power });
        &&& post.author_votes@ == pre.author_votes@.push(
            (vote.author, vote.vote_data, vote.signature),
        )
        &&& post.spec_hash_sigs(h) == pre.spec_hash_sigs(h).push(e)
        &&& (forall|h2: u64| h2 != h ==> post.spec_hash_sigs(h2) == pre.spec_hash_sigs(h2))
        &&& (if vote.vote_data.is_timeout {
            post.spec_timeout_sigs() == pre.spec_timeout_sigs().push(e)
        } else {
            post.timeout_aggregate == pre.timeout_aggregate
        })
        &&& post.mode == pre.mode
    }

    /// The outcome owed for an accepted vote, and the flags after it.
    /// Quorum is reported exactly when the accumulated power of the joined
    /// aggregate reaches the verifier's threshold; below it, the outcome is
    /// `VoteAdded` with the accumulated power.
    pub open spec fn spec_accept_result(
        pre: PendingVotes,
        post: PendingVotes,
        vote: Vote,
        power: u64,
        vv: ValidatorVerifier,
        r: VoteReceptionResult,
    ) -> bool {
        let h = vote.vote_data.proposed_block_hash;
        let np = pre.spec_hash_power(h) + power;
        let tp = pre.spec_timeout_power() + if vote.vote_data.is_timeout {
            power as int
        } else {
            0
        };
        let q = vv.spec_quorum_power();
        let qc_hit = !pre.qc_formed && !pre.delayed_qc_pending && np >= q;
        let tc_hit = vote.vote_data.is_timeout && !pre.tc_formed && tp >= q;
        if qc_hit {
            match pre.mode {
                QcAggregatorMode::Eager => {
                    &&& r matches VoteReceptionResult::NewQuorumCertificate(qc)
                        && qc.round == vote.vote_data.proposed_round && qc.block_hash == h
                        && qc.signatures.signatures@ == post.spec_hash_sigs(h)
                    &&& post.qc_formed
                    &&& post.tc_formed == pre.tc_formed
                    &&& post.delayed_qc_pending == pre.delayed_qc_pending
                },
                QcAggregatorMode::Delayed { .. } => {
                    &&& r == VoteReceptionResult::VoteAddedQCDelayed
                    &&& post.delayed_qc_pending
                    &&& post.qc_formed == pre.qc_formed
                    &&& post.tc_formed == pre.tc_formed
                },
            }
        } else if tc_hit {
            &&& r matches VoteReceptionResult::New2ChainTimeoutCertificate(tc)
                && tc.round == vote.vote_data.proposed_round && tc.signatures.signatures@
                == post.spec_timeout_sigs()
            &&& post.tc_formed
            &&& post.qc_formed == pre.qc_formed
            &&& post.delayed_qc_pending == pre.delayed_qc_pending
        } else {
            &&& r matches VoteReceptionResult::VoteAdded(x) && x == np
            &&& post.qc_formed == pre.qc_formed
            &&& post.tc_formed == pre.tc_formed
            &&& post.delayed_qc_pending == pre.delayed_qc_pending
        }
    }

    /// How a timeout upgrade reshapes the aggregator: a voter whose
    /// recorded vote for this very proposal lacked the timeout marker now
    /// gives up on the round. The new signature joins the timeout
    /// aggregate alone — every per-hash aggregate is untouched — and the
    /// ledger remembers the upgraded vote-data (keeping the first, counted
    /// signature), so a repeat is a duplicate.
    pub open spec fn spec_upgrade_transition(
        pre: PendingVotes,
        post: PendingVotes,
        vote: Vote,
        rec_signature: u64,
        power: u64,
    ) -> bool {
        let e = (SignatureEntry { author: vote.author, signature: vote.signature, power });
        &&& spec_recorded_vote(post.author_votes@, vote.author) == Some(
            (vote.vote_data, rec_signature),
        )
        &&& (forall|a2: u64|
            a2 != vote.author ==> spec_recorded_vote(post.author_votes@, a2)
                == spec_recorded_vote(pre.author_votes@, a2))
        &&& post.author_votes@.len() == pre.author_votes@.len()
        &&& post.regular_aggregates@ == pre.regular_aggregates@
        &&& post.spec_timeout_sigs() == pre.spec_timeout_sigs().push(e)
        &&& post.mode == pre.mode
        &&& post.qc_formed == pre.qc_formed
        &&& post.delayed_qc_pending == pre.delayed_qc_pending
    }

    /// The outcome owed for a timeout upgrade: the timeout certificate
    /// exactly when the timeout aggregate's accumulated power reaches the
    /// threshold and none was formed yet; otherwise the accumulated
    /// timeout power.
    pub open spec fn spec_upgrade_result(
        pre: PendingVotes,
        post: PendingVotes,
        vote: Vote,
        power: u64,
        vv: ValidatorVerifier,
        r: VoteReceptionResult,
    ) -> bool {
        let tp = pre.spec_timeout_power() + power;
        if !pre.tc_formed && tp >= vv.spec_quorum_power() {
            &&& r matches VoteReceptionResult::New2ChainTimeoutCertificate(tc) && tc.round
                == vote.vote_data.proposed_round && tc.signatures.signatures@
                == post.spec_timeout_sigs()
            &&& post.tc_formed
        } else {
            &&& r matches VoteReceptionResult::VoteAdded(x) && x == tp
            &&& post.tc_formed == pre.tc_formed
        }
    }

    /// Everything `insert_vote` promises about one call: the outcome owed
    /// for the vote, and how the aggregator changed. A recorded voter
    /// equivocates only by speaking of a different proposal; re-signing
    /// the same proposal with the timeout marker added is the upgrade, and
    /// any other re-submission of the same proposal is a duplicate.
    pub open spec fn spec_insert_post(
        pre: PendingVotes,
        post: PendingVotes,
        vote: Vote,
        vv: ValidatorVerifier,
        r: VoteReceptionResult,
    ) -> bool {
        &&& post.mode == pre.mode
        &&& (spec_vote_malformed(vv, vote) matches Some(reason) ==> r
            == VoteReceptionResult::MalformedVote(reason) && post == pre)
        &&& (spec_vote_malformed(vv, vote) is None ==> (spec_recorded_vote(
            pre.author_votes@,
            vote.author,
        ) matches Some(rec) ==> ({
            let same = spec_same_block(rec.0, vote.vote_data);
            let upgrade = same && vote.vote_data.is_timeout && !rec.0.is_timeout;
            &&& (!same ==> r == VoteReceptionResult::Equivocation(
                (EquivocationProof {
                    author: vote.author,
                    first_data: rec.0,
                    first_signature: rec.1,
                    second_data: vote.vote_data,
                    second_signature: vote.signature,
                }),
            ) && post == pre)
            &&& (same && !upgrade ==> r == VoteReceptionResult::DuplicateVote && post == pre)
            &&& (upgrade ==> ({
                let power = vv.spec_info_of(vote.author)->Some_0.voting_power;
                &&& Self::spec_upgrade_transition(pre, post, vote, rec.1, power)
                &&& Self::spec_upgrade_result(pre, post, vote, power, vv, r)
            }))
        })))
        &&& (spec_vote_malformed(vv, vote) is None && spec_recorded_vote(
            pre.author_votes@,
            vote.author,
        ) is None ==> ({
            let power = vv.spec_info_of(vote.author)->Some_0.voting_power;
            &&& Self::spec_accept_transition(pre, post, vote, power)
            &&& Self::spec_accept_result(pre, post, vote, power, vv, r)
        }))
    }

    /// Everything `process_delayed_qc` promises about one call.
    pub open spec fn spec_delayed_post(
        pre: PendingVotes,
        post: PendingVotes,
        vote: Vote,
        vv: ValidatorVerifier,
        r: VoteReceptionResult,
    ) -> bool {
        let h = vote.vote_data.proposed_block_hash;
        let p = pre.spec_hash_power(h);
        let hit = pre.delayed_qc_pending && !pre.qc_formed && p >= vv.spec_quorum_power();
        &&& (hit ==> {
            &&& r matches VoteReceptionResult::NewQuorumCertificate(qc) && qc.round
                == vote.vote_data.proposed_round && qc.block_hash == h
                && qc.signatures.signatures@ == pre.spec_hash_sigs(h)
            &&& post == (PendingVotes { qc_formed: true, delayed_qc_pending: false, ..pre })
        })
        &&& (!hit ==> (r matches VoteReceptionResult::VoteAdded(x) && x == p && post == pre))
    }

    /// A fresh aggregator for one round.
    pub fn new(mode: QcAggregatorMode) -> (r: PendingVotes)
        ensures
            r.wf(),
            r.spec_is_fresh(),
            r.mode == mode,
    {
        PendingVotes {
            mode,
            author_votes: Vec::new(),
            regular_aggregates: Vec::new(),
            timeout_aggregate: None,
            qc_formed: false,
            tc_formed: false,
            delayed_qc_pending: false,
        }
    }

    /// The ledger position of the vote recorded for `author`, if any.
    fn find_recorded_index(&self, author: u64) -> (r: Option<usize>)
        ensures
            match r {
                Some(i) => i < self.author_votes@.len() && self.author_votes@[i as int].0 == author
                    && spec_recorded_vote(self.author_votes@, author) == Some(
                    (self.author_votes@[i as int].1, self.author_votes@[i as int].2),
                ),
                None => spec_recorded_vote(self.author_votes@, author) is None,
            },
    {
        let n = self.author_votes.len();
        let mut i: usize = 0;
        proof {
            assert(self.author_votes@.skip(0) =~= self.author_votes@);
        }
        while i < n
            invariant
                n == self.author_votes.len(),
                i <= n,
                spec_recorded_vote(self.author_votes@, author) == spec_recorded_vote(
                    self.author_votes@.skip(i as int),
                    author,
                ),
            decreases n - i,
        {
            proof {
                assert(self.author_votes@.skip(i as int)[0] == self.author_votes@[i as int]);
                assert(self.author_votes@.skip(i as int).drop_first() =~= self.author_votes@.skip(
                    i as int + 1,
                ));
            }
            if self.author_votes[i].0 == author {
                return Some(i);
            }
            i = i + 1;
        }
        proof {
            assert(self.author_votes@.skip(n as int).len() == 0);
        }
        None
    }

    /// The position of the aggregate for `hash`, if one exists.
    fn find_agg_index(&self, hash: u64) -> (r: Option<usize>)
        ensures
            match r {
                Some(i) => i < self.regular_aggregates@.len() && self.regular_aggregates@[i as int].0
                    == hash && spec_agg_find(self.regular_aggregates@, hash) == Some(
                    self.regular_aggregates@[i as int].1,
                ),
                None => spec_agg_find(self.regular_aggregates@, hash) is None,
            },
    {
        let n = self.regular_aggregates.len();
        let mut i: usize = 0;
        proof {
            assert(self.regular_aggregates@.skip(0) =~= self.regular_aggregates@);
        }
        while i < n
            invariant
                n == self.regular_aggregates.len(),
                i <= n,
                spec_agg_find(self.regular_aggregates@, hash) == spec_agg_find(
                    self.regular_aggregates@.skip(i as int),
                    hash,
                ),
            decreases n - i,
        {
            proof {
                assert(self.regular_aggregates@.skip(i as int)[0]
                    == self.regular_aggregates@[i as int]);
                assert(self.regular_aggregates@.skip(i as int).drop_first()
                    =~= self.regular_aggregates@.skip(i as int + 1));
            }
            if self.regular_aggregates[i].0 == hash {
                return Some(i);
            }
            i = i + 1;
        }
        proof {
            assert(self.regular_aggregates@.skip(n as int).len() == 0);
        }
        None
    }
}

/// A voter with no recorded vote occurs nowhere in the ledger.
proof fn lemma_recorded_none(ledger: Seq<(u64, VoteData, u64)>, author: u64)
    requires
        spec_recorded_vote(ledger, author) is None,
    ensures
        forall|i: int| 0 <= i < ledger.len() ==> ledger[i].0 != author,
    decreases ledger.len(),
{
    if ledger.len() > 0 {
        lemma_recorded_none(ledger.drop_first(), author);
        assert forall|i: int| 0 <= i < ledger.len() implies ledger[i].0 != author by {
            if i > 0 {
                assert(ledger.drop_first()[i - 1] == ledger[i]);
            }
        }
    }
}

/// A hash with no aggregate occurs nowhere in the aggregate list.
proof fn lemma_agg_none(aggs: Seq<(u64, PartialSignatures)>, hash: u64)
    requires
        spec_agg_find(aggs, hash) is None,
    ensures
        forall|i: int| 0 <= i < aggs.len() ==> aggs[i].0 != hash,
    decreases aggs.len(),
{
    if aggs.len() > 0 {
        lemma_agg_none(aggs.drop_first(), hash);
        assert forall|i: int| 0 <= i < aggs.len() implies aggs[i].0 != hash by {
            if i > 0 {
                assert(aggs.drop_first()[i - 1] == aggs[i]);
            }
        }
    }
}

/// Replacing one voter's recorded vote in place: that voter's lookup now
/// yields the replacement, every other voter's lookup is unchanged. Needs
/// distinct authors.
proof fn lemma_recorded_update(
    ledger: Seq<(u64, VoteData, u64)>,
    i: int,
    d2: VoteData,
    s2: u64,
    a2: u64,
)
    requires
        0 <= i < ledger.len(),
        forall|a: int, b: int| 0 <= a < b < ledger.len() ==> ledger[a].0 != ledger[b].0,
    ensures
        a2 == ledger[i].0 ==> spec_recorded_vote(ledger.update(i, (ledger[i].0, d2, s2)), a2)
            == Some((d2, s2)),
        a2 != ledger[i].0 ==> spec_recorded_vote(ledger.update(i, (ledger[i].0, d2, s2)), a2)
            == spec_recorded_vote(ledger, a2),
    decreases ledger.len(),
{
    let a = ledger[i].0;
    let l2 = ledger.update(i, (a, d2, s2));
    assert(l2.len() == ledger.len());
    if i == 0 {
        assert(l2[0] == (a, d2, s2));
        assert(l2.drop_first() =~= ledger.drop_first());
    } else {
        assert(l2[0] == ledger[0]);
        assert(l2.drop_first() =~= ledger.drop_first().update(i - 1, (a, d2, s2)));
        assert(ledger.drop_first()[i - 1] == ledger[i]);
        assert(forall|x: int, y: int|
            0 <= x < y < ledger.drop_first().len() ==> ledger.drop_first()[x].0
                != ledger.drop_first()[y].0);
        lemma_recorded_update(ledger.drop_first(), i - 1, d2, s2, a2);
        assert(ledger[0].0 != a);
    }
}

/// Appending an aggregate for an absent hash: lookups of that hash now find
/// it, every other lookup is unchanged.
proof fn lemma_agg_find_push(
    aggs: Seq<(u64, PartialSignatures)>,
    h: u64,
    ps: PartialSignatures,
    h2: u64,
)
    requires
        spec_agg_find(aggs, h) is None,
    ensures
        h2 == h ==> spec_agg_find(aggs.push((h, ps)), h2) == Some(ps),
        h2 != h ==> spec_agg_find(aggs.push((h, ps)), h2) == spec_agg_find(aggs, h2),
    decreases aggs.len(),
{
    let s2 = aggs.push((h, ps));
    assert(s2.len() == aggs.len() + 1);
    assert(spec_agg_find(s2, h2) == (if s2[0].0 == h2 {
        Some(s2[0].1)
    } else {
        spec_agg_find(s2.drop_first(), h2)
    }));
    if aggs.len() == 0 {
        assert(s2[0] == (h, ps));
        assert(s2.drop_first() =~= Seq::<(u64, PartialSignatures)>::empty());
        assert(spec_agg_find(s2.drop_first(), h2) is None);
    } else {
        assert(s2[0] == aggs[0]);
        assert(s2.drop_first() =~= aggs.drop_first().push((h, ps)));
        lemma_agg_find_push(aggs.drop_first(), h, ps, h2);
        assert(spec_agg_find(aggs, h2) == (if aggs[0].0 == h2 {
            Some(aggs[0].1)
        } else {
            spec_agg_find(aggs.drop_first(), h2)
        }));
    }
}

/// Replacing the aggregate at one position: lookups of its hash find the
/// replacement, every other lookup is unchanged. Needs distinct hashes.
proof fn lemma_agg_find_update(
    aggs: Seq<(u64, PartialSignatures)>,
    i: int,
    ps2: PartialSignatures,
    h2: u64,
)
    requires
        0 <= i < aggs.len(),
        forall|a: int, b: int| 0 <= a < b < aggs.len() ==> aggs[a].0 != aggs[b].0,
    ensures
        h2 == aggs[i].0 ==> spec_agg_find(aggs.update(i, (aggs[i].0, ps2)), h2) == Some(ps2),
        h2 != aggs[i].0 ==> spec_agg_find(aggs.update(i, (aggs[i].0, ps2)), h2) == spec_agg_find(
            aggs,
            h2,
        ),
    decreases aggs.len(),
{
    let h = aggs[i].0;
    let s2 = aggs.update(i, (h, ps2));
    assert(s2.len() == aggs.len());
    if i == 0 {
        assert(s2[0] == (h, ps2));
        assert(s2.drop_first() =~= aggs.drop_first());
    } else {
        assert(s2[0] == aggs[0]);
        assert(s2.drop_first() =~= aggs.drop_first().update(i - 1, (h, ps2)));
        assert(aggs.drop_first()[i - 1] == aggs[i]);
        assert(forall|a: int, b: int|
            0 <= a < b < aggs.drop_first().len() ==> aggs.drop_first()[a].0
                != aggs.drop_first()[b].0);
        lemma_agg_find_update(aggs.drop_first(), i - 1, ps2, h2);
        assert(aggs[0].0 != h);
    }
}

/// Recording a vote for a voter with no recorded vote: the voter's lookup
/// now yields exactly that vote.
proof fn lemma_recorded_push(ledger: Seq<(u64, VoteData, u64)>, author: u64, d: VoteData, s: u64)
    requires
        spec_recorded_vote(ledger, author) is None,
    ensures
        spec_recorded_vote(ledger.push((author, d, s)), author) == Some((d, s)),
    decreases ledger.len(),
{
    let l2 = ledger.push((author, d, s));
    if ledger.len() == 0 {
        assert(l2[0] == (author, d, s));
    } else {
        assert(l2[0] == ledger[0]);
        assert(l2.drop_first() =~= ledger.drop_first().push((author, d, s)));
        lemma_recorded_push(ledger.drop_first(), author, d, s);
    }
}

/// Submitting the same (voter, vote-data) twice: the first submission is
/// accepted, the second is answered `DuplicateVote` and changes nothing.
pub proof fn lemma_duplicate_vote_on_second_submission(
    pre: PendingVotes,
    mid: PendingVotes,
    post: PendingVotes,
    vote: Vote,
    vv: ValidatorVerifier,
    r1: VoteReceptionResult,
    r2: VoteReceptionResult,
)
    requires
        spec_vote_malformed(vv, vote) is None,
        spec_recorded_vote(pre.author_votes@, vote.author) is None,
        PendingVotes::spec_insert_post(pre, mid, vote, vv, r1),
        PendingVotes::spec_insert_post(mid, post, vote, vv, r2),
    ensures
        r2 == VoteReceptionResult::DuplicateVote,
        post == mid,
{
    lemma_recorded_push(pre.author_votes@, vote.author, vote.vote_data, vote.signature);
}

/// Two votes by one voter for conflicting proposals at one round: the
/// second submission is answered `Equivocation` with both signed
/// vote-datas, and the first signature stays counted — the aggregator is
/// left exactly as the first submission left it.
pub proof fn lemma_equivocation_on_second_submission(
    pre: PendingVotes,
    mid: PendingVotes,
    post: PendingVotes,
    vote1: Vote,
    vote2: Vote,
    vv: ValidatorVerifier,
    r1: VoteReceptionResult,
    r2: VoteReceptionResult,
)
    requires
        vote1.author == vote2.author,
        vote1.vote_data.proposed_round == vote2.vote_data.proposed_round,
        !spec_same_block(vote1.vote_data, vote2.vote_data),
        spec_vote_malformed(vv, vote1) is None,
        spec_vote_malformed(vv, vote2) is None,
        spec_recorded_vote(pre.author_votes@, vote1.author) is None,
        PendingVotes::spec_insert_post(pre, mid, vote1, vv, r1),
        PendingVotes::spec_insert_post(mid, post, vote2, vv, r2),
    ensures
        r2 == VoteReceptionResult::Equivocation(
            (EquivocationProof {
                author: vote2.author,
                first_data: vote1.vote_data,
                first_signature: vote1.signature,
                second_data: vote2.vote_data,
                second_signature: vote2.signature,
            }),
        ),
        post == mid,
{
    lemma_recorded_push(pre.author_votes@, vote1.author, vote1.vote_data, vote1.signature);
}

/// A voter who cast a regular vote and then gives up on the round: the
/// timeout-flavored re-vote for the same proposal is no equivocation and
/// no duplicate — its signature joins the round's timeout aggregate alone,
/// the per-hash aggregates are untouched, and the timeout certificate is
/// produced exactly when the timeout aggregate's power reaches the
/// threshold.
pub proof fn lemma_timeout_revote_joins_timeout_aggregate(
    pre: PendingVotes,
    mid: PendingVotes,
    post: PendingVotes,
    vote1: Vote,
    vote2: Vote,
    vv: ValidatorVerifier,
    r1: VoteReceptionResult,
    r2: VoteReceptionResult,
)
    requires
        vote1.author == vote2.author,
        spec_same_block(vote1.vote_data, vote2.vote_data),
        !vote1.vote_data.is_timeout,
        vote2.vote_data.is_timeout,
        spec_vote_malformed(vv, vote1) is None,
        spec_vote_malformed(vv, vote2) is None,
        spec_recorded_vote(pre.author_votes@, vote1.author) is None,
        PendingVotes::spec_insert_post(pre, mid, vote1, vv, r1),
        PendingVotes::spec_insert_post(mid, post, vote2, vv, r2),
    ensures
        ({
            let power = vv.spec_info_of(vote2.author)->Some_0.voting_power;
            let e = (SignatureEntry {
                author: vote2.author,
                signature: vote2.signature,
                power,
            });
            &&& post.spec_timeout_sigs() == mid.spec_timeout_sigs().push(e)
            &&& post.regular_aggregates@ == mid.regular_aggregates@
            &&& PendingVotes::spec_upgrade_result(mid, post, vote2, power, vv, r2)
        }),
{
    lemma_recorded_push(pre.author_votes@, vote1.author, vote1.vote_data, vote1.signature);
}

impl PendingVotes {
    /// Ingests one remote vote for the round.
    ///
    /// A vote by an unknown voter, with zero registered power, or with a
    /// signature that does not match the voter's key is thrown away as
    /// malformed. A recorded voter speaking of a different proposal gets
    /// `Equivocation` with both signed vote-datas, and the first signature
    /// stays counted; one re-signing their own proposal with the timeout
    /// marker added joins the round's timeout aggregate alone (the
    /// upgrade); any other re-submission of the same proposal gets
    /// `DuplicateVote`. A fresh vote joins the aggregate of its block
    /// hash — and the round's timeout aggregate when timeout-flavored —
    /// and quorum is reported exactly when the joined aggregate's
    /// accumulated power reaches the verifier's threshold.
    pub fn insert_vote(&mut self, vote: &Vote, vv: &ValidatorVerifier) -> (r: VoteReceptionResult)
        requires
            old(self).wf(),
            vv.wf(),
        ensures
            final(self).wf(),
            Self::spec_insert_post(*old(self), *final(self), *vote, *vv, r),
    {
        let info = match vv.get_info(vote.author) {
            None => {
                return VoteReceptionResult::MalformedVote(MalformedReason::UnknownVoter);
            },
            Some(info) => info,
        };
        if info.voting_power == 0 {
            return VoteReceptionResult::MalformedVote(MalformedReason::ZeroVotingPower);
        }
        if vote.signature != info.public_key {
            return VoteReceptionResult::MalformedVote(MalformedReason::InvalidSignature);
        }
        match self.find_recorded_index(vote.author) {
            Some(i) => {
                let rec_data = self.author_votes[i].1;
                let rec_sig = self.author_votes[i].2;
                if !rec_data.same_block(&vote.vote_data) {
                    // a conflicting proposal at the round: equivocation
                    return VoteReceptionResult::Equivocation(
                        EquivocationProof {
                            author: vote.author,
                            first_data: rec_data,
                            first_signature: rec_sig,
                            second_data: vote.vote_data,
                            second_signature: vote.signature,
                        },
                    );
                }
                if !(vote.is_timeout() && !rec_data.is_timeout) {
                    return VoteReceptionResult::DuplicateVote;
                }
                // the upgrade: the voter re-signs their own proposal with
                // the timeout marker, giving up on the round; the new
                // signature joins the timeout aggregate alone
                let ghost pre = *self;
                let power = info.voting_power;
                self.author_votes[i] = (vote.author, vote.vote_data, rec_sig);
                proof {
                    assert(self.author_votes@ == pre.author_votes@.update(
                        i as int,
                        (vote.author, vote.vote_data, rec_sig),
                    ));
                    assert forall|a2: u64| true implies #[trigger] spec_recorded_vote(
                        self.author_votes@,
                        a2,
                    ) == (if a2 == vote.author {
                        Some((vote.vote_data, rec_sig))
                    } else {
                        spec_recorded_vote(pre.author_votes@, a2)
                    }) by {
                        lemma_recorded_update(
                            pre.author_votes@,
                            i as int,
                            vote.vote_data,
                            rec_sig,
                            a2,
                        );
                    }
                    assert forall|a: int, b: int|
                        0 <= a < b < self.author_votes@.len() implies self.author_votes@[a].0
                        != self.author_votes@[b].0 by {
                        assert(self.author_votes@[a].0 == pre.author_votes@[a].0);
                        assert(self.author_votes@[b].0 == pre.author_votes@[b].0);
                    }
                }
                let entry = SignatureEntry {
                    author: vote.author,
                    signature: vote.signature,
                    power,
                };
                let tp = self.add_timeout_entry(entry);
                let quorum: u128 = self.check_quorum(vv);
                if !self.tc_formed && tp >= quorum {
                    self.tc_formed = true;
                    let sigs = match &self.timeout_aggregate {
                        Some(ps) => ps.copied(),
                        None => PartialSignatures::empty(),
                    };
                    return VoteReceptionResult::New2ChainTimeoutCertificate(
                        TimeoutCertificate { round: vote.proposed_round(), signatures: sigs },
                    );
                }
                return VoteReceptionResult::VoteAdded(tp);
            },
            None => {},
        }
        let ghost pre = *self;
        let power = info.voting_power;
        let entry = SignatureEntry { author: vote.author, signature: vote.signature, power };
        let h = vote.vote_data.proposed_block_hash;

        // record the vote in the per-voter ledger
        proof {
            lemma_recorded_none(self.author_votes@, vote.author);
        }
        self.author_votes.push((vote.author, vote.vote_data, vote.signature));

        // join the aggregate of the vote's block hash
        let idx = match self.find_agg_index(h) {
            Some(i) => i,
            None => {
                let i = self.regular_aggregates.len();
                proof {
                    lemma_agg_none(self.regular_aggregates@, h);
                }
                let empty_ps = PartialSignatures::empty();
                let ghost g_empty = empty_ps;
                self.regular_aggregates.push((h, empty_ps));
                proof {
                    assert forall|h2: u64| true implies #[trigger] spec_agg_find(
                        self.regular_aggregates@,
                        h2,
                    ) == (if h2 == h {
                        Some(g_empty)
                    } else {
                        spec_agg_find(pre.regular_aggregates@, h2)
                    }) by {
                        lemma_agg_find_push(pre.regular_aggregates@, h, g_empty, h2);
                        assert(pre.regular_aggregates@.push((h, g_empty))
                            == self.regular_aggregates@);
                    }
                }
                i
            },
        };
        let ghost mid = *self;
        proof {
            assert(mid.spec_hash_sigs(h) == pre.spec_hash_sigs(h));
            assert(forall|h2: u64| #[trigger]
                mid.spec_hash_sigs(h2) == pre.spec_hash_sigs(h2));
            lemma_sig_sum_bound(self.regular_aggregates@[idx as int].1.signatures@);
        }
        let cur_len: usize = self.regular_aggregates[idx].1.signatures.len();
        proof {
            assert(cur_len * (u64::MAX as int) + power <= u128::MAX) by (nonlinear_arith)
                requires
                    0 <= cur_len <= u64::MAX,
                    0 <= power <= u64::MAX,
            ;
        }
        let prior_power: u128 = self.regular_aggregates[idx].1.voting_power();
        let np: u128 = prior_power + power as u128;
        let agg = &mut self.regular_aggregates[idx];
        agg.1.signatures.push(entry);
        proof {
            assert(self.regular_aggregates@ == mid.regular_aggregates@.update(
                idx as int,
                (h, self.regular_aggregates@[idx as int].1),
            ));
            assert(self.regular_aggregates@[idx as int].1.signatures@ == mid.spec_hash_sigs(
                h,
            ).push(entry));
            assert forall|h2: u64| true implies #[trigger] spec_agg_find(
                self.regular_aggregates@,
                h2,
            ) == (if h2 == h {
                Some(self.regular_aggregates@[idx as int].1)
            } else {
                spec_agg_find(mid.regular_aggregates@, h2)
            }) by {
                lemma_agg_find_update(
                    mid.regular_aggregates@,
                    idx as int,
                    self.regular_aggregates@[idx as int].1,
                    h2,
                );
            }
            lemma_sig_sum_push(mid.spec_hash_sigs(h), entry);
            assert(self.spec_hash_power(h) == pre.spec_hash_power(h) + power);
            assert(np == pre.spec_hash_power(h) + power);
        }

        // a timeout-flavored vote also joins the round's timeout aggregate
        let mut tp: u128 = 0;
        if vote.is_timeout() {
            tp = self.add_timeout_entry(entry);
            proof {
                assert(self.spec_timeout_sigs() == pre.spec_timeout_sigs().push(entry));
                assert(tp == pre.spec_timeout_power() + power);
            }
        }

        // report quorum exactly when the joined aggregate crosses the threshold
        let quorum: u128 = self.check_quorum(vv);
        if !self.qc_formed && !self.delayed_qc_pending && np >= quorum {
            match self.mode {
                QcAggregatorMode::Eager => {
                    self.qc_formed = true;
                    let sigs = self.regular_aggregates[idx].1.copied();
                    return VoteReceptionResult::NewQuorumCertificate(
                        QuorumCertificate {
                            round: vote.proposed_round(),
                            block_hash: h,
                            signatures: sigs,
                        },
                    );
                },
                QcAggregatorMode::Delayed { .. } => {
                    self.delayed_qc_pending = true;
                    return VoteReceptionResult::VoteAddedQCDelayed;
                },
            }
        }
        if vote.is_timeout() && !self.tc_formed && tp >= quorum {
            self.tc_formed = true;
            let sigs = match &self.timeout_aggregate {
                Some(ps) => ps.copied(),
                None => PartialSignatures::empty(),
            };
            return VoteReceptionResult::New2ChainTimeoutCertificate(
                TimeoutCertificate { round: vote.proposed_round(), signatures: sigs },
            );
        }
        VoteReceptionResult::VoteAdded(np)
    }

    /// Adds one counted signature to the round's timeout aggregate,
    /// creating it on first use, and returns the aggregate's accumulated
    /// power. Nothing else is touched.
    fn add_timeout_entry(&mut self, entry: SignatureEntry) -> (tp: u128)
        ensures
            final(self).spec_timeout_sigs() == old(self).spec_timeout_sigs().push(entry),
            tp == old(self).spec_timeout_power() + entry.power,
            *final(self) == (PendingVotes {
                timeout_aggregate: final(self).timeout_aggregate,
                ..*old(self)
            }),
    {
        if self.timeout_aggregate.is_none() {
            self.timeout_aggregate = Some(PartialSignatures::empty());
        }
        proof {
            assert(self.spec_timeout_sigs() == old(self).spec_timeout_sigs());
        }
        let mut tp: u128 = 0;
        if let Some(ps) = &mut self.timeout_aggregate {
            let tlen: usize = ps.signatures.len();
            proof {
                lemma_sig_sum_bound(ps.signatures@);
                assert(tlen * (u64::MAX as int) + entry.power <= u128::MAX) by (nonlinear_arith)
                    requires
                        0 <= tlen <= u64::MAX,
                        0 <= entry.power <= u64::MAX,
                ;
            }
            let prior_tp = ps.voting_power();
            tp = prior_tp + entry.power as u128;
            ps.signatures.push(entry);
        }
        proof {
            lemma_sig_sum_push(old(self).spec_timeout_sigs(), entry);
        }
        tp
    }

    /// The verifier's quorum threshold, widened for accumulation arithmetic.
    fn check_quorum(&self, vv: &ValidatorVerifier) -> (r: u128)
        requires
            vv.wf(),
        ensures
            r == vv.spec_quorum_power(),
    {
        vv.quorum_voting_power() as u128
    }

    /// Re-enters the aggregator after a delayed-QC message came back: if a
    /// delayed quorum is still outstanding and the power aggregated for the
    /// vote's block hash still meets the threshold, the quorum certificate
    /// is materialized now; otherwise the accumulated power is reported.
    pub fn process_delayed_qc(&mut self, vv: &ValidatorVerifier, vote: &Vote) -> (r:
        VoteReceptionResult)
        requires
            old(self).wf(),
            vv.wf(),
        ensures
            final(self).wf(),
            Self::spec_delayed_post(*old(self), *final(self), *vote, *vv, r),
    {
        let h = vote.vote_data.proposed_block_hash;
        let p: u128 = match self.find_agg_index(h) {
            Some(i) => self.regular_aggregates[i].1.voting_power(),
            None => 0,
        };
        let quorum: u128 = self.check_quorum(vv);
        if self.delayed_qc_pending && !self.qc_formed && p >= quorum {
            self.qc_formed = true;
            self.delayed_qc_pending = false;
            let sigs = match self.find_agg_index(h) {
                Some(i) => self.regular_aggregates[i].1.copied(),
                None => PartialSignatures::empty(),
            };
            return VoteReceptionResult::NewQuorumCertificate(
                QuorumCertificate {
                    round: vote.proposed_round(),
                    block_hash: h,
                    signatures: sigs,
                },
            );
        }
        VoteReceptionResult::VoteAdded(p)
    }

    /// Quorum is reported exactly at the threshold: an accepted vote in
    /// eager mode, with no certificate formed and no delayed certificate
    /// outstanding, yields the fresh quorum certificate exactly when the
    /// power aggregated for its block hash reaches the verifier's
    /// threshold; below the threshold — and when the vote is not
    /// timeout-flavored — the outcome is `VoteAdded` with the accumulated
    /// power.
    pub proof fn lemma_quorum_exactly_at_threshold(
        pre: PendingVotes,
        post: PendingVotes,
        vote: Vote,
        vv: ValidatorVerifier,
        r: VoteReceptionResult,
    )
        requires
            spec_vote_malformed(vv, vote) is None,
            spec_recorded_vote(pre.author_votes@, vote.author) is None,
            pre.mode == QcAggregatorMode::Eager,
            !pre.qc_formed,
            !pre.delayed_qc_pending,
            !vote.vote_data.is_timeout,
            Self::spec_insert_post(pre, post, vote, vv, r),
        ensures
            ({
                let power = vv.spec_info_of(vote.author)->Some_0.voting_power;
                let np = pre.spec_hash_power(vote.vote_data.proposed_block_hash) + power;
                &&& (np >= vv.spec_quorum_power() ==> (r matches
                VoteReceptionResult::NewQuorumCertificate(qc) && qc.block_hash
                    == vote.vote_data.proposed_block_hash && qc.round
                    == vote.vote_data.proposed_round))
                &&& (np < vv.spec_quorum_power() ==> (r matches VoteReceptionResult::VoteAdded(x)
                    && x == np))
            }),
    {
    }

    /// Hands the round's partial aggregates out by move: the per-hash
    /// regular aggregates and the timeout aggregate.
    pub fn drain_votes(self) -> (r: (Vec<(u64, PartialSignatures)>, Option<PartialSignatures>))
        ensures
            r.0@ == self.regular_aggregates@,
            r.1 == self.timeout_aggregate,
    {
        (self.regular_aggregates, self.timeout_aggregate)
    }
}

} // verus!
