use round_liveness::pending_votes::{
    MalformedReason, PendingVotes, QcAggregatorMode, Vote, VoteData, VoteReceptionResult,
};
use round_liveness::validator_verifier::{ValidatorConsensusInfo, ValidatorVerifier};

fn four_voters() -> ValidatorVerifier {
    let infos = vec![
        ValidatorConsensusInfo { address: 1, voting_power: 1, public_key: 101 },
        ValidatorConsensusInfo { address: 2, voting_power: 1, public_key: 102 },
        ValidatorConsensusInfo { address: 3, voting_power: 1, public_key: 103 },
        ValidatorConsensusInfo { address: 4, voting_power: 1, public_key: 104 },
    ];
    ValidatorVerifier::new(infos).unwrap()
}

fn vote(author: u64, hash: u64, round: u64, timeout: bool) -> Vote {
    Vote {
        author,
        signature: 100 + author,
        vote_data: VoteData {
            proposed_block_hash: hash,
            proposed_round: round,
            parent_block_hash: hash.wrapping_sub(1),
            parent_round: round.saturating_sub(1),
            is_timeout: timeout,
        },
    }
}

#[test]
fn verifier_rejects_duplicate_addresses() {
    let infos = vec![
        ValidatorConsensusInfo { address: 7, voting_power: 1, public_key: 1 },
        ValidatorConsensusInfo { address: 7, voting_power: 2, public_key: 2 },
    ];
    assert!(ValidatorVerifier::new(infos).is_none());
}

#[test]
fn verifier_quorum_is_two_thirds_rounded_up() {
    let vv = four_voters();
    assert_eq!(vv.total_voting_power(), 4);
    // ceil(2 * 4 / 3) = 3
    assert_eq!(vv.quorum_voting_power(), 3);
    assert!(!vv.check_voting_power(2));
    assert!(vv.check_voting_power(3));

    let three = ValidatorVerifier::new(vec![
        ValidatorConsensusInfo { address: 1, voting_power: 1, public_key: 1 },
        ValidatorConsensusInfo { address: 2, voting_power: 1, public_key: 2 },
        ValidatorConsensusInfo { address: 3, voting_power: 1, public_key: 3 },
    ])
    .unwrap();
    assert_eq!(three.quorum_voting_power(), 2);
}

#[test]
fn quorum_reached_exactly_at_threshold() {
    // S6: four voters of power 1, threshold 3
    let vv = four_voters();
    let mut pv = PendingVotes::new(QcAggregatorMode::Eager);
    assert_eq!(pv.insert_vote(&vote(1, 9, 5, false), &vv), VoteReceptionResult::VoteAdded(1));
    assert_eq!(pv.insert_vote(&vote(2, 9, 5, false), &vv), VoteReceptionResult::VoteAdded(2));
    match pv.insert_vote(&vote(3, 9, 5, false), &vv) {
        VoteReceptionResult::NewQuorumCertificate(qc) => {
            assert_eq!(qc.round, 5);
            assert_eq!(qc.block_hash, 9);
            assert_eq!(qc.signatures.signatures.len(), 3);
        },
        other => panic!("expected a quorum certificate, got {:?}", other),
    }
    // a later vote on the finalized hash is counted, never a second QC
    assert_eq!(pv.insert_vote(&vote(4, 9, 5, false), &vv), VoteReceptionResult::VoteAdded(4));
}

#[test]
fn duplicate_vote_on_second_submission() {
    let vv = four_voters();
    let mut pv = PendingVotes::new(QcAggregatorMode::Eager);
    let v = vote(2, 9, 5, false);
    assert_eq!(pv.insert_vote(&v, &vv), VoteReceptionResult::VoteAdded(1));
    assert_eq!(pv.insert_vote(&v, &vv), VoteReceptionResult::DuplicateVote);
}

#[test]
fn equivocation_yields_proof_with_both_votes() {
    // S7: voter 2 signs hash 11, then hash 22, at round 7
    let vv = four_voters();
    let mut pv = PendingVotes::new(QcAggregatorMode::Eager);
    let first = vote(2, 11, 7, false);
    let second = vote(2, 22, 7, false);
    assert_eq!(pv.insert_vote(&first, &vv), VoteReceptionResult::VoteAdded(1));
    match pv.insert_vote(&second, &vv) {
        VoteReceptionResult::Equivocation(proof) => {
            assert_eq!(proof.author, 2);
            assert_eq!(proof.first_data, first.vote_data);
            assert_eq!(proof.first_signature, first.signature);
            assert_eq!(proof.second_data, second.vote_data);
            assert_eq!(proof.second_signature, second.signature);
        },
        other => panic!("expected equivocation, got {:?}", other),
    }
    // the first signature stays counted for hash 11
    assert_eq!(pv.insert_vote(&vote(1, 11, 7, false), &vv), VoteReceptionResult::VoteAdded(2));
}

#[test]
fn malformed_votes_are_classified() {
    let vv = ValidatorVerifier::new(vec![
        ValidatorConsensusInfo { address: 1, voting_power: 1, public_key: 101 },
        ValidatorConsensusInfo { address: 2, voting_power: 0, public_key: 102 },
    ])
    .unwrap();
    let mut pv = PendingVotes::new(QcAggregatorMode::Eager);

    let unknown = vote(9, 5, 1, false);
    assert_eq!(
        pv.insert_vote(&unknown, &vv),
        VoteReceptionResult::MalformedVote(MalformedReason::UnknownVoter)
    );

    let powerless = vote(2, 5, 1, false);
    assert_eq!(
        pv.insert_vote(&powerless, &vv),
        VoteReceptionResult::MalformedVote(MalformedReason::ZeroVotingPower)
    );

    let mut forged = vote(1, 5, 1, false);
    forged.signature = 999;
    assert_eq!(
        pv.insert_vote(&forged, &vv),
        VoteReceptionResult::MalformedVote(MalformedReason::InvalidSignature)
    );
}

#[test]
fn timeout_votes_aggregate_separately() {
    let vv = four_voters();
    let mut pv = PendingVotes::new(QcAggregatorMode::Eager);
    // voters 1 and 2 vote for different hashes, both timeout-flavored:
    // no block hash reaches quorum, but the shared timeout aggregate does
    assert_eq!(pv.insert_vote(&vote(1, 100, 3, true), &vv), VoteReceptionResult::VoteAdded(1));
    assert_eq!(pv.insert_vote(&vote(2, 200, 3, true), &vv), VoteReceptionResult::VoteAdded(1));
    match pv.insert_vote(&vote(3, 300, 3, true), &vv) {
        VoteReceptionResult::New2ChainTimeoutCertificate(tc) => {
            assert_eq!(tc.round, 3);
            assert_eq!(tc.signatures.signatures.len(), 3);
        },
        other => panic!("expected a timeout certificate, got {:?}", other),
    }
}

#[test]
fn timeout_revote_joins_timeout_aggregate() {
    // the normal 2-chain path: vote for a block, then give up on the round
    let vv = four_voters();
    let mut pv = PendingVotes::new(QcAggregatorMode::Eager);
    // regular votes on distinct blocks, so no quorum certificate forms
    for a in 1..=3u64 {
        assert_eq!(
            pv.insert_vote(&vote(a, 100 + a, 5, false), &vv),
            VoteReceptionResult::VoteAdded(1)
        );
    }
    // voters 1 and 2 re-sign their own proposal with the timeout marker:
    // accepted into the separate timeout aggregate, not equivocation
    assert_eq!(pv.insert_vote(&vote(1, 101, 5, true), &vv), VoteReceptionResult::VoteAdded(1));
    assert_eq!(pv.insert_vote(&vote(2, 102, 5, true), &vv), VoteReceptionResult::VoteAdded(2));
    // a repeat of the upgraded vote is a duplicate, not another count
    assert_eq!(pv.insert_vote(&vote(1, 101, 5, true), &vv), VoteReceptionResult::DuplicateVote);
    // so is replaying the original regular vote after the upgrade
    assert_eq!(pv.insert_vote(&vote(1, 101, 5, false), &vv), VoteReceptionResult::DuplicateVote);
    // the third upgrade reaches the timeout quorum
    match pv.insert_vote(&vote(3, 103, 5, true), &vv) {
        VoteReceptionResult::New2ChainTimeoutCertificate(tc) => {
            assert_eq!(tc.round, 5);
            assert_eq!(tc.signatures.signatures.len(), 3);
        },
        other => panic!("expected a timeout certificate, got {:?}", other),
    }
    // the per-hash aggregates were never touched by the upgrades
    let (regular, timeout) = pv.drain_votes();
    assert_eq!(regular.len(), 3);
    for (_, agg) in &regular {
        assert_eq!(agg.signatures.len(), 1);
    }
    assert_eq!(timeout.unwrap().signatures.len(), 3);
}

#[test]
fn timeout_revote_for_another_block_is_equivocation() {
    let vv = four_voters();
    let mut pv = PendingVotes::new(QcAggregatorMode::Eager);
    let first = vote(4, 104, 5, false);
    assert_eq!(pv.insert_vote(&first, &vv), VoteReceptionResult::VoteAdded(1));
    // the timeout marker does not excuse a conflicting proposal
    let conflicting = vote(4, 999, 5, true);
    match pv.insert_vote(&conflicting, &vv) {
        VoteReceptionResult::Equivocation(proof) => {
            assert_eq!(proof.first_data, first.vote_data);
            assert_eq!(proof.second_data, conflicting.vote_data);
        },
        other => panic!("expected equivocation, got {:?}", other),
    }
}

#[test]
fn delayed_mode_defers_the_certificate() {
    let vv = four_voters();
    let mut pv = PendingVotes::new(QcAggregatorMode::Delayed { window_ms: 20 });
    assert_eq!(pv.insert_vote(&vote(1, 9, 5, false), &vv), VoteReceptionResult::VoteAdded(1));
    assert_eq!(pv.insert_vote(&vote(2, 9, 5, false), &vv), VoteReceptionResult::VoteAdded(2));
    // quorum reached: delayed, not materialized
    let triggering = vote(3, 9, 5, false);
    assert_eq!(pv.insert_vote(&triggering, &vv), VoteReceptionResult::VoteAddedQCDelayed);
    // a further vote while the delay is outstanding is only counted
    assert_eq!(pv.insert_vote(&vote(4, 9, 5, false), &vv), VoteReceptionResult::VoteAdded(4));
    // the delayed-QC message comes back: the certificate appears, with
    // the late fourth signature batched in
    match pv.process_delayed_qc(&vv, &triggering) {
        VoteReceptionResult::NewQuorumCertificate(qc) => {
            assert_eq!(qc.round, 5);
            assert_eq!(qc.block_hash, 9);
            assert_eq!(qc.signatures.signatures.len(), 4);
        },
        other => panic!("expected a quorum certificate, got {:?}", other),
    }
}

#[test]
fn drain_hands_partial_aggregates_out() {
    let vv = four_voters();
    let mut pv = PendingVotes::new(QcAggregatorMode::Eager);
    pv.insert_vote(&vote(1, 9, 5, false), &vv);
    pv.insert_vote(&vote(2, 9, 5, true), &vv);
    let (regular, timeout) = pv.drain_votes();
    assert_eq!(regular.len(), 1);
    assert_eq!(regular[0].0, 9);
    assert_eq!(regular[0].1.signatures.len(), 2);
    let t = timeout.expect("a timeout aggregate was collected");
    assert_eq!(t.signatures.len(), 1);
    assert_eq!(t.signatures[0].author, 2);
}
