use round_liveness::interval::ExponentialTimeInterval;
use round_liveness::pending_votes::{QcAggregatorMode, Vote, VoteData, VoteReceptionResult};
use round_liveness::round_state::{DelayedQcMsg, NewRoundReason, RoundState, SyncInfo};
use round_liveness::validator_verifier::{ValidatorConsensusInfo, ValidatorVerifier};

fn exp_state() -> RoundState {
    // base 1000 ms, growth factor 3/2, capped exponent 6
    let iv = ExponentialTimeInterval::new(1000, 3, 2, 6).unwrap();
    RoundState::new(iv, QcAggregatorMode::Eager)
}

fn fixed_state() -> RoundState {
    RoundState::new(ExponentialTimeInterval::fixed(1000), QcAggregatorMode::Eager)
}

fn sync(certified: u64, timeout: u64, ordered: u64) -> SyncInfo {
    SyncInfo {
        highest_certified_round: certified,
        highest_timeout_round: timeout,
        highest_ordered_round: ordered,
    }
}

fn vote(author: u64, hash: u64, round: u64, timeout: bool) -> Vote {
    Vote {
        author,
        signature: 100 + author,
        vote_data: VoteData {
            proposed_block_hash: hash,
            proposed_round: round,
            parent_block_hash: 0,
            parent_round: 0,
            is_timeout: timeout,
        },
    }
}

fn voters() -> ValidatorVerifier {
    ValidatorVerifier::new(vec![
        ValidatorConsensusInfo { address: 1, voting_power: 1, public_key: 101 },
        ValidatorConsensusInfo { address: 2, voting_power: 1, public_key: 102 },
        ValidatorConsensusInfo { address: 3, voting_power: 1, public_key: 103 },
        ValidatorConsensusInfo { address: 4, voting_power: 1, public_key: 104 },
    ])
    .unwrap()
}

/// Drives a state to the given round and ordered round through certificates.
fn advance_to(rs: &mut RoundState, certified: u64, ordered: u64) {
    let e = rs.process_certificates(sync(certified, 0, ordered), 0);
    assert!(e.is_some());
}

#[test]
fn happy_path_qc_advance() {
    // S1: current 5, ordered 2; certificates for round 5, ordered 3
    let mut rs = exp_state();
    advance_to(&mut rs, 4, 2);
    assert_eq!(rs.current_round(), 5);
    let e = rs.process_certificates(sync(5, 0, 3), 10_000).expect("round must advance");
    assert_eq!(e.round, 6);
    assert_eq!(e.reason, NewRoundReason::QCReady);
    // round index 6 - 3 - 3 = 0 under the 3-chain rule
    assert_eq!(e.timeout_ms, 1000);
    assert_eq!(rs.current_round(), 6);
    assert_eq!(rs.current_round_deadline(), 11_000);
}

#[test]
fn tc_advance_uses_timeout_reason() {
    // S2: current 10, ordered 7; TC for round 10
    let mut rs = exp_state();
    advance_to(&mut rs, 9, 7);
    assert_eq!(rs.current_round(), 10);
    let e = rs.process_certificates(sync(8, 10, 7), 0).expect("round must advance");
    assert_eq!(e.round, 11);
    assert_eq!(e.reason, NewRoundReason::Timeout);
    // round index 11 - 7 - 3 = 1: one growth step of 3/2
    assert_eq!(e.timeout_ms, 1500);
}

#[test]
fn no_advance_on_stale_certificates() {
    // S3: current 6, certificates prove only round 5
    let mut rs = exp_state();
    advance_to(&mut rs, 5, 2);
    assert_eq!(rs.current_round(), 6);
    let deadline = rs.current_round_deadline();
    assert!(rs.process_certificates(sync(4, 5, 2), 123).is_none());
    assert_eq!(rs.current_round(), 6);
    assert_eq!(rs.current_round_deadline(), deadline);
}

#[test]
fn local_timeout_doubles_each_repeat() {
    // S4: fixed 1000 ms base; rearms double: 2000, then 4000
    let mut rs = fixed_state();
    let e = rs.process_certificates(sync(3, 0, 3), 0).unwrap();
    assert_eq!(e.timeout_ms, 1000);
    assert_eq!(rs.current_round_deadline(), 1000);
    assert!(rs.process_local_timeout(4, 1000));
    assert_eq!(rs.current_round_deadline(), 3000);  // 1000 + 2 * 1000
    assert!(rs.process_local_timeout(4, 3000));
    assert_eq!(rs.current_round_deadline(), 7000);  // 3000 + 4 * 1000
}

#[test]
fn stale_timeout_is_ignored() {
    // S5: the machine has advanced past round 4
    let mut rs = fixed_state();
    advance_to(&mut rs, 4, 0);
    assert_eq!(rs.current_round(), 5);
    let deadline = rs.current_round_deadline();
    assert!(!rs.process_local_timeout(4, 99_999));
    assert_eq!(rs.current_round_deadline(), deadline);
    // the multiplier was not touched: the next live timeout doubles once
    assert!(rs.process_local_timeout(5, 0));
    assert_eq!(rs.current_round_deadline(), 2000);
}

#[test]
fn new_round_events_strictly_increase() {
    let mut rs = fixed_state();
    let mut last_round = 0u64;
    let feeds = [sync(1, 0, 0), sync(0, 3, 0), sync(3, 2, 1), sync(9, 4, 2), sync(9, 11, 3)];
    for si in feeds {
        if let Some(e) = rs.process_certificates(si, 0) {
            assert!(e.round > last_round);
            last_round = e.round;
        }
    }
    assert_eq!(last_round, 12);
}

#[test]
fn aggregator_is_fresh_after_advance() {
    let vv = voters();
    let mut rs = fixed_state();
    advance_to(&mut rs, 0, 0);
    rs.insert_vote(&vote(1, 9, 1, false), &vv);
    rs.insert_vote(&vote(2, 9, 1, false), &vv);
    let e = rs.process_certificates(sync(1, 0, 0), 0).unwrap();
    // the residue moved into the event ...
    assert_eq!(e.prev_round_votes.len(), 1);
    assert_eq!(e.prev_round_votes[0].0, 9);
    assert_eq!(e.prev_round_votes[0].1.signatures.len(), 2);
    assert!(e.prev_round_timeout_votes.is_none());
    // ... and the live aggregator starts over: the first vote counts as one
    assert_eq!(rs.insert_vote(&vote(1, 9, 2, false), &vv), VoteReceptionResult::VoteAdded(1));
}

#[test]
fn votes_for_other_rounds_are_unexpected() {
    let vv = voters();
    let mut rs = fixed_state();
    advance_to(&mut rs, 4, 0);
    assert_eq!(
        rs.insert_vote(&vote(1, 9, 3, false), &vv),
        VoteReceptionResult::UnexpectedRound(3, 5)
    );
}

#[test]
fn record_vote_keeps_only_live_round() {
    let mut rs = fixed_state();
    advance_to(&mut rs, 4, 0);
    let stale = vote(1, 9, 3, false);
    rs.record_vote(stale);
    assert!(rs.vote_sent().is_none());
    let live = vote(1, 9, 5, true);
    rs.record_vote(live);
    assert_eq!(rs.vote_sent(), Some(live));
    assert!(rs.is_vote_timeout());
    // advancing clears the recorded vote
    rs.process_certificates(sync(5, 0, 0), 0).unwrap();
    assert!(rs.vote_sent().is_none());
    assert!(!rs.is_vote_timeout());
}

#[test]
fn delayed_qc_message_for_live_round_materializes() {
    let vv = voters();
    let iv = ExponentialTimeInterval::fixed(1000);
    let mut rs = RoundState::new(iv, QcAggregatorMode::Delayed { window_ms: 20 });
    let e = rs.process_certificates(sync(4, 0, 0), 0);
    assert!(e.is_some());
    rs.insert_vote(&vote(1, 9, 5, false), &vv);
    rs.insert_vote(&vote(2, 9, 5, false), &vv);
    let triggering = vote(3, 9, 5, false);
    assert_eq!(rs.insert_vote(&triggering, &vv), VoteReceptionResult::VoteAddedQCDelayed);
    match rs.process_delayed_qc_msg(&vv, DelayedQcMsg { vote: triggering }) {
        VoteReceptionResult::NewQuorumCertificate(qc) => {
            assert_eq!(qc.round, 5);
            assert_eq!(qc.block_hash, 9);
        },
        other => panic!("expected a quorum certificate, got {:?}", other),
    }
}

#[test]
fn stale_delayed_qc_message_is_dropped() {
    let vv = voters();
    let iv = ExponentialTimeInterval::fixed(1000);
    let mut rs = RoundState::new(iv, QcAggregatorMode::Delayed { window_ms: 20 });
    rs.process_certificates(sync(4, 0, 0), 0).unwrap();
    rs.insert_vote(&vote(1, 9, 5, false), &vv);
    rs.insert_vote(&vote(2, 9, 5, false), &vv);
    let triggering = vote(3, 9, 5, false);
    assert_eq!(rs.insert_vote(&triggering, &vv), VoteReceptionResult::VoteAddedQCDelayed);
    // the round advances before the delayed message makes it back
    rs.process_certificates(sync(5, 0, 0), 0).unwrap();
    assert_eq!(
        rs.process_delayed_qc_msg(&vv, DelayedQcMsg { vote: triggering }),
        VoteReceptionResult::UnexpectedRound(5, 6)
    );
}

#[test]
fn ordered_round_is_taken_over_when_larger() {
    let mut rs = exp_state();
    advance_to(&mut rs, 9, 4);
    assert_eq!(rs.current_round(), 10);
    // a stale digest cannot lower the ordered round
    assert!(rs.process_certificates(sync(3, 0, 2), 0).is_none());
    // index 10 - 4 - 3 = 3: 1000 * (3/2)^3 = 3375
    assert!(rs.process_local_timeout(10, 0));
    assert_eq!(rs.current_round_deadline(), 2 * 3375);
}

#[test]
fn advance_near_the_round_ceiling() {
    let mut rs = fixed_state();
    let e = rs.process_certificates(sync(u64::MAX - 1, 0, 0), 5).expect("round must advance");
    assert_eq!(e.round, u64::MAX);
    assert_eq!(rs.current_round(), u64::MAX);
    assert_eq!(e.timeout_ms, 1000);
    assert_eq!(rs.current_round_deadline(), 1005);
}

#[test]
fn repeated_timeouts_saturate_the_deadline() {
    let mut rs = fixed_state();
    advance_to(&mut rs, 0, 0);
    for _ in 0..70 {
        assert!(rs.process_local_timeout(1, 0));
    }
    // the multiplier doubling has long exceeded any representable duration
    assert_eq!(rs.current_round_deadline(), u64::MAX);
}

#[test]
fn pre_commit_regime_counts_from_round_one() {
    // before the first commit the 3-chain offset does not apply
    let mut rs = exp_state();
    let e = rs.process_certificates(sync(0, 2, 0), 0).unwrap();
    // current 3, ordered 0: index 3 - 1 = 2, 1000 * (3/2)^2 = 2250
    assert_eq!(e.round, 3);
    assert_eq!(e.reason, NewRoundReason::Timeout);
    assert_eq!(e.timeout_ms, 2250);
}
