use round_liveness::payload_client::{PullDecision, QuorumStoreClient, NO_TXN_DELAY_MS};
use round_liveness::tx_api::{TxRequest, TxResponse};

fn client() -> QuorumStoreClient {
    // threshold: fill fraction 900/1000, at most 4 pending blocks
    QuorumStoreClient::new(500, 900, 4)
}

#[test]
fn back_pressure_heuristic_flags() {
    let c = client();
    // recent blocks nearly empty, little in flight: non-full is fine
    let t = c.start_pull(1000, false, 1, 100);
    assert!(t.return_non_full);
    assert!(!t.return_empty);
    // with proposals already in flight an empty payload is fine too
    let t = c.start_pull(1000, true, 1, 100);
    assert!(t.return_non_full);
    assert!(t.return_empty);
    // recent blocks were full: wait for full blocks
    let t = c.start_pull(1000, true, 1, 900);
    assert!(!t.return_non_full);
    assert!(!t.return_empty);
    // too many pending blocks: wait for full blocks
    let t = c.start_pull(1000, true, 4, 100);
    assert!(!t.return_non_full);
    assert!(!t.return_empty);
}

#[test]
fn metric_observes_waiting_for_full_blocks() {
    let c = client();
    let relaxed = c.start_pull(1000, false, 0, 0);
    assert_eq!(c.wait_for_full_blocks_observation(&relaxed), 0);
    let strict = c.start_pull(1000, false, 9, 0);
    assert_eq!(c.wait_for_full_blocks_observation(&strict), 1);
}

#[test]
fn request_flag_relaxes_once_time_is_spent() {
    let c = client();
    let t = c.start_pull(1000, false, 9, 950);
    assert!(!t.return_non_full);
    assert!(!t.request_return_non_full(999));
    // the soft bound is spent: ask for whatever is there
    assert!(t.request_return_non_full(1000));
}

#[test]
fn empty_payload_is_retried_with_one_shot_callback() {
    let c = client();
    let mut t = c.start_pull(1000, false, 9, 950);
    // first empty answer: retry, run the wait callback
    assert_eq!(
        t.on_response(10, 0),
        PullDecision::RetryAfter { sleep_ms: NO_TXN_DELAY_MS, invoke_wait_callback: true }
    );
    // second empty answer: retry, but the callback already ran
    assert_eq!(
        t.on_response(50, 0),
        PullDecision::RetryAfter { sleep_ms: NO_TXN_DELAY_MS, invoke_wait_callback: false }
    );
    // a payload arrived: accept it
    assert_eq!(t.on_response(90, 17), PullDecision::Finish);
}

#[test]
fn empty_payload_is_accepted_when_return_empty_holds() {
    let c = client();
    let mut t = c.start_pull(1000, true, 1, 100);
    assert!(t.return_empty);
    assert_eq!(t.on_response(10, 0), PullDecision::Finish);
}

#[test]
fn no_retry_after_the_poll_bound() {
    let c = client();
    let mut t = c.start_pull(1000, false, 9, 950);
    // even an empty payload is accepted once the soft bound is spent
    assert_eq!(t.on_response(1000, 0), PullDecision::Finish);
}

#[test]
fn tx_api_shapes_round_trip() {
    let req = TxRequest::new(vec![1, 2, 3, 4]);
    assert_eq!(req.tx, vec![1, 2, 3, 4]);
    let resp = TxResponse::empty();
    assert!(resp.tx.is_empty());
}
