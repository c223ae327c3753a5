use round_liveness::interval::{ExponentialTimeInterval, RoundTimeInterval};

fn make(base_ms: u64, numer: u64, denom: u64, max_exponent: u64) -> ExponentialTimeInterval {
    ExponentialTimeInterval::new(base_ms, numer, denom, max_exponent).unwrap()
}

#[test]
fn fixed_interval_is_constant() {
    let iv = ExponentialTimeInterval::fixed(1000);
    assert_eq!(iv.get_round_duration(0), 1000);
    assert_eq!(iv.get_round_duration(1), 1000);
    assert_eq!(iv.get_round_duration(100), 1000);
}

#[test]
fn exponential_interval_exact_values() {
    // base 100 ms, growth factor 3/2, capped exponent 5
    let iv = make(100, 3, 2, 5);
    assert_eq!(iv.get_round_duration(0), 100);
    assert_eq!(iv.get_round_duration(1), 150);
    assert_eq!(iv.get_round_duration(2), 225);
    // 100 * (3/2)^3 = 337.5, taken by ceiling
    assert_eq!(iv.get_round_duration(3), 338);
    // 100 * (3/2)^4 = 506.25
    assert_eq!(iv.get_round_duration(4), 507);
}

#[test]
fn exponential_interval_saturates_at_cap() {
    let iv = make(1000, 2, 1, 3);
    let at_cap = iv.get_round_duration(3);
    assert_eq!(at_cap, 8000);
    assert_eq!(iv.get_round_duration(4), at_cap);
    assert_eq!(iv.get_round_duration(1_000_000), at_cap);
}

#[test]
fn exponential_interval_nondecreasing() {
    let iv = make(30, 5, 4, 10);
    let mut prev: u64 = 0;
    for idx in 0..20u64 {
        let d = iv.get_round_duration(idx);
        assert!(d >= prev);
        prev = d;
    }
}

#[test]
fn config_rejects_large_exponent() {
    assert!(ExponentialTimeInterval::new(1000, 3, 2, 32).is_none());
    assert!(ExponentialTimeInterval::new(1000, 3, 2, 31).is_some());
}

#[test]
fn config_rejects_oversized_multiplier() {
    // 4^16 = 2^32 exceeds the largest 32-bit multiplier
    assert!(ExponentialTimeInterval::new(1, 4, 1, 16).is_none());
    // 2^31 still fits below u32::MAX
    assert!(ExponentialTimeInterval::new(1, 2, 1, 31).is_some());
}

#[test]
fn config_rejects_zero_ratio_parts() {
    assert!(ExponentialTimeInterval::new(1000, 0, 1, 2).is_none());
    assert!(ExponentialTimeInterval::new(1000, 1, 0, 2).is_none());
}

#[test]
fn fractional_base_below_one_shrinks() {
    // growth factor 1/2: durations shrink and stay ceiled
    let iv = make(1000, 1, 2, 4);
    assert_eq!(iv.get_round_duration(0), 1000);
    assert_eq!(iv.get_round_duration(1), 500);
    assert_eq!(iv.get_round_duration(4), 63);  // ceil(1000 / 16)
}
