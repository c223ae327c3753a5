//! Per-round timeout durations.
//!
//! A round's timeout grows exponentially with the round's index after the
//! last ordered round: `duration_ms(idx) = ceil(base_ms * eb ^ min(idx,
//! max_exponent))`, where the exponent base `eb` is a positive rational
//! `exponent_numer / exponent_denom`. The result is clamped to `u64::MAX`.

use vstd::prelude::*;
use vstd::arithmetic::power::{
    pow, lemma_pow0, lemma_pow1, lemma_pow_adds, lemma_pow_increases, lemma_pow_positive,
};
use vstd::arithmetic::mul::lemma_mul_inequality;
use vstd::arithmetic::div_mod::{lemma_fundamental_div_mod, lemma_hoist_over_denominator};

verus! {

/// Ceiling of `a / b`, for a nonnegative numerator and positive denominator.
pub open spec fn ceil_div(a: int, b: int) -> int
    recommends
        a >= 0,
        b >= 1,
{
    (a + b - 1) / b
}

/// Duration policy for a round: the timeout assigned to a round is derived
/// from the round's index after the last ordered round. Round indices start
/// at 0: index 0 is the first round after the round that led to the highest
/// ordered round.
pub trait RoundTimeInterval: Sized {
    /// Well-formedness of the policy's configuration.
    spec fn wf(&self) -> bool;

    /// The duration, in milliseconds, the policy assigns to a round index.
    spec fn spec_duration_ms(&self, idx: nat) -> int;

    /// Computes the duration for one round index.
    fn get_round_duration(&self, round_index_after_ordered_qc: u64) -> (r: u64)
        requires
            self.wf(),
        ensures
            r == self.spec_duration_ms(round_index_after_ordered_qc as nat),
    ;
}

/// Exponential back-off policy with a cap on the exponent.
pub struct ExponentialTimeInterval {
    /// Duration of the first round after a successful quorum ordering.
    pub base_ms: u64,
    /// Numerator of the rational growth factor per index step.
    pub exponent_numer: u64,
    /// Denominator of the rational growth factor per index step.
    pub exponent_denom: u64,
    /// The exponent applied to an index never exceeds this bound.
    pub max_exponent: u64,
}

/// Acceptable configurations: a positive rational exponent base, an exponent
/// cap below 32, a denominator power that fits a machine word, and a maximum
/// multiplier `ceil(eb ^ max_exponent)` below `u32::MAX`.
pub open spec fn config_ok(base_ms: u64, numer: u64, denom: u64, max_exponent: u64) -> bool {
    &&& numer >= 1
    &&& denom >= 1
    &&& max_exponent < 32
    &&& pow(denom as int, max_exponent as nat) <= u64::MAX
    &&& ceil_div(
        pow(numer as int, max_exponent as nat),
        pow(denom as int, max_exponent as nat),
    ) < u32::MAX
}

impl ExponentialTimeInterval {
    /// The exponent actually applied to an index: capped at `max_exponent`.
    pub open spec fn capped_exp(&self, idx: nat) -> nat {
        if idx < self.max_exponent { idx } else { self.max_exponent as nat }
    }

    /// Exact value of `ceil(base_ms * eb ^ min(idx, max_exponent))`.
    pub open spec fn raw_duration_ms(&self, idx: nat) -> int {
        ceil_div(
            self.base_ms * pow(self.exponent_numer as int, self.capped_exp(idx)),
            pow(self.exponent_denom as int, self.capped_exp(idx)),
        )
    }

    /// Builds the policy. Configurations for which the maximum interval
    /// multiplier `ceil(eb ^ max_exponent)` would not fit below `u32::MAX`,
    /// a zero numerator or denominator, an exponent cap of 32 or more, or a
    /// denominator power beyond `u64::MAX` are rejected with `None`.
    pub fn new(base_ms: u64, exponent_numer: u64, exponent_denom: u64, max_exponent: u64) -> (r:
        Option<Self>)
        ensures
            r is Some <==> config_ok(base_ms, exponent_numer, exponent_denom, max_exponent),
            r is Some ==> r->Some_0 == (ExponentialTimeInterval {
                base_ms,
                exponent_numer,
                exponent_denom,
                max_exponent,
            }),
    {
        if exponent_numer < 1 || exponent_denom < 1 || max_exponent >= 32 {
            return None;
        }
        let dpow = match pow_capped(exponent_denom, max_exponent, u64::MAX as u128) {
            Some(v) => v,
            None => {
                return None;
            },
        };
        proof {
            lemma_pow_positive(exponent_numer as int, max_exponent as nat);
            lemma_pow_positive(exponent_denom as int, max_exponent as nat);
            lemma_ceil_div_bound(
                pow(exponent_numer as int, max_exponent as nat),
                dpow as int,
                u32::MAX as int,
            );
            assert((u32::MAX - 1) * dpow <= u128::MAX) by (nonlinear_arith)
                requires
                    dpow <= u64::MAX,
            ;
        }
        let cap: u128 = (u32::MAX as u128 - 1) * dpow;
        match pow_capped(exponent_numer, max_exponent, cap) {
            Some(_) => Some(
                ExponentialTimeInterval { base_ms, exponent_numer, exponent_denom, max_exponent },
            ),
            None => None,
        }
    }

    /// A constant policy: every index maps to `duration_ms`.
    pub fn fixed(duration_ms: u64) -> (r: Self)
        ensures
            r.wf(),
            r == (ExponentialTimeInterval {
                base_ms: duration_ms,
                exponent_numer: 1,
                exponent_denom: 1,
                max_exponent: 0,
            }),
            forall|idx: nat| r.spec_duration_ms(idx) == duration_ms,
    {
        let iv = ExponentialTimeInterval {
            base_ms: duration_ms,
            exponent_numer: 1,
            exponent_denom: 1,
            max_exponent: 0,
        };
        proof {
            lemma_pow0(1int);
            assert(iv.wf());
            assert forall|idx: nat| iv.spec_duration_ms(idx) == duration_ms by {
                assert(iv.capped_exp(idx) == 0nat);
                assert(iv.raw_duration_ms(idx) == ceil_div(duration_ms as int, 1));
                assert(ceil_div(duration_ms as int, 1) == duration_ms);
            }
        }
        iv
    }
}

impl RoundTimeInterval for ExponentialTimeInterval {
    open spec fn wf(&self) -> bool {
        config_ok(self.base_ms, self.exponent_numer, self.exponent_denom, self.max_exponent)
    }

    /// The exact rational duration, clamped to `u64::MAX`.
    open spec fn spec_duration_ms(&self, idx: nat) -> int {
        if self.raw_duration_ms(idx) > u64::MAX {
            u64::MAX as int
        } else {
            self.raw_duration_ms(idx)
        }
    }

    fn get_round_duration(&self, round_index_after_ordered_qc: u64) -> (r: u64) {
        let p: u64 = if round_index_after_ordered_qc < self.max_exponent {
            round_index_after_ordered_qc
        } else {
            self.max_exponent
        };
        proof {
            self.lemma_capped_pow_bounds(p as nat);
            assert(pow(self.exponent_numer as int, p as nat) <= (u32::MAX - 1) * (u64::MAX as int))
                by (nonlinear_arith)
                requires
                    pow(self.exponent_numer as int, p as nat) <= (u32::MAX - 1) * pow(
                        self.exponent_denom as int,
                        p as nat,
                    ),
                    0 <= pow(self.exponent_denom as int, p as nat) <= u64::MAX,
            ;
            assert((u32::MAX - 1) * (u64::MAX as int) <= u128::MAX);
        }
        let pd: u128 = pow_exact(self.exponent_denom, p);
        let pn: u128 = pow_exact(self.exponent_numer, p);
        let q: u128 = pn / pd;
        let rem: u128 = pn % pd;
        proof {
            lemma_fundamental_div_mod(pn as int, pd as int);
            assert(q <= u32::MAX - 1 && rem < pd) by (nonlinear_arith)
                requires
                    pn == pd * q + rem,
                    0 <= rem < pd,
                    1 <= pd,
                    pn <= (u32::MAX - 1) * pd,
            ;
            assert((self.base_ms as int) * q + ((self.base_ms as int) * rem + (pd - 1)) / (
            pd as int) <= u128::MAX) by (nonlinear_arith)
                requires
                    q <= u32::MAX - 1,
                    0 <= rem < pd,
                    1 <= pd <= u64::MAX,
                    self.base_ms <= u64::MAX,
            ;
            assert((self.base_ms as int) * rem + (pd - 1) <= u128::MAX) by (nonlinear_arith)
                requires
                    0 <= rem < pd,
                    1 <= pd <= u64::MAX,
                    self.base_ms <= u64::MAX,
            ;
        }
        let t1: u128 = (self.base_ms as u128) * q;
        let t2: u128 = ((self.base_ms as u128) * rem + (pd - 1)) / pd;
        let total: u128 = t1 + t2;
        proof {
            lemma_ceil_div_split(self.base_ms as int, pn as int, pd as int);
            assert(t2 == ceil_div((self.base_ms as int) * (rem as int), pd as int));
            assert(self.capped_exp(round_index_after_ordered_qc as nat) == p as nat);
            assert(total == self.raw_duration_ms(round_index_after_ordered_qc as nat));
        }
        if total > u64::MAX as u128 {
            u64::MAX
        } else {
            total as u64
        }
    }
}

/// Computes `b ^ e` exactly in a 128-bit word.
fn pow_exact(b: u64, e: u64) -> (r: u128)
    requires
        1 <= b,
        pow(b as int, e as nat) <= u128::MAX,
    ensures
        r == pow(b as int, e as nat),
{
    let mut acc: u128 = 1;
    let mut i: u64 = 0;
    proof {
        lemma_pow0(b as int);
    }
    while i < e
        invariant
            1 <= b,
            i <= e,
            acc == pow(b as int, i as nat),
            pow(b as int, e as nat) <= u128::MAX,
        decreases e - i,
    {
        proof {
            lemma_pow_increases(b as nat, (i + 1) as nat, e as nat);
            lemma_pow_unfold_back(b as int, (i + 1) as nat);
            lemma_pow_positive(b as int, i as nat);
        }
        acc = acc * (b as u128);
        i = i + 1;
    }
    acc
}

/// Computes `b ^ e` unless the result exceeds `cap`.
fn pow_capped(b: u64, e: u64, cap: u128) -> (r: Option<u128>)
    requires
        1 <= b,
    ensures
        match r {
            Some(p) => p == pow(b as int, e as nat) && p <= cap,
            None => pow(b as int, e as nat) > cap,
        },
{
    if cap < 1 {
        proof {
            lemma_pow_positive(b as int, e as nat);
        }
        return None;
    }
    let mut acc: u128 = 1;
    let mut i: u64 = 0;
    proof {
        lemma_pow0(b as int);
    }
    while i < e
        invariant
            1 <= b,
            1 <= cap,
            i <= e,
            acc == pow(b as int, i as nat),
            acc <= cap,
        decreases e - i,
    {
        proof {
            lemma_pow_unfold_back(b as int, (i + 1) as nat);
            lemma_pow_positive(b as int, i as nat);
            lemma_fundamental_div_mod(cap as int, b as int);
        }
        if acc > cap / (b as u128) {
            proof {
                assert(acc * b > cap) by (nonlinear_arith)
                    requires
                        cap == (cap as int / b as int) * b + (cap as int % b as int),
                        (cap as int % b as int) < b,
                        acc >= (cap as int / b as int) + 1,
                        1 <= b,
                ;
                lemma_pow_increases(b as nat, (i + 1) as nat, e as nat);
            }
            return None;
        }
        proof {
            assert(acc * b <= cap) by (nonlinear_arith)
                requires
                    cap == (cap as int / b as int) * b + (cap as int % b as int),
                    0 <= (cap as int % b as int),
                    acc <= (cap as int / b as int),
                    1 <= b,
            ;
        }
        acc = acc * (b as u128);
        i = i + 1;
    }
    Some(acc)
}

/// `pow(b, e) == pow(b, e - 1) * b` for a positive exponent.
proof fn lemma_pow_unfold_back(b: int, e: nat)
    requires
        e >= 1,
    ensures
        pow(b, e) == pow(b, (e - 1) as nat) * b,
{
    lemma_pow_adds(b, (e - 1) as nat, 1nat);
    lemma_pow1(b);
}

/// For a positive denominator, `ceil_div(a, b) < c` exactly when `a <= (c - 1) * b`.
proof fn lemma_ceil_div_bound(a: int, b: int, c: int)
    requires
        a >= 0,
        b >= 1,
        c >= 1,
    ensures
        ceil_div(a, b) < c <==> a <= (c - 1) * b,
{
    lemma_fundamental_div_mod(a + b - 1, b);
    assert(ceil_div(a, b) < c ==> a <= (c - 1) * b) by (nonlinear_arith)
        requires
            a >= 0,
            b >= 1,
            c >= 1,
            a + b - 1 == b * ((a + b - 1) / b) + ((a + b - 1) % b),
            0 <= (a + b - 1) % b < b,
    ;
    assert(a <= (c - 1) * b ==> (a + b - 1) / b < c) by (nonlinear_arith)
        requires
            a >= 0,
            b >= 1,
            c >= 1,
            a + b - 1 == b * ((a + b - 1) / b) + ((a + b - 1) % b),
            0 <= (a + b - 1) % b < b,
    ;
}

/// Splitting a ceiling division along the quotient and remainder of `n / d`:
/// `ceil(x * n / d) == x * (n / d) + ceil(x * (n % d) / d)`.
proof fn lemma_ceil_div_split(x: int, n: int, d: int)
    requires
        x >= 0,
        n >= 0,
        d >= 1,
    ensures
        ceil_div(x * n, d) == x * (n / d) + ceil_div(x * (n % d), d),
{
    let q = n / d;
    let r = n % d;
    lemma_fundamental_div_mod(n, d);
    assert(x * n == (x * q) * d + x * r) by (nonlinear_arith)
        requires
            n == d * q + r,
    ;
    lemma_hoist_over_denominator(x * r + d - 1, x * q, d as nat);
    assert((x * r + d - 1) / d + (x * q) == (x * r + d - 1 + (x * q) * d) / d);
    assert(x * n + d - 1 == x * r + d - 1 + (x * q) * d);
}

/// Exponentiation is monotone in the base.
proof fn lemma_pow_base_monotone(b1: int, b2: int, e: nat)
    requires
        1 <= b1 <= b2,
    ensures
        pow(b1, e) <= pow(b2, e),
    decreases e,
{
    if e == 0 {
        lemma_pow0(b1);
        lemma_pow0(b2);
    } else {
        lemma_pow_base_monotone(b1, b2, (e - 1) as nat);
        lemma_pow_positive(b1, (e - 1) as nat);
        lemma_pow_positive(b2, (e - 1) as nat);
        lemma_pow_unfold_back(b1, e);
        lemma_pow_unfold_back(b2, e);
        assert(b1 * pow(b1, (e - 1) as nat) <= b2 * pow(b2, (e - 1) as nat)) by (nonlinear_arith)
            requires
                1 <= b1 <= b2,
                1 <= pow(b1, (e - 1) as nat) <= pow(b2, (e - 1) as nat),
        ;
    }
}

/// The rational `(n / d) ^ p` is monotone in `p` when `n >= d`, stated by
/// cross-multiplication: `n^p1 * d^p2 <= n^p2 * d^p1` for `p1 <= p2`.
proof fn lemma_ratio_pow_monotone(n: int, d: int, p1: nat, p2: nat)
    requires
        1 <= d <= n,
        p1 <= p2,
    ensures
        pow(n, p1) * pow(d, p2) <= pow(n, p2) * pow(d, p1),
{
    let k = (p2 - p1) as nat;
    lemma_pow_adds(n, p1, k);
    lemma_pow_adds(d, p1, k);
    lemma_pow_base_monotone(d, n, k);
    lemma_pow_positive(n, p1);
    lemma_pow_positive(d, p1);
    lemma_pow_positive(d, k);
    assert(pow(n, p1) * (pow(d, p1) * pow(d, k)) <= (pow(n, p1) * pow(n, k)) * pow(d, p1))
        by (nonlinear_arith)
        requires
            1 <= pow(n, p1),
            1 <= pow(d, p1),
            1 <= pow(d, k) <= pow(n, k),
    ;
}

impl ExponentialTimeInterval {
    /// Bounds on the capped powers that every in-range exponent inherits
    /// from the configuration's bound at `max_exponent`.
    proof fn lemma_capped_pow_bounds(&self, p: nat)
        requires
            self.wf(),
            p <= self.max_exponent,
        ensures
            1 <= pow(self.exponent_denom as int, p) <= u64::MAX,
            1 <= pow(self.exponent_numer as int, p) <= (u32::MAX - 1) * pow(
                self.exponent_denom as int,
                p,
            ),
    {
        lemma_pow_positive(self.exponent_numer as int, self.max_exponent as nat);
        let n = self.exponent_numer as int;
        let d = self.exponent_denom as int;
        let m = self.max_exponent as nat;
        lemma_pow_increases(self.exponent_denom as nat, p, m);
        lemma_pow_positive(d, m);
        lemma_pow_positive(d, p);
        lemma_pow_positive(n, p);
        lemma_ceil_div_bound(pow(n, m), pow(d, m), u32::MAX as int);
        if n >= d {
            lemma_ratio_pow_monotone(n, d, p, m);
            assert(pow(n, p) <= (u32::MAX - 1) * pow(d, p)) by (nonlinear_arith)
                requires
                    pow(n, p) * pow(d, m) <= pow(n, m) * pow(d, p),
                    pow(n, m) <= (u32::MAX - 1) * pow(d, m),
                    1 <= pow(d, m),
                    1 <= pow(d, p),
                    0 < pow(n, p),
            ;
        } else {
            lemma_pow_base_monotone(n, d, p);
            assert(pow(n, p) <= (u32::MAX - 1) * pow(d, p)) by (nonlinear_arith)
                requires
                    pow(n, p) <= pow(d, p),
                    1 <= pow(d, p),
            ;
        }
    }
}

/// The duration is non-decreasing in the round index whenever the exponent
/// base is at least one.
pub proof fn lemma_duration_monotone(iv: ExponentialTimeInterval, i1: nat, i2: nat)
    requires
        iv.wf(),
        iv.exponent_numer >= iv.exponent_denom,
        i1 <= i2,
    ensures
        iv.spec_duration_ms(i1) <= iv.spec_duration_ms(i2),
{
    let n = iv.exponent_numer as int;
    let d = iv.exponent_denom as int;
    let p1 = iv.capped_exp(i1);
    let p2 = iv.capped_exp(i2);
    assert(p1 <= p2);
    lemma_ratio_pow_monotone(n, d, p1, p2);
    lemma_pow_positive(n, p1);
    lemma_pow_positive(n, p2);
    lemma_pow_positive(d, p1);
    lemma_pow_positive(d, p2);
    assert((iv.base_ms as int) * pow(n, p1) * pow(d, p2) <= (iv.base_ms as int) * pow(n, p2) * pow(
        d,
        p1,
    )) by (nonlinear_arith)
        requires
            pow(n, p1) * pow(d, p2) <= pow(n, p2) * pow(d, p1),
            iv.base_ms >= 0,
    ;
    lemma_ceil_div_cross(
        (iv.base_ms as int) * pow(n, p1),
        pow(d, p1),
        (iv.base_ms as int) * pow(n, p2),
        pow(d, p2),
    );
}

/// Beyond `max_exponent` the duration saturates: every larger index gets the
/// duration of `max_exponent` itself.
pub proof fn lemma_duration_saturates(iv: ExponentialTimeInterval, idx: nat)
    requires
        iv.wf(),
        idx >= iv.max_exponent,
    ensures
        iv.spec_duration_ms(idx) == iv.spec_duration_ms(iv.max_exponent as nat),
{
    assert(iv.capped_exp(idx) == iv.capped_exp(iv.max_exponent as nat));
}

/// Comparing two ceiling divisions by cross-multiplication:
/// `a / b <= c / d` as rationals implies `ceil(a / b) <= ceil(c / d)`.
proof fn lemma_ceil_div_cross(a: int, b: int, c: int, d: int)
    requires
        a >= 0,
        c >= 0,
        b >= 1,
        d >= 1,
        a * d <= c * b,
    ensures
        ceil_div(a, b) <= ceil_div(c, d),
{
    let k = ceil_div(c, d);
    lemma_fundamental_div_mod(c + d - 1, d);
    assert(c <= k * d) by (nonlinear_arith)
        requires
            c + d - 1 == d * k + ((c + d - 1) % d),
            0 <= (c + d - 1) % d < d,
    ;
    assert(a <= k * b) by (nonlinear_arith)
        requires
            a * d <= c * b,
            c <= k * d,
            a >= 0,
            c >= 0,
            b >= 1,
            d >= 1,
    ;
    lemma_fundamental_div_mod(a + b - 1, b);
    assert((a + b - 1) / b <= k) by (nonlinear_arith)
        requires
            a <= k * b,
            a + b - 1 == b * ((a + b - 1) / b) + ((a + b - 1) % b),
            0 <= (a + b - 1) % b < b,
            b >= 1,
    ;
}

} // verus!
