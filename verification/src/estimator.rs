//! The ambient-noise estimator: a logarithmic speed-to-noise model,
//! deterministic sensor mocks, and a block RMS level meter.
//!
//! `speed_to_noise` realises `6 ln(speed + 1) + 40` dB through the
//! verified dB/linear conversion (`ln x == log10 x * ln 10`), and is
//! proved monotone in the speed, strictly so at one km/h granularity.

use vstd::prelude::*;

verus! {

use crate::units::db_of_lin;
use crate::units::lin_to_db;
use crate::units::lin_to_db_spec;
use crate::units::DB_MAX;
use vstd::arithmetic::div_mod::lemma_div_is_ordered;
use vstd::arithmetic::div_mod::lemma_div_pos_is_pos;

/// Largest accepted speed: 999 km/h in micro-km/h.
pub const SPEED_MAX: i64 = 999_000_000;

/// Largest accepted measurement block length.
pub const BLOCK_MAX: usize = 100_000_000;

/// Micro-dB of ambient noise attributed to a road speed in
/// micro-km/h: `6 * ln(speed + 1) + 40` dB.
pub open spec fn speed_to_noise_spec(v: int) -> int {
    40_000_000 + 6 * (lin_to_db_spec(v + 1_000_000) * 2_302_585 / 20_000_000)
}

/// The decibel reading of a speed is non-negative and capped.
proof fn lemma_speed_db_range(v: int, d: int)
    requires
        0 <= v <= SPEED_MAX,
        db_of_lin(v + 1_000_000, d),
    ensures
        0 <= d <= DB_MAX,
{
    crate::units::lemma_db_to_lin_values();
    if d < 0 {
        crate::units::lemma_db_to_lin_mono(d + 1, 0);
        assert(false);
    }
}

/// Ambient noise attributed to road speed, rising with the logarithm
/// of the speed.
pub fn speed_to_noise(speed_kmh: i64) -> (r: i64)
    requires
        0 <= speed_kmh <= SPEED_MAX,
    ensures
        r == speed_to_noise_spec(speed_kmh as int),
        40_000_000 <= r <= 82_000_000,
{
    let l: i64 = speed_kmh + 1_000_000;
    let d: i64 = lin_to_db(l);
    proof {
        lemma_speed_db_range(speed_kmh as int, d as int);
        lemma_div_pos_is_pos(d * 2_302_585, 20_000_000);
        assert(d * 2_302_585 <= 60_000_000 * 2_302_585) by {
            vstd::arithmetic::mul::lemma_mul_inequality(d as int, 60_000_000, 2_302_585);
        }
        lemma_div_is_ordered(d * 2_302_585, 138_155_100_000_000, 20_000_000);
    }
    let ln_mu: i64 = d * 2_302_585 / 20_000_000;
    40_000_000 + 6 * ln_mu
}

/// More speed never means less estimated noise.
pub proof fn law_speed_noise_monotone(v1: int, v2: int)
    requires
        0 <= v1 <= v2 <= SPEED_MAX,
    ensures
        speed_to_noise_spec(v1) <= speed_to_noise_spec(v2),
{
    crate::units::lemma_lin_to_db_mono(v1 + 1_000_000, v2 + 1_000_000);
    let d1 = lin_to_db_spec(v1 + 1_000_000);
    let d2 = lin_to_db_spec(v2 + 1_000_000);
    assert(d1 * 2_302_585 <= d2 * 2_302_585) by {
        vstd::arithmetic::mul::lemma_mul_inequality(d1, d2, 2_302_585);
    }
    lemma_div_is_ordered(d1 * 2_302_585, d2 * 2_302_585, 20_000_000);
}

/// One more km/h of speed strictly raises the estimated noise.
#[verifier::rlimit(100)]
pub proof fn law_speed_noise_strict(v1: int, v2: int)
    requires
        0 <= v1,
        v1 + 1_000_000 <= v2 <= SPEED_MAX,
    ensures
        speed_to_noise_spec(v1) + 6 <= speed_to_noise_spec(v2),
{
    let l1 = v1 + 1_000_000;
    let l2 = v2 + 1_000_000;
    crate::units::lemma_db_of_lin_exists(l1);
    crate::units::lemma_db_of_lin_exists(l2);
    let d1 = lin_to_db_spec(l1);
    let d2 = lin_to_db_spec(l2);
    assert(db_of_lin(l1, d1));
    assert(db_of_lin(l2, d2));
    lemma_speed_db_range(v1, d1);
    lemma_speed_db_range(v2, d2);
    // d1 stays at least nine micro-dB below the top of the range
    crate::units::lemma_db_to_lin_growth9(DB_MAX - 9);
    crate::units::lemma_db_to_lin_values();
    if d1 > DB_MAX - 9 {
        crate::units::lemma_db_to_lin_mono(DB_MAX - 9, d1);
        assert(false);
    }
    // and d2 exceeds d1 by at least nine micro-dB
    if d2 < DB_MAX {
        if d2 < d1 + 9 {
            crate::units::lemma_db_to_lin_growth9(d1);
            crate::units::lemma_db_to_lin_mono(d2 + 1, d1 + 9);
            assert(false);
        }
    }
    assert(d1 + 9 <= d2);
    assert(d1 * 2_302_585 + 9 * 2_302_585 <= d2 * 2_302_585) by {
        vstd::arithmetic::mul::lemma_mul_inequality(d1 + 9, d2, 2_302_585);
        vstd::arithmetic::mul::lemma_mul_is_distributive_add_other_way(2_302_585, d1, 9);
    }
    crate::units::lemma_div_superadd(d1 * 2_302_585, 20_723_265, 20_000_000);
    lemma_div_is_ordered(
        d1 * 2_302_585 + 20_723_265,
        d2 * 2_302_585,
        20_000_000,
    );
}

/// Simulated cabin noise in micro-dB at a simulated time `t`
/// (micro-seconds): 60 dB with two slow sinusoidal modulations.
pub open spec fn mock_cabin_spec(t: int) -> int {
    60_000_000 + 5 * crate::trig::sin_spec(t / 5) + 8 * crate::trig::sin_spec(t / 2)
}

/// Simulated road speed in micro-km/h at a simulated time `t`
/// (micro-seconds): 60 km/h with a slow sinusoidal swing of 40.
pub open spec fn mock_speed_spec(t: int) -> int {
    60_000_000 + 40 * crate::trig::sin_spec(t / 20)
}

/// Deterministic simulated cabin noise, always within [47, 73] dB.
pub fn mock_get_cabin_noise_db(t: i64) -> (r: i64)
    requires
        0 <= t <= crate::trig::SIN_ARG_MAX,
    ensures
        r == mock_cabin_spec(t as int),
        47_000_000 <= r <= 73_000_000,
{
    proof {
        lemma_div_pos_is_pos(t as int, 5);
        lemma_div_pos_is_pos(t as int, 2);
        lemma_div_is_ordered(t as int, crate::trig::SIN_ARG_MAX as int, 5);
        lemma_div_is_ordered(t as int, crate::trig::SIN_ARG_MAX as int, 2);
    }
    let slow: i64 = crate::trig::sin_micro(t / 5);
    let fast: i64 = crate::trig::sin_micro(t / 2);
    60_000_000 + 5 * slow + 8 * fast
}

/// Deterministic simulated road speed, always within [20, 100] km/h.
pub fn mock_get_speed_kmh(t: i64) -> (r: i64)
    requires
        0 <= t <= crate::trig::SIN_ARG_MAX,
    ensures
        r == mock_speed_spec(t as int),
        20_000_000 <= r <= 100_000_000,
{
    proof {
        lemma_div_pos_is_pos(t as int, 20);
        lemma_div_is_ordered(t as int, crate::trig::SIN_ARG_MAX as int, 20);
    }
    let swing: i64 = crate::trig::sin_micro(t / 20);
    60_000_000 + 40 * swing
}

/// `r` is the integer square root of `x`.
pub open spec fn sq_root_of(x: int, r: int) -> bool {
    &&& 0 <= r
    &&& r * r <= x
    &&& x < (r + 1) * (r + 1)
}

/// Integer square roots are unique.
pub proof fn lemma_sq_root_unique(x: int, r1: int, r2: int)
    requires
        sq_root_of(x, r1),
        sq_root_of(x, r2),
    ensures
        r1 == r2,
{
    if r1 < r2 {
        assert((r1 + 1) * (r1 + 1) <= r2 * r2) by (nonlinear_arith)
            requires
                0 <= r1 < r2,
        ;
    }
    if r2 < r1 {
        assert((r2 + 1) * (r2 + 1) <= r1 * r1) by (nonlinear_arith)
            requires
                0 <= r2 < r1,
        ;
    }
}

/// The integer square root of a non-negative value.
pub open spec fn isqrt_spec(x: int) -> int {
    choose|r: int| sq_root_of(x, r)
}

/// A witness pins `isqrt_spec` down.
pub proof fn lemma_isqrt_spec_is(x: int, r: int)
    requires
        sq_root_of(x, r),
    ensures
        isqrt_spec(x) == r,
{
    assert(sq_root_of(x, isqrt_spec(x)));
    lemma_sq_root_unique(x, isqrt_spec(x), r);
}

/// Integer square root of values below 2^70, by bisection.
pub fn isqrt_u128(x: u128) -> (r: u64)
    requires
        (x as int) < 1_180_591_620_717_411_303_424,
    ensures
        sq_root_of(x as int, r as int),
        r == isqrt_spec(x as int),
        r < 34_359_738_368,
{
    let mut lo: u64 = 0;
    let mut hi: u64 = 34_359_738_368;
    proof {
        assert((hi as int) * (hi as int) == 1_180_591_620_717_411_303_424)
            by (nonlinear_arith)
            requires
                hi == 34_359_738_368u64,
        ;
    }
    while lo + 1 < hi
        invariant
            lo < hi <= 34_359_738_368,
            (lo as int) * (lo as int) <= x as int,
            (x as int) < (hi as int) * (hi as int),
        decreases hi - lo,
    {
        let mid: u64 = lo + (hi - lo) / 2;
        proof {
            lemma_div_is_ordered(2, (hi - lo) as int, 2);
            vstd::arithmetic::div_mod::lemma_div_is_strictly_smaller((hi - lo) as int, 2);
            assert((mid as int) * (mid as int) < 1_180_591_620_717_411_303_424)
                by (nonlinear_arith)
                requires
                    0 <= (mid as int) < 34_359_738_368,
            ;
        }
        let sq: u128 = (mid as u128) * (mid as u128);
        if sq <= x {
            lo = mid;
        } else {
            hi = mid;
        }
    }
    proof {
        lemma_isqrt_spec_is(x as int, lo as int);
    }
    lo
}

/// Sum of squared samples of a measurement block.
pub open spec fn sum_sq(s: Seq<i16>) -> int
    decreases s.len(),
{
    if s.len() == 0 {
        0
    } else {
        sum_sq(s.drop_last()) + (s.last() as int) * (s.last() as int)
    }
}

/// The sum of squares is non-negative and at most the block length
/// times the largest square.
pub proof fn lemma_sum_sq_bounds(s: Seq<i16>)
    ensures
        0 <= sum_sq(s) <= s.len() * 1_073_741_824,
    decreases s.len(),
{
    if s.len() == 0 {
        assert(s.len() * 1_073_741_824 == 0) by (nonlinear_arith)
            requires
                s.len() == 0,
        ;
    } else {
        lemma_sum_sq_bounds(s.drop_last());
        let v = s.last() as int;
        assert(0 <= v * v <= 1_073_741_824) by (nonlinear_arith)
            requires
                -32_768 <= v <= 32_767,
        ;
        assert(s.len() * 1_073_741_824 == s.drop_last().len() * 1_073_741_824
            + 1_073_741_824) by (nonlinear_arith)
            requires
                s.len() >= 1,
                s.drop_last().len() == s.len() - 1,
        ;
    }
}

/// The root-mean-square amplitude of a block, in micro-units of one
/// sample step; zero for an empty block.
pub open spec fn rms_micro_spec(s: Seq<i16>) -> int {
    if s.len() == 0 {
        0
    } else {
        isqrt_spec(sum_sq(s) * 1_000_000_000_000 / (s.len() as int))
    }
}

/// Default calibration offset for level-to-dB conversion: 94 dB.
pub const CALIBRATION_DB: i64 = 94_000_000;

/// A block level reading in micro-dB: the RMS amplitude normalized to
/// full scale, floored at one thousandth to avoid the logarithm of
/// zero, converted to decibels, plus a calibration offset.
pub open spec fn rms_level_spec(s: Seq<i16>, calibration_db: int) -> int {
    let norm = rms_micro_spec(s) / 32_767;
    let l = if norm < 1_000 {
        1_000
    } else {
        norm
    };
    lin_to_db_spec(l) + calibration_db
}

/// The same reading at the default calibration offset.
pub open spec fn rms_to_db_spec(s: Seq<i16>) -> int {
    rms_level_spec(s, 94_000_000)
}

/// Measure a block of samples in micro-dB relative to full scale,
/// shifted by a configurable calibration offset.
pub fn rms_level_db(samples: &Vec<i16>, calibration_db: i64) -> (r: i64)
    requires
        samples@.len() <= BLOCK_MAX,
        0 <= calibration_db <= 120_000_000,
    ensures
        r == rms_level_spec(samples@, calibration_db as int),
        calibration_db - 60_000_000 <= r <= calibration_db + 100_000,
{
    proof {
        lemma_sum_sq_bounds(samples@);
    }
    let n: usize = samples.len();
    let mut acc: u64 = 0;
    let mut idx: usize = 0;
    while idx < n
        invariant
            n == samples@.len() <= BLOCK_MAX,
            idx <= n,
            acc == sum_sq(samples@.subrange(0, idx as int)),
            acc <= (idx as int) * 1_073_741_824,
        decreases n - idx,
    {
        let s: i16 = samples[idx];
        proof {
            assert(0 <= (s as int) * (s as int) <= 1_073_741_824) by (nonlinear_arith)
                requires
                    -32_768 <= s as int <= 32_767,
            ;
            assert((idx as int) * 1_073_741_824 + 1_073_741_824 == (idx as int + 1)
                * 1_073_741_824) by (nonlinear_arith);
            assert(samples@.subrange(0, idx as int + 1).drop_last() =~= samples@.subrange(
                0,
                idx as int,
            ));
            assert((idx as int + 1) * 1_073_741_824 <= 100_000_000int * 1_073_741_824)
                by (nonlinear_arith)
                requires
                    idx as int + 1 <= 100_000_000,
            ;
        }
        let wide: i64 = (s as i64) * (s as i64);
        acc = acc + (wide as u64);
        idx = idx + 1;
    }
    proof {
        assert(samples@.subrange(0, n as int) =~= samples@);
        assert((n as int) * 1_073_741_824 <= 100_000_000int * 1_073_741_824)
            by (nonlinear_arith)
            requires
                n as int <= 100_000_000,
        ;
    }
    let norm: i64 = if n == 0 {
        proof {
            assert(0int / 32_767 == 0);
        }
        0
    } else {
        proof {
            lemma_scaled_mean_bound(acc as int, n as int);
        }
        let scaled: u128 = (acc as u128) * 1_000_000_000_000 / (n as u128);
        let root: u64 = isqrt_u128(scaled);
        proof {
            lemma_root_bound(scaled as int, root as int);
            lemma_div_pos_is_pos(root as int, 32_767);
            lemma_div_is_ordered(root as int, 32_768_000_000, 32_767);
        }
        (root / 32_767) as i64
    };
    assert(norm == rms_micro_spec(samples@) / 32_767);
    assert(0 <= norm <= 1_000_030);
    let l: i64 = if norm < 1_000 {
        1_000
    } else {
        norm
    };
    let d: i64 = lin_to_db(l);
    proof {
        crate::units::lemma_db_to_lin_values();
        let dd = d as int;
        if dd >= 31_000 {
            crate::units::lemma_db_to_lin_grows_chain(0, 31);
            crate::units::lemma_db_to_lin_mono(31_000, dd);
            assert(false);
        }
    }
    d + calibration_db
}

/// Measure a block of samples in micro-dB relative to full scale,
/// with the default 94 dB calibration offset.
pub fn rms_to_db(samples: &Vec<i16>) -> (r: i64)
    requires
        samples@.len() <= BLOCK_MAX,
    ensures
        r == rms_to_db_spec(samples@),
        34_000_000 <= r <= 94_100_000,
{
    rms_level_db(samples, CALIBRATION_DB)
}

/// The scaled mean square of a block stays below 2^70.
proof fn lemma_scaled_mean_bound(acc: int, n: int)
    requires
        0 < n <= 100_000_000,
        0 <= acc <= n * 1_073_741_824,
    ensures
        0 <= acc * 1_000_000_000_000 / n <= 1_073_741_824_000_000_000_000,
{
    assert(0 <= acc * 1_000_000_000_000) by {
        vstd::arithmetic::mul::lemma_mul_inequality(0, acc, 1_000_000_000_000);
    }
    lemma_div_pos_is_pos(acc * 1_000_000_000_000, n);
    assert(acc * 1_000_000_000_000 <= (n * 1_073_741_824) * 1_000_000_000_000) by {
        vstd::arithmetic::mul::lemma_mul_inequality(acc, n * 1_073_741_824, 1_000_000_000_000);
    }
    assert((n * 1_073_741_824) * 1_000_000_000_000 == n * 1_073_741_824_000_000_000_000)
        by (nonlinear_arith);
    lemma_div_is_ordered(acc * 1_000_000_000_000, n * 1_073_741_824_000_000_000_000, n);
    assert(n * 1_073_741_824_000_000_000_000 / n == 1_073_741_824_000_000_000_000) by {
        vstd::arithmetic::div_mod::lemma_div_by_multiple(1_073_741_824_000_000_000_000, n);
        vstd::arithmetic::mul::lemma_mul_is_commutative(1_073_741_824_000_000_000_000, n);
    }
}

/// A square root of the scaled mean square stays within one full-scale
/// step.
proof fn lemma_root_bound(x: int, r: int)
    requires
        0 <= x <= 1_073_741_824_000_000_000_000,
        sq_root_of(x, r),
    ensures
        r <= 32_768_000_000,
{
    if r > 32_768_000_000 {
        assert(32_768_000_001 * 32_768_000_001 <= r * r) by (nonlinear_arith)
            requires
                r >= 32_768_000_001,
        ;
    }
}

} // verus!
