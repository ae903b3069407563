//! The asymmetric exponential gain smoother.
//!
//! `Smoother` low-pass-filters a target gain value in decibels with
//! separate attack and release time constants.  One step computes
//! `alpha = 1 - exp(-dt / tau)` in micro-units from a table-driven
//! integer exponential, then moves the held value toward the target by
//! the fraction `alpha`.  The held value never overshoots the target.

use vstd::prelude::*;

verus! {

use vstd::arithmetic::div_mod::lemma_fundamental_div_mod;
use vstd::arithmetic::div_mod::lemma_div_is_ordered;

/// Largest accepted time constant: one hour in micro-seconds.
pub const TAU_MAX: i64 = 3_600_000_000;

/// Largest accepted elapsed time for one step: about 46 days in
/// micro-seconds.
pub const DT_MAX: i64 = 4_000_000_000_000;

/// Largest magnitude accepted for held and target decibel values.
pub const DB_LIMIT: i64 = 100_000_000;

/// Interpolation nodes: exp(-k/50) at micro scale for k in 0..=50.
#[verifier::opaque]
pub open spec fn exp_node(k: int) -> int {
    if k <= 0 {
        1000000
    } else if k == 1 {
        980199
    } else if k == 2 {
        960789
    } else if k == 3 {
        941765
    } else if k == 4 {
        923116
    } else if k == 5 {
        904837
    } else if k == 6 {
        886920
    } else if k == 7 {
        869358
    } else if k == 8 {
        852144
    } else if k == 9 {
        835270
    } else if k == 10 {
        818731
    } else if k == 11 {
        802519
    } else if k == 12 {
        786628
    } else if k == 13 {
        771052
    } else if k == 14 {
        755784
    } else if k == 15 {
        740818
    } else if k == 16 {
        726149
    } else if k == 17 {
        711770
    } else if k == 18 {
        697676
    } else if k == 19 {
        683861
    } else if k == 20 {
        670320
    } else if k == 21 {
        657047
    } else if k == 22 {
        644036
    } else if k == 23 {
        631284
    } else if k == 24 {
        618783
    } else if k == 25 {
        606531
    } else if k == 26 {
        594521
    } else if k == 27 {
        582748
    } else if k == 28 {
        571209
    } else if k == 29 {
        559898
    } else if k == 30 {
        548812
    } else if k == 31 {
        537944
    } else if k == 32 {
        527292
    } else if k == 33 {
        516851
    } else if k == 34 {
        506617
    } else if k == 35 {
        496585
    } else if k == 36 {
        486752
    } else if k == 37 {
        477114
    } else if k == 38 {
        467666
    } else if k == 39 {
        458406
    } else if k == 40 {
        449329
    } else if k == 41 {
        440432
    } else if k == 42 {
        431711
    } else if k == 43 {
        423162
    } else if k == 44 {
        414783
    } else if k == 45 {
        406570
    } else if k == 46 {
        398519
    } else if k == 47 {
        390628
    } else if k == 48 {
        382893
    } else if k == 49 {
        375311
    } else {
        367879
    }
}

/// Consecutive nodes fall by at least 7000 and at most 20_000, and all
/// nodes lie in [exp(-1), 1] at micro scale.
pub proof fn lemma_exp_node_props()
    ensures
        forall|k: int|
            0 <= k < 50 ==> (#[trigger] exp_node(k)) - 20_000 <= exp_node(k + 1)
                && exp_node(k + 1) <= exp_node(k) - 7000,
        forall|k: int| 367_879 <= #[trigger] exp_node(k) <= 1_000_000,
        exp_node(0) == 1_000_000,
        exp_node(50) == 367_879,
{
    reveal(exp_node);
}

/// Table lookup for `exp_node`.
fn exp_node_x(k: i64) -> (r: i64)
    requires
        0 <= k <= 50,
    ensures
        r == exp_node(k as int),
{
    proof {
        reveal(exp_node);
    }
    if k <= 0 {
        1000000
    } else if k == 1 {
        980199
    } else if k == 2 {
        960789
    } else if k == 3 {
        941765
    } else if k == 4 {
        923116
    } else if k == 5 {
        904837
    } else if k == 6 {
        886920
    } else if k == 7 {
        869358
    } else if k == 8 {
        852144
    } else if k == 9 {
        835270
    } else if k == 10 {
        818731
    } else if k == 11 {
        802519
    } else if k == 12 {
        786628
    } else if k == 13 {
        771052
    } else if k == 14 {
        755784
    } else if k == 15 {
        740818
    } else if k == 16 {
        726149
    } else if k == 17 {
        711770
    } else if k == 18 {
        697676
    } else if k == 19 {
        683861
    } else if k == 20 {
        670320
    } else if k == 21 {
        657047
    } else if k == 22 {
        644036
    } else if k == 23 {
        631284
    } else if k == 24 {
        618783
    } else if k == 25 {
        606531
    } else if k == 26 {
        594521
    } else if k == 27 {
        582748
    } else if k == 28 {
        571209
    } else if k == 29 {
        559898
    } else if k == 30 {
        548812
    } else if k == 31 {
        537944
    } else if k == 32 {
        527292
    } else if k == 33 {
        516851
    } else if k == 34 {
        506617
    } else if k == 35 {
        496585
    } else if k == 36 {
        486752
    } else if k == 37 {
        477114
    } else if k == 38 {
        467666
    } else if k == 39 {
        458406
    } else if k == 40 {
        449329
    } else if k == 41 {
        440432
    } else if k == 42 {
        431711
    } else if k == 43 {
        423162
    } else if k == 44 {
        414783
    } else if k == 45 {
        406570
    } else if k == 46 {
        398519
    } else if k == 47 {
        390628
    } else if k == 48 {
        382893
    } else if k == 49 {
        375311
    } else {
        367879
    }
}

/// Piecewise-linear interpolation of `SCALE * exp(-r / SCALE)` for
/// `r` in [0, SCALE), over segments of width 20_000.
pub open spec fn exp_frac(r: int) -> int
    recommends
        0 <= r < 1_000_000,
{
    let k = r / 20_000;
    let d = r % 20_000;
    exp_node(k) - (exp_node(k) - exp_node(k + 1)) * d / 20_000
}

/// Repeatedly multiply by `exp(-1)`, rounding down each time.
pub open spec fn exp_unit_pow(f: int, q: nat) -> int
    decreases q,
{
    if q == 0 {
        f
    } else {
        exp_unit_pow(f * 367_879 / 1_000_000, (q - 1) as nat)
    }
}

/// `SCALE * exp(-x / SCALE)` for x >= 0: interpolated fraction times a
/// whole power of `exp(-1)`; zero once the true value is below one
/// micro-unit.
pub open spec fn exp_neg_spec(x: int) -> int {
    let q = x / 1_000_000;
    let r = x % 1_000_000;
    if q >= 14 {
        0
    } else {
        exp_unit_pow(exp_frac(r), q as nat)
    }
}

/// The interpolated fraction stays between the nodes that bracket its
/// segment.
pub proof fn lemma_exp_frac_bounds(r: int)
    requires
        0 <= r < 1_000_000,
    ensures
        exp_node(r / 20_000 + 1) <= exp_frac(r) <= exp_node(r / 20_000),
        367_879 <= exp_frac(r) <= 1_000_000,
{
    let k = r / 20_000;
    let d = r % 20_000;
    let drop = exp_node(k) - exp_node(k + 1);
    lemma_exp_node_props();
    lemma_fundamental_div_mod(r, 20_000);
    lemma_div_is_ordered(0, r, 20_000);
    lemma_div_is_ordered(r, 999_999, 20_000);
    assert(0 <= drop * d) by {
        vstd::arithmetic::mul::lemma_mul_inequality(0, drop, d);
        vstd::arithmetic::mul::lemma_mul_is_commutative(drop, d);
    }
    assert(drop * d / 20_000 >= 0) by {
        vstd::arithmetic::div_mod::lemma_div_pos_is_pos(drop * d, 20_000);
    }
    assert(drop * d <= drop * 20_000) by {
        vstd::arithmetic::mul::lemma_mul_left_inequality(drop, d, 20_000);
    }
    assert(drop * d / 20_000 <= drop * 20_000 / 20_000) by {
        lemma_div_is_ordered(drop * d, drop * 20_000, 20_000);
    }
    assert(drop * 20_000 / 20_000 == drop) by {
        vstd::arithmetic::div_mod::lemma_div_by_multiple(drop, 20_000);
    }
}

/// The interpolated fraction never increases.
pub proof fn lemma_exp_frac_mono(r1: int, r2: int)
    requires
        0 <= r1 <= r2 < 1_000_000,
    ensures
        exp_frac(r2) <= exp_frac(r1),
{
    let k1 = r1 / 20_000;
    let d1 = r1 % 20_000;
    let k2 = r2 / 20_000;
    let d2 = r2 % 20_000;
    lemma_exp_node_props();
    lemma_exp_frac_bounds(r1);
    lemma_exp_frac_bounds(r2);
    lemma_div_is_ordered(r1, r2, 20_000);
    if k1 == k2 {
        let drop = exp_node(k1) - exp_node(k1 + 1);
        assert(d1 <= d2) by {
            lemma_fundamental_div_mod(r1, 20_000);
            lemma_fundamental_div_mod(r2, 20_000);
        }
        assert(drop * d1 <= drop * d2) by {
            vstd::arithmetic::mul::lemma_mul_left_inequality(drop, d1, d2);
        }
        lemma_div_is_ordered(drop * d1, drop * d2, 20_000);
    } else {
        lemma_exp_node_mono(k1 + 1, k2);
    }
}

/// Nodes with larger index are no larger.
pub proof fn lemma_exp_node_mono(i: int, j: int)
    requires
        0 <= i <= j <= 50,
    ensures
        exp_node(j) <= exp_node(i),
    decreases j - i,
{
    lemma_exp_node_props();
    if i < j {
        lemma_exp_node_mono(i, j - 1);
    }
}

/// One multiplication by `exp(-1)` keeps a micro-unit value in range
/// and does not increase it.
proof fn lemma_exp_decay_once(f: int)
    requires
        0 <= f <= 1_000_000,
    ensures
        0 <= f * 367_879 / 1_000_000 <= 367_879,
        f * 367_879 / 1_000_000 <= f,
{
    assert(0 <= f * 367_879 <= 367_879_000_000) by {
        vstd::arithmetic::mul::lemma_mul_inequality(0, f, 367_879);
        vstd::arithmetic::mul::lemma_mul_inequality(f, 1_000_000, 367_879);
    }
    vstd::arithmetic::div_mod::lemma_div_pos_is_pos(f * 367_879, 1_000_000);
    lemma_div_is_ordered(f * 367_879, 367_879_000_000, 1_000_000);
    assert(f * 367_879 <= f * 1_000_000) by {
        vstd::arithmetic::mul::lemma_mul_inequality(367_879, 1_000_000, f);
        vstd::arithmetic::mul::lemma_mul_is_commutative(f, 367_879);
        vstd::arithmetic::mul::lemma_mul_is_commutative(f, 1_000_000);
    }
    lemma_div_is_ordered(f * 367_879, f * 1_000_000, 1_000_000);
    assert(f * 1_000_000 / 1_000_000 == f) by {
        vstd::arithmetic::div_mod::lemma_div_by_multiple(f, 1_000_000);
    }
}

/// `exp_unit_pow` stays within [0, start] and is monotone in its start.
pub proof fn lemma_exp_unit_pow_bounds(f: int, q: nat)
    requires
        0 <= f <= 1_000_000,
    ensures
        0 <= exp_unit_pow(f, q) <= f,
    decreases q,
{
    if q > 0 {
        lemma_exp_decay_once(f);
        lemma_exp_unit_pow_bounds(f * 367_879 / 1_000_000, (q - 1) as nat);
    }
}

/// `exp_unit_pow` is monotone in its starting value.
pub proof fn lemma_exp_unit_pow_mono(f1: int, f2: int, q: nat)
    requires
        0 <= f1 <= f2 <= 1_000_000,
    ensures
        exp_unit_pow(f1, q) <= exp_unit_pow(f2, q),
    decreases q,
{
    if q > 0 {
        lemma_exp_decay_once(f1);
        lemma_exp_decay_once(f2);
        assert(f1 * 367_879 <= f2 * 367_879) by {
            vstd::arithmetic::mul::lemma_mul_inequality(f1, f2, 367_879);
        }
        lemma_div_is_ordered(f1 * 367_879, f2 * 367_879, 1_000_000);
        lemma_exp_unit_pow_mono(
            f1 * 367_879 / 1_000_000,
            f2 * 367_879 / 1_000_000,
            (q - 1) as nat,
        );
    }
}

/// `exp_neg_spec` is bounded by one and never increases.
pub proof fn lemma_exp_neg_bounds(x: int)
    requires
        0 <= x,
    ensures
        0 <= exp_neg_spec(x) <= 1_000_000,
{
    let q = x / 1_000_000;
    let r = x % 1_000_000;
    lemma_div_is_ordered(0, x, 1_000_000);
    if q < 14 {
        lemma_exp_frac_bounds(r);
        lemma_exp_unit_pow_bounds(exp_frac(r), q as nat);
    }
}

/// `exp_neg_spec` is monotone non-increasing.
pub proof fn lemma_exp_neg_mono(x1: int, x2: int)
    requires
        0 <= x1 <= x2,
    ensures
        exp_neg_spec(x2) <= exp_neg_spec(x1),
    decreases x2 / 1_000_000 - x1 / 1_000_000,
{
    let q1 = x1 / 1_000_000;
    let r1 = x1 % 1_000_000;
    let q2 = x2 / 1_000_000;
    let r2 = x2 % 1_000_000;
    lemma_div_is_ordered(0, x1, 1_000_000);
    lemma_div_is_ordered(x1, x2, 1_000_000);
    lemma_exp_neg_bounds(x1);
    lemma_exp_neg_bounds(x2);
    if q2 < 14 {
        lemma_exp_frac_bounds(r1);
        lemma_exp_frac_bounds(r2);
        if q1 == q2 {
            assert(r1 <= r2) by {
                lemma_fundamental_div_mod(x1, 1_000_000);
                lemma_fundamental_div_mod(x2, 1_000_000);
            }
            lemma_exp_frac_mono(r1, r2);
            lemma_exp_unit_pow_mono(exp_frac(r2), exp_frac(r1), q1 as nat);
        } else {
            // bridge over the start of block q1 + 1
            let xm = (q1 + 1) * 1_000_000;
            assert(xm <= x2) by {
                lemma_fundamental_div_mod(x2, 1_000_000);
                vstd::arithmetic::mul::lemma_mul_inequality(q1 + 1, q2, 1_000_000);
                vstd::arithmetic::mul::lemma_mul_is_commutative(q2, 1_000_000);
            }
            assert(xm / 1_000_000 == q1 + 1 && xm % 1_000_000 == 0) by {
                vstd::arithmetic::div_mod::lemma_fundamental_div_mod_converse_div(
                    xm, 1_000_000, q1 + 1, 0);
                vstd::arithmetic::div_mod::lemma_fundamental_div_mod_converse_mod(
                    xm, 1_000_000, q1 + 1, 0);
            }
            lemma_exp_neg_mono(xm, x2);
            // exp_neg at the block start equals one more decay from SCALE
            lemma_exp_node_props();
            assert(exp_frac(0) == 1_000_000) by {
                vstd::arithmetic::mul::lemma_mul_basics(exp_node(0) - exp_node(1));
            }
            assert(1_000_000 * 367_879 / 1_000_000 == 367_879) by {
                vstd::arithmetic::div_mod::lemma_div_by_multiple(367_879, 1_000_000);
                vstd::arithmetic::mul::lemma_mul_is_commutative(367_879, 1_000_000);
            }
            assert(exp_unit_pow(1_000_000, (q1 + 1) as nat)
                == exp_unit_pow(367_879, q1 as nat));
            lemma_exp_unit_pow_mono(367_879, exp_frac(r1), q1 as nat);
        }
    }
}

/// `exp(-5)` at micro scale is well below one percent.
pub proof fn lemma_exp_neg_five()
    ensures
        exp_neg_spec(5_000_000) == 6_737,
{
    assert(5_000_000int / 1_000_000 == 5);
    assert(5_000_000int % 1_000_000 == 0);
    lemma_exp_node_props();
    assert(exp_frac(0) == 1_000_000) by {
        vstd::arithmetic::mul::lemma_mul_basics(exp_node(0) - exp_node(1));
    }
    assert(exp_unit_pow(6_737, 0) == 6_737);
    assert(exp_unit_pow(18_315, 1) == 6_737);
    assert(exp_unit_pow(49_786, 2) == 6_737);
    assert(exp_unit_pow(135_334, 3) == 6_737);
    assert(exp_unit_pow(367_879, 4) == 6_737);
    assert(exp_unit_pow(1_000_000, 5) == 6_737);
}

/// `SCALE * exp(-x / SCALE)`, by table interpolation and repeated
/// multiplication with `exp(-1)`.
pub fn exp_neg(x: i64) -> (r: i64)
    requires
        0 <= x,
    ensures
        r == exp_neg_spec(x as int),
        0 <= r <= 1_000_000,
{
    proof {
        lemma_exp_neg_bounds(x as int);
    }
    let q: i64 = x / 1_000_000;
    let rem: i64 = x % 1_000_000;
    if q >= 14 {
        return 0;
    }
    proof {
        lemma_exp_node_props();
        lemma_exp_frac_bounds(rem as int);
    }
    let k: i64 = rem / 20_000;
    let d: i64 = rem % 20_000;
    let ek: i64 = exp_node_x(k);
    let ek1: i64 = exp_node_x(k + 1);
    let mut f: i64 = ek - (ek - ek1) * d / 20_000;
    let ghost f0 = f as int;
    assert(f0 == exp_frac(rem as int));
    let mut i: i64 = 0;
    while i < q
        invariant
            0 <= i <= q < 14,
            0 <= f <= 1_000_000,
            exp_unit_pow(f as int, (q - i) as nat) == exp_unit_pow(f0, q as nat),
        decreases q - i,
    {
        proof {
            lemma_exp_decay_once(f as int);
        }
        f = f * 367_879 / 1_000_000;
        i = i + 1;
    }
    f
}

/// Largest accepted magnitude of a decibel value handed to the
/// smoother.
pub open spec fn db_in_range(x: int) -> bool {
    -100_000_000 <= x <= 100_000_000
}

/// Which time constant a step uses: a target at or above the held
/// value responds with the attack constant, a lower target with the
/// release constant.
pub open spec fn smooth_tau(value: int, target: int, tau_attack: int, tau_release: int) -> int {
    if target < value {
        tau_release
    } else {
        tau_attack
    }
}

/// The smoothing coefficient `1 - exp(-dt / tau)` at micro scale.
pub open spec fn smooth_alpha(dt: int, tau: int) -> int
    recommends
        0 < tau,
        0 < dt,
{
    1_000_000 - exp_neg_spec(dt * 1_000_000 / tau)
}

/// One smoothing step: move the held value toward the target by the
/// fraction `smooth_alpha(dt, tau)`; a non-positive `dt` is a no-op.
pub open spec fn smooth_step_spec(value: int, target: int, dt: int, tau: int) -> int {
    if dt <= 0 {
        value
    } else if target >= value {
        value + smooth_alpha(dt, tau) * (target - value) / 1_000_000
    } else {
        value - smooth_alpha(dt, tau) * (value - target) / 1_000_000
    }
}

/// One smoothing step never overshoots and never moves away from the
/// target.
pub proof fn law_monotonic_approach(value: int, target: int, dt: int, tau: int)
    requires
        0 < tau,
    ensures
        value <= target ==> value <= smooth_step_spec(value, target, dt, tau) <= target,
        target <= value ==> target <= smooth_step_spec(value, target, dt, tau) <= value,
{
    if dt > 0 {
        let x = dt * 1_000_000 / tau;
        assert(0 <= dt * 1_000_000) by {
            vstd::arithmetic::mul::lemma_mul_inequality(0, dt, 1_000_000);
        }
        vstd::arithmetic::div_mod::lemma_div_pos_is_pos(dt * 1_000_000, tau);
        lemma_exp_neg_bounds(x);
        let alpha = smooth_alpha(dt, tau);
        assert(0 <= alpha <= 1_000_000);
        if target >= value {
            lemma_smooth_step_portion(alpha, target - value);
        } else {
            lemma_smooth_step_portion(alpha, value - target);
        }
    }
}

/// Taking an `alpha` portion of a gap, at micro scale, yields between
/// zero and the whole gap.
proof fn lemma_smooth_step_portion(alpha: int, mag: int)
    requires
        0 <= alpha <= 1_000_000,
        0 <= mag,
    ensures
        0 <= alpha * mag / 1_000_000 <= mag,
{
    assert(0 <= alpha * mag) by {
        vstd::arithmetic::mul::lemma_mul_inequality(0, alpha, mag);
    }
    vstd::arithmetic::div_mod::lemma_div_pos_is_pos(alpha * mag, 1_000_000);
    assert(alpha * mag <= 1_000_000 * mag) by {
        vstd::arithmetic::mul::lemma_mul_inequality(alpha, 1_000_000, mag);
    }
    lemma_div_is_ordered(alpha * mag, 1_000_000 * mag, 1_000_000);
    assert(1_000_000 * mag / 1_000_000 == mag) by {
        vstd::arithmetic::div_mod::lemma_div_by_multiple(mag, 1_000_000);
        vstd::arithmetic::mul::lemma_mul_is_commutative(mag, 1_000_000);
    }
}

/// A target at or above the held value is smoothed with the attack
/// constant alone, a lower target with the release constant alone: the
/// step result does not depend on the other constant.
pub proof fn law_branch_selection(
    value: int,
    target: int,
    dt: int,
    tau_attack: int,
    tau_release: int,
    other_attack: int,
    other_release: int,
)
    ensures
        target >= value ==> smooth_step_spec(
            value, target, dt, smooth_tau(value, target, tau_attack, tau_release))
            == smooth_step_spec(
            value, target, dt, smooth_tau(value, target, tau_attack, other_release)),
        target < value ==> smooth_step_spec(
            value, target, dt, smooth_tau(value, target, tau_attack, tau_release))
            == smooth_step_spec(
            value, target, dt, smooth_tau(value, target, other_attack, tau_release)),
{
}

/// A single step that covers at least five time constants lands within
/// one percent of the target, up to one micro-dB of rounding.
pub proof fn law_convergence(value: int, target: int, dt: int, tau: int)
    requires
        0 < tau,
        dt >= 5 * tau,
    ensures
        vstd::math::abs(smooth_step_spec(value, target, dt, tau) - target)
            <= vstd::math::abs(value - target) / 100 + 1,
{
    let x = dt * 1_000_000 / tau;
    assert(x >= 5_000_000) by {
        assert(5 * tau * 1_000_000 <= dt * 1_000_000) by {
            vstd::arithmetic::mul::lemma_mul_inequality(5 * tau, dt, 1_000_000);
        }
        assert(5 * tau * 1_000_000 == 5_000_000 * tau) by (nonlinear_arith);
        lemma_div_is_ordered(5_000_000 * tau, dt * 1_000_000, tau);
        assert(5_000_000 * tau / tau == 5_000_000) by {
            vstd::arithmetic::div_mod::lemma_div_by_multiple(5_000_000, tau);
            vstd::arithmetic::mul::lemma_mul_is_commutative(5_000_000, tau);
        }
    }
    lemma_exp_neg_mono(5_000_000, x);
    lemma_exp_neg_five();
    lemma_exp_neg_bounds(x);
    let alpha = smooth_alpha(dt, tau);
    assert(990_000 <= alpha <= 1_000_000);
    let mag = if value <= target { target - value } else { value - target };
    lemma_smooth_step_portion(alpha, mag);
    let stp = alpha * mag / 1_000_000;
    assert(mag - stp <= mag / 100 + 1) by {
        lemma_fundamental_div_mod(alpha * mag, 1_000_000);
        assert(990_000 * mag <= alpha * mag) by {
            vstd::arithmetic::mul::lemma_mul_inequality(990_000, alpha, mag);
        }
        lemma_fundamental_div_mod(mag, 100);
    }
}

/// Smoothed gain state with asymmetric attack and release time
/// constants, in micro-units throughout: decibels at micro-dB, times
/// at micro-seconds.
pub struct Smoother {
    /// The held (smoothed) decibel value.
    pub value_db: i64,
    /// Time constant used while the target is at or above the held
    /// value, in micro-seconds.
    pub tau_attack: i64,
    /// Time constant used while the target is below the held value,
    /// in micro-seconds.
    pub tau_release: i64,
    /// Clock reading of the most recent wall-clock step, in
    /// micro-seconds.
    pub last_update: i64,
}

impl Smoother {
    /// Well-formed smoother state.
    pub open spec fn wf(&self) -> bool {
        &&& 0 < self.tau_attack <= TAU_MAX
        &&& 0 < self.tau_release <= TAU_MAX
        &&& db_in_range(self.value_db as int)
        &&& 0 <= self.last_update <= DT_MAX
    }

    /// A fresh smoother holding `init_db`, with its clock at zero.
    pub fn new(init_db: i64, tau_attack: i64, tau_release: i64) -> (s: Self)
        requires
            db_in_range(init_db as int),
            0 < tau_attack <= TAU_MAX,
            0 < tau_release <= TAU_MAX,
        ensures
            s.wf(),
            s.value_db == init_db,
            s.tau_attack == tau_attack,
            s.tau_release == tau_release,
            s.last_update == 0,
    {
        Smoother { value_db: init_db, tau_attack, tau_release, last_update: 0 }
    }

    /// Step the smoother by an explicitly supplied elapsed time `dt`
    /// (micro-seconds).  Returns the new smoothed value.  A
    /// non-positive `dt` leaves the value unchanged.
    pub fn step_dt(&mut self, target_db: i64, dt: i64) -> (r: i64)
        requires
            old(self).wf(),
            db_in_range(target_db as int),
            dt <= DT_MAX,
        ensures
            final(self).wf(),
            final(self).tau_attack == old(self).tau_attack,
            final(self).tau_release == old(self).tau_release,
            final(self).last_update == old(self).last_update,
            final(self).value_db == smooth_step_spec(
                old(self).value_db as int,
                target_db as int,
                dt as int,
                smooth_tau(
                    old(self).value_db as int,
                    target_db as int,
                    old(self).tau_attack as int,
                    old(self).tau_release as int,
                ),
            ),
            r == final(self).value_db,
            old(self).value_db <= target_db ==> old(self).value_db <= r <= target_db,
            target_db <= old(self).value_db ==> target_db <= r <= old(self).value_db,
    {
        if dt <= 0 {
            return self.value_db;
        }
        let tau: i64 = if target_db < self.value_db {
            self.tau_release
        } else {
            self.tau_attack
        };
        proof {
            law_monotonic_approach(
                self.value_db as int, target_db as int, dt as int, tau as int);
        }
        let alpha: i64 = if dt >= 14 * tau {
            proof {
                lemma_alpha_saturates(dt as int, tau as int);
            }
            1_000_000
        } else {
            let x: i64 = dt * 1_000_000 / tau;
            proof {
                assert(0 <= dt * 1_000_000) by {
                    vstd::arithmetic::mul::lemma_mul_inequality(0, dt as int, 1_000_000);
                }
                vstd::arithmetic::div_mod::lemma_div_pos_is_pos(dt * 1_000_000, tau as int);
            }
            1_000_000 - exp_neg(x)
        };
        if target_db >= self.value_db {
            let mag: i64 = target_db - self.value_db;
            proof {
                lemma_smooth_step_portion(alpha as int, mag as int);
            }
            let stp: i64 = alpha * mag / 1_000_000;
            self.value_db = self.value_db + stp;
        } else {
            let mag: i64 = self.value_db - target_db;
            proof {
                lemma_smooth_step_portion(alpha as int, mag as int);
            }
            let stp: i64 = alpha * mag / 1_000_000;
            self.value_db = self.value_db - stp;
        }
        self.value_db
    }

    /// Step the smoother against a clock reading `now`
    /// (micro-seconds): the elapsed time is taken from the previous
    /// reading, which is replaced.  A clock that did not advance
    /// leaves the value unchanged.
    pub fn step(&mut self, target_db: i64, now: i64) -> (r: i64)
        requires
            old(self).wf(),
            db_in_range(target_db as int),
            0 <= now <= DT_MAX,
        ensures
            final(self).wf(),
            final(self).tau_attack == old(self).tau_attack,
            final(self).tau_release == old(self).tau_release,
            final(self).last_update == now,
            final(self).value_db == smooth_step_spec(
                old(self).value_db as int,
                target_db as int,
                now - old(self).last_update,
                smooth_tau(
                    old(self).value_db as int,
                    target_db as int,
                    old(self).tau_attack as int,
                    old(self).tau_release as int,
                ),
            ),
            r == final(self).value_db,
            old(self).value_db <= target_db ==> old(self).value_db <= r <= target_db,
            target_db <= old(self).value_db ==> target_db <= r <= old(self).value_db,
    {
        let dt: i64 = now - self.last_update;
        self.last_update = now;
        self.step_dt(target_db, dt)
    }
}

/// Past fourteen time constants the coefficient saturates at one.
proof fn lemma_alpha_saturates(dt: int, tau: int)
    requires
        0 < tau,
        dt >= 14 * tau,
    ensures
        exp_neg_spec(dt * 1_000_000 / tau) == 0,
{
    let x = dt * 1_000_000 / tau;
    assert(x >= 14_000_000) by {
        assert(14 * tau * 1_000_000 <= dt * 1_000_000) by {
            vstd::arithmetic::mul::lemma_mul_inequality(14 * tau, dt, 1_000_000);
        }
        assert(14 * tau * 1_000_000 == 14_000_000 * tau) by (nonlinear_arith);
        lemma_div_is_ordered(14_000_000 * tau, dt * 1_000_000, tau);
        assert(14_000_000 * tau / tau == 14_000_000) by {
            vstd::arithmetic::div_mod::lemma_div_by_multiple(14_000_000, tau);
            vstd::arithmetic::mul::lemma_mul_is_commutative(14_000_000, tau);
        }
    }
    lemma_div_is_ordered(14_000_000, x, 1_000_000);
}

} // verus!
