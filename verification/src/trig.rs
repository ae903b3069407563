//! A bounded fixed-point sine for the deterministic sensor mocks.
//!
//! Bhaskara's rational approximation on a half period, extended by odd
//! symmetry and periodicity.  The mocks only rely on the output staying
//! within one unit of magnitude, which is proved exactly.

use vstd::prelude::*;

verus! {

/// Largest time-like argument the mocks pass in, in micro-units.
pub const SIN_ARG_MAX: i64 = 1_000_000_000_000_000;

/// Bhaskara's approximation of `SCALE * sin(m / SCALE)` on one half
/// period `m` in `[0, pi]` micro-radians: `16 z / (5 pi^2 - 4 z)` with
/// `z = m (pi - m)`.
pub open spec fn sin_half_spec(m: int) -> int {
    let z = m * (3_141_592 - m) / 1_000_000;
    16 * z * 1_000_000 / (49_348_020 - 4 * z)
}

/// `SCALE * sin(x / SCALE)` for `x >= 0`, by periodicity and odd
/// symmetry from the half-period approximation.
pub open spec fn sin_spec(x: int) -> int {
    let m = x % 6_283_185;
    if m < 3_141_592 {
        sin_half_spec(m)
    } else {
        -sin_half_spec(m - 3_141_592)
    }
}

/// On the half period the approximation stays within [0, SCALE].
proof fn lemma_sin_half_bounds(m: int)
    requires
        0 <= m <= 3_141_592,
    ensures
        0 <= sin_half_spec(m) <= 1_000_000,
{
    let p = m * (3_141_592 - m);
    assert(0 <= p <= 2_467_400_073_616) by (nonlinear_arith)
        requires
            0 <= m <= 3_141_592,
            p == m * (3_141_592 - m),
    ;
    let z = p / 1_000_000;
    vstd::arithmetic::div_mod::lemma_div_pos_is_pos(p, 1_000_000);
    vstd::arithmetic::div_mod::lemma_div_is_ordered(p, 2_467_400_073_616, 1_000_000);
    assert(z <= 2_467_400);
    let den = 49_348_020 - 4 * z;
    let num = 16 * z * 1_000_000;
    assert(num == z * 16_000_000) by (nonlinear_arith)
        requires
            num == 16 * z * 1_000_000,
    ;
    assert(0 <= num) by {
        vstd::arithmetic::mul::lemma_mul_inequality(0, z, 16_000_000);
    }
    vstd::arithmetic::div_mod::lemma_div_pos_is_pos(num, den);
    assert(num <= den * 1_000_000) by (nonlinear_arith)
        requires
            num == z * 16_000_000,
            den == 49_348_020 - 4 * z,
            0 <= z <= 2_467_400,
    ;
    assert(num / den <= (den * 1_000_000) / den) by {
        vstd::arithmetic::div_mod::lemma_div_is_ordered(num, den * 1_000_000, den);
    }
    assert((den * 1_000_000) / den == 1_000_000) by {
        vstd::arithmetic::div_mod::lemma_div_by_multiple(1_000_000, den);
        vstd::arithmetic::mul::lemma_mul_is_commutative(1_000_000, den);
    }
}

/// The sine approximation is bounded by one in magnitude.
pub proof fn lemma_sin_bounds(x: int)
    requires
        0 <= x,
    ensures
        -1_000_000 <= sin_spec(x) <= 1_000_000,
{
    let m = x % 6_283_185;
    vstd::arithmetic::div_mod::lemma_mod_division_less_than_divisor(x, 6_283_185);
    if m < 3_141_592 {
        lemma_sin_half_bounds(m);
    } else {
        lemma_sin_half_bounds(m - 3_141_592);
    }
}

/// Fixed-point sine of a non-negative micro-radian argument.
pub fn sin_micro(x: i64) -> (r: i64)
    requires
        0 <= x <= SIN_ARG_MAX,
    ensures
        r == sin_spec(x as int),
        -1_000_000 <= r <= 1_000_000,
{
    proof {
        lemma_sin_bounds(x as int);
    }
    let m: i64 = x % 6_283_185;
    let (h, neg): (i64, bool) = if m < 3_141_592 {
        (m, false)
    } else {
        (m - 3_141_592, true)
    };
    proof {
        let p = (h as int) * (3_141_592 - (h as int));
        assert(0 <= p <= 2_467_400_073_616) by (nonlinear_arith)
            requires
                0 <= (h as int) && (h as int) <= 3_141_592,
                p == (h as int) * (3_141_592 - (h as int)),
        ;
        vstd::arithmetic::div_mod::lemma_div_pos_is_pos(p, 1_000_000);
        vstd::arithmetic::div_mod::lemma_div_is_ordered(p, 2_467_400_073_616, 1_000_000);
        lemma_sin_half_bounds(h as int);
    }
    let z: i64 = h * (3_141_592 - h) / 1_000_000;
    let s: i64 = 16 * z * 1_000_000 / (49_348_020 - 4 * z);
    if neg {
        -s
    } else {
        s
    }
}

} // verus!
