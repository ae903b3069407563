//! The soft-knee limiter and the per-sample gain stage.
//!
//! `soft_limit` passes a sample through unchanged while its magnitude
//! stays at or below the threshold, and compresses the excess by
//! `x / (1 + x)` above it, so the output magnitude approaches but never
//! reaches one unit above the threshold.  `apply_gain_and_limit` scales
//! 16-bit samples by a linear micro-gain, limits them just below full
//! scale and clamps as a safety net.

use vstd::prelude::*;

verus! {

use vstd::arithmetic::div_mod::lemma_div_is_ordered;
use vstd::arithmetic::div_mod::lemma_div_pos_is_pos;
use vstd::arithmetic::div_mod::lemma_multiply_divide_lt;

/// Largest sample magnitude `soft_limit` accepts (micro-units).
pub const SAMPLE_LIMIT: i64 = 4_000_000_000_000;

/// Largest linear gain `apply_gain_and_limit` accepts: +40 dB.
pub const GAIN_LIMIT: i64 = 100_000_000;

/// The limiter threshold of the gain stage: 98% of `i16::MAX`, in
/// micro-units of one sample step.
pub const LIMIT_THRESHOLD: i64 = 32_111_660_000;

/// Magnitude of an integer.
pub open spec fn abs_i(x: int) -> int {
    if x < 0 {
        -x
    } else {
        x
    }
}

/// The soft-knee limiter: identity up to the threshold, then the
/// excess `x` is compressed to `x / (1 + x)` (in units of one million).
pub open spec fn soft_limit_spec(sample: int, threshold: int) -> int {
    if abs_i(sample) <= threshold {
        sample
    } else {
        let x = abs_i(sample) - threshold;
        let e = x * 1_000_000 / (1_000_000 + x);
        if sample < 0 {
            -(threshold + e)
        } else {
            threshold + e
        }
    }
}

/// The compressed excess lies in [0, SCALE) and below the excess
/// itself; from an excess of two it is at least one.
proof fn lemma_soft_excess(x: int)
    requires
        1 <= x <= SAMPLE_LIMIT,
    ensures
        0 <= x * 1_000_000 / (1_000_000 + x) < 1_000_000,
        x * 1_000_000 / (1_000_000 + x) < x,
        x >= 2 ==> x * 1_000_000 / (1_000_000 + x) >= 1,
{
    let num = x * 1_000_000;
    let den = 1_000_000 + x;
    assert(num >= 0) by {
        vstd::arithmetic::mul::lemma_mul_inequality(0, x, 1_000_000);
    }
    lemma_div_pos_is_pos(num, den);
    assert(num < den * 1_000_000) by {
        vstd::arithmetic::mul::lemma_mul_strict_inequality(x, den, 1_000_000);
    }
    lemma_multiply_divide_lt(num, den, 1_000_000);
    assert(num < den * x) by (nonlinear_arith)
        requires
            x >= 1,
            num == x * 1_000_000,
            den == 1_000_000 + x,
    ;
    lemma_multiply_divide_lt(num, den, x);
    if x >= 2 {
        assert(num >= den) by (nonlinear_arith)
            requires
                x >= 2,
                num == x * 1_000_000,
                den == 1_000_000 + x,
        ;
        assert(den * 1 == den) by {
            vstd::arithmetic::mul::lemma_mul_basics(den);
        }
        assert(num / den >= 1) by {
            lemma_div_is_ordered(den, num, den);
            vstd::arithmetic::div_mod::lemma_div_by_multiple(1, den);
            vstd::arithmetic::mul::lemma_mul_basics(den);
        }
    }
}

/// Soft-limit one micro-unit sample against a threshold.  At or below
/// the threshold the sample passes through exactly; above it, the
/// output keeps the sign, stays strictly below the input magnitude and
/// below one unit (one million micro-units) above the threshold.
pub fn soft_limit(sample: i64, threshold: i64) -> (r: i64)
    requires
        0 <= threshold <= SAMPLE_LIMIT,
        -SAMPLE_LIMIT <= sample <= SAMPLE_LIMIT,
    ensures
        r == soft_limit_spec(sample as int, threshold as int),
        abs_i(sample as int) <= threshold ==> r == sample,
        abs_i(sample as int) > threshold ==> threshold <= abs_i(r as int) < threshold
            + 1_000_000,
        abs_i(r as int) <= abs_i(sample as int),
        sample >= 0 ==> r >= 0,
        sample <= 0 ==> r <= 0,
        abs_i(sample as int) >= threshold + 2 ==> threshold < abs_i(r as int) < abs_i(
            sample as int,
        ),
{
    let a: i64 = if sample < 0 {
        -sample
    } else {
        sample
    };
    if a <= threshold {
        sample
    } else {
        proof {
            lemma_soft_excess(a - threshold);
        }
        let x: i64 = a - threshold;
        let e: i64 = x * 1_000_000 / (1_000_000 + x);
        if sample < 0 {
            -(threshold + e)
        } else {
            threshold + e
        }
    }
}

/// Full-scale output magnitude in micro-units.
pub const FULL_SCALE_MICRO: i64 = 32_767_000_000;

/// One 16-bit sample through the gain stage: scale by the micro-gain,
/// soft-limit just below full scale, clamp as a safety net, and round
/// back toward zero to a sample step.
pub open spec fn process_sample_spec(s: int, gain: int) -> int {
    let o = soft_limit_spec(s * gain, LIMIT_THRESHOLD as int);
    let c = if o < -32_767_000_000 {
        -32_767_000_000
    } else if o > 32_767_000_000 {
        32_767_000_000
    } else {
        o
    };
    if c < 0 {
        -((-c) / 1_000_000)
    } else {
        c / 1_000_000
    }
}

/// The gain stage stays within full scale, scales by at most the
/// gain, and at unity gain passes anything at or below the limiter
/// threshold through unchanged.
pub proof fn lemma_process_sample(s: int, gain: int)
    requires
        -32_768 <= s <= 32_767,
        0 <= gain <= GAIN_LIMIT,
    ensures
        abs_i(process_sample_spec(s, gain)) <= 32_767,
        abs_i(process_sample_spec(s, gain)) <= abs_i(s) * gain / 1_000_000,
        gain == 1_000_000 && abs_i(s) <= 32_111 ==> process_sample_spec(s, gain) == s,
        s >= 0 ==> process_sample_spec(s, gain) >= 0,
        s <= 0 ==> process_sample_spec(s, gain) <= 0,
{
    let w = s * gain;
    assert(-SAMPLE_LIMIT <= w <= SAMPLE_LIMIT && abs_i(w) == abs_i(s) * gain && (s <= 0
        ==> w <= 0) && (s >= 0 ==> w >= 0)) by (nonlinear_arith)
        requires
            -32_768 <= s <= 32_767,
            0 <= gain <= GAIN_LIMIT,
            w == s * gain,
    ;
    let o = soft_limit_spec(w, LIMIT_THRESHOLD as int);
    if abs_i(w) <= LIMIT_THRESHOLD {
        assert(o == w);
    } else {
        lemma_soft_excess(abs_i(w) - LIMIT_THRESHOLD);
    }
    assert(abs_i(o) <= abs_i(w));
    assert(abs_i(o) < 32_767_000_000);
    let c = o;
    assert(process_sample_spec(s, gain) == if c < 0 {
        -((-c) / 1_000_000)
    } else {
        c / 1_000_000
    });
    lemma_div_is_ordered(abs_i(c), 32_767_000_000, 1_000_000);
    lemma_div_is_ordered(abs_i(c), abs_i(w), 1_000_000);
    lemma_div_pos_is_pos(abs_i(c), 1_000_000);
    if gain == 1_000_000 && abs_i(s) <= 32_111 {
        assert(abs_i(w) <= 32_111_000_000);
        assert(o == w);
        if c < 0 {
            assert((-c) == (-s) * 1_000_000);
            assert((-c) / 1_000_000 == -s) by {
                vstd::arithmetic::div_mod::lemma_div_by_multiple(-s, 1_000_000);
            }
        } else {
            assert(c == s * 1_000_000);
            assert(c / 1_000_000 == s) by {
                vstd::arithmetic::div_mod::lemma_div_by_multiple(s, 1_000_000);
            }
        }
    }
}

/// Apply the gain stage to one 16-bit sample.
pub fn process_sample(s: i16, gain: i64) -> (r: i16)
    requires
        0 <= gain <= GAIN_LIMIT,
    ensures
        r as int == process_sample_spec(s as int, gain as int),
        abs_i(r as int) <= abs_i(s as int) * gain / 1_000_000,
        gain == 1_000_000 && abs_i(s as int) <= 32_111 ==> r == s,
{
    proof {
        lemma_process_sample(s as int, gain as int);
        assert(-SAMPLE_LIMIT <= (s as int) * (gain as int) <= SAMPLE_LIMIT)
            by (nonlinear_arith)
            requires
                -32_768 <= s as int <= 32_767,
                0 <= gain as int <= 100_000_000,
        ;
    }
    let wide: i64 = (s as i64) * gain;
    let o: i64 = soft_limit(wide, LIMIT_THRESHOLD);
    let c: i64 = if o < -32_767_000_000 {
        -32_767_000_000
    } else if o > 32_767_000_000 {
        32_767_000_000
    } else {
        o
    };
    let out: i64 = if c < 0 {
        -((-c) / 1_000_000)
    } else {
        c / 1_000_000
    };
    out as i16
}

/// Scale every sample of a frame by `gain_lin` micro-units of linear
/// gain, soft-limiting and clamping each to full scale.
pub fn apply_gain_and_limit(input: &Vec<i16>, gain_lin: i64) -> (out: Vec<i16>)
    requires
        0 <= gain_lin <= GAIN_LIMIT,
    ensures
        out@.len() == input@.len(),
        forall|i: int|
            0 <= i < input@.len() ==> out@[i] as int == process_sample_spec(
                input@[i] as int,
                gain_lin as int,
            ),
{
    let mut out: Vec<i16> = Vec::new();
    let mut idx: usize = 0;
    while idx < input.len()
        invariant
            0 <= gain_lin <= GAIN_LIMIT,
            idx <= input@.len(),
            out@.len() == idx,
            forall|i: int|
                0 <= i < idx ==> out@[i] as int == process_sample_spec(
                    input@[i] as int,
                    gain_lin as int,
                ),
        decreases input@.len() - idx,
    {
        let r = process_sample(input[idx], gain_lin);
        out.push(r);
        idx = idx + 1;
    }
    out
}

/// At unity gain, any sample whose magnitude stays at or below the
/// limiter threshold comes through the whole gain stage unchanged.
pub proof fn law_unity_gain_identity(s: int)
    requires
        -32_111 <= s <= 32_111,
    ensures
        process_sample_spec(s, 1_000_000) == s,
{
    lemma_process_sample(s, 1_000_000);
}

/// No gain up to the accepted maximum can push a processed sample
/// beyond full scale.
pub proof fn law_output_within_full_scale(s: int, gain: int)
    requires
        -32_768 <= s <= 32_767,
        0 <= gain <= GAIN_LIMIT,
    ensures
        abs_i(process_sample_spec(s, gain)) <= 32_767,
{
    lemma_process_sample(s, gain);
}

} // verus!
