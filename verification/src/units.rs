//! Fixed-point scale and the dB <-> linear-gain conversion.
//!
//! A value of one million stands for 1.0; decibel values, linear gain
//! factors and seconds are all carried at this scale.  `db_to_lin`
//! realises `10^(db/20)` by table interpolation over one bel and exact
//! powers of ten; `lin_to_db` is its exact lower inverse.

use vstd::prelude::*;

verus! {

use vstd::arithmetic::div_mod::lemma_fundamental_div_mod;
use vstd::arithmetic::div_mod::lemma_div_is_ordered;
use vstd::arithmetic::div_mod::lemma_div_pos_is_pos;
use vstd::arithmetic::mul::lemma_mul_inequality;

/// One million micro-units stand for 1.0.
pub const SCALE: i64 = 1_000_000;

/// Smallest decibel value the conversion tables cover (-60 dB).
pub const DB_MIN: i64 = -60_000_000;

/// Largest decibel value the conversion tables cover (+60 dB).
pub const DB_MAX: i64 = 60_000_000;

/// Linear gain of `DB_MIN`: 10^(-3) at micro scale.
pub const LIN_MIN: i64 = 1_000;

/// Linear gain of `DB_MAX`: 10^3 at micro scale.
pub const LIN_MAX: i64 = 1_000_000_000;

/// Clamp a micro-dB value into `[lo, hi]`.
pub open spec fn clamp_spec(x: int, lo: int, hi: int) -> int {
    if x < lo {
        lo
    } else if x > hi {
        hi
    } else {
        x
    }
}

/// Clamp `x` into `[lo, hi]`.
pub fn clamp_i64(x: i64, lo: i64, hi: i64) -> (r: i64)
    requires
        lo <= hi,
    ensures
        r == clamp_spec(x as int, lo as int, hi as int),
        lo <= r <= hi,
{
    if x < lo {
        lo
    } else if x > hi {
        hi
    } else {
        x
    }
}

/// Interpolation nodes: 10^(k/125) at micro scale for k in 0..=125.
/// The ends are exact: `pow10_node(0) == 1_000_000` and
/// `pow10_node(125) == 10_000_000`, so whole decibel decades come out
/// exactly.
#[verifier::opaque]
pub open spec fn pow10_node(k: int) -> int {
    if k <= 0 {
        1000000
    } else if k == 1 {
        1018591
    } else if k == 2 {
        1037528
    } else if k == 3 {
        1056818
    } else if k == 4 {
        1076465
    } else if k == 5 {
        1096478
    } else if k == 6 {
        1116863
    } else if k == 7 {
        1137627
    } else if k == 8 {
        1158777
    } else if k == 9 {
        1180321
    } else if k == 10 {
        1202264
    } else if k == 11 {
        1224616
    } else if k == 12 {
        1247384
    } else if k == 13 {
        1270574
    } else if k == 14 {
        1294196
    } else if k == 15 {
        1318257
    } else if k == 16 {
        1342765
    } else if k == 17 {
        1367729
    } else if k == 18 {
        1393157
    } else if k == 19 {
        1419058
    } else if k == 20 {
        1445440
    } else if k == 21 {
        1472313
    } else if k == 22 {
        1499685
    } else if k == 23 {
        1527566
    } else if k == 24 {
        1555966
    } else if k == 25 {
        1584893
    } else if k == 26 {
        1614359
    } else if k == 27 {
        1644372
    } else if k == 28 {
        1674943
    } else if k == 29 {
        1706082
    } else if k == 30 {
        1737801
    } else if k == 31 {
        1770109
    } else if k == 32 {
        1803018
    } else if k == 33 {
        1836538
    } else if k == 34 {
        1870682
    } else if k == 35 {
        1905461
    } else if k == 36 {
        1940886
    } else if k == 37 {
        1976970
    } else if k == 38 {
        2013724
    } else if k == 39 {
        2051162
    } else if k == 40 {
        2089296
    } else if k == 41 {
        2128139
    } else if k == 42 {
        2167704
    } else if k == 43 {
        2208005
    } else if k == 44 {
        2249055
    } else if k == 45 {
        2290868
    } else if k == 46 {
        2333458
    } else if k == 47 {
        2376840
    } else if k == 48 {
        2421029
    } else if k == 49 {
        2466039
    } else if k == 50 {
        2511886
    } else if k == 51 {
        2558586
    } else if k == 52 {
        2606154
    } else if k == 53 {
        2654606
    } else if k == 54 {
        2703958
    } else if k == 55 {
        2754229
    } else if k == 56 {
        2805434
    } else if k == 57 {
        2857591
    } else if k == 58 {
        2910717
    } else if k == 59 {
        2964831
    } else if k == 60 {
        3019952
    } else if k == 61 {
        3076097
    } else if k == 62 {
        3133286
    } else if k == 63 {
        3191538
    } else if k == 64 {
        3250873
    } else if k == 65 {
        3311311
    } else if k == 66 {
        3372873
    } else if k == 67 {
        3435579
    } else if k == 68 {
        3499452
    } else if k == 69 {
        3564511
    } else if k == 70 {
        3630781
    } else if k == 71 {
        3698282
    } else if k == 72 {
        3767038
    } else if k == 73 {
        3837072
    } else if k == 74 {
        3908409
    } else if k == 75 {
        3981072
    } else if k == 76 {
        4055085
    } else if k == 77 {
        4130475
    } else if k == 78 {
        4207266
    } else if k == 79 {
        4285485
    } else if k == 80 {
        4365158
    } else if k == 81 {
        4446313
    } else if k == 82 {
        4528976
    } else if k == 83 {
        4613176
    } else if k == 84 {
        4698941
    } else if k == 85 {
        4786301
    } else if k == 86 {
        4875285
    } else if k == 87 {
        4965923
    } else if k == 88 {
        5058247
    } else if k == 89 {
        5152286
    } else if k == 90 {
        5248075
    } else if k == 91 {
        5345644
    } else if k == 92 {
        5445027
    } else if k == 93 {
        5546257
    } else if k == 94 {
        5649370
    } else if k == 95 {
        5754399
    } else if k == 96 {
        5861382
    } else if k == 97 {
        5970353
    } else if k == 98 {
        6081350
    } else if k == 99 {
        6194411
    } else if k == 100 {
        6309573
    } else if k == 101 {
        6426877
    } else if k == 102 {
        6546362
    } else if k == 103 {
        6668068
    } else if k == 104 {
        6792036
    } else if k == 105 {
        6918310
    } else if k == 106 {
        7046931
    } else if k == 107 {
        7177943
    } else if k == 108 {
        7311391
    } else if k == 109 {
        7447320
    } else if k == 110 {
        7585776
    } else if k == 111 {
        7726806
    } else if k == 112 {
        7870458
    } else if k == 113 {
        8016781
    } else if k == 114 {
        8165824
    } else if k == 115 {
        8317638
    } else if k == 116 {
        8472274
    } else if k == 117 {
        8629785
    } else if k == 118 {
        8790225
    } else if k == 119 {
        8953648
    } else if k == 120 {
        9120108
    } else if k == 121 {
        9289664
    } else if k == 122 {
        9462372
    } else if k == 123 {
        9638290
    } else if k == 124 {
        9817479
    } else {
        10000000
    }
}

/// Consecutive nodes rise by at least 18_500 and at most 190_000, and
/// every node lies in [SCALE, 10 * SCALE].
pub proof fn lemma_pow10_node_props()
    ensures
        forall|k: int|
            0 <= k < 125 ==> (#[trigger] pow10_node(k)) + 18_500 <= pow10_node(k + 1)
                && pow10_node(k + 1) <= pow10_node(k) + 190_000,
        forall|k: int| 1_000_000 <= #[trigger] pow10_node(k) <= 10_000_000,
        pow10_node(0) == 1_000_000,
        pow10_node(125) == 10_000_000,
{
    reveal(pow10_node);
}

/// Table lookup for `pow10_node`.
fn pow10_node_x(k: i64) -> (r: i64)
    requires
        0 <= k <= 125,
    ensures
        r == pow10_node(k as int),
{
    proof {
        reveal(pow10_node);
    }
    if k <= 0 {
        1000000
    } else if k == 1 {
        1018591
    } else if k == 2 {
        1037528
    } else if k == 3 {
        1056818
    } else if k == 4 {
        1076465
    } else if k == 5 {
        1096478
    } else if k == 6 {
        1116863
    } else if k == 7 {
        1137627
    } else if k == 8 {
        1158777
    } else if k == 9 {
        1180321
    } else if k == 10 {
        1202264
    } else if k == 11 {
        1224616
    } else if k == 12 {
        1247384
    } else if k == 13 {
        1270574
    } else if k == 14 {
        1294196
    } else if k == 15 {
        1318257
    } else if k == 16 {
        1342765
    } else if k == 17 {
        1367729
    } else if k == 18 {
        1393157
    } else if k == 19 {
        1419058
    } else if k == 20 {
        1445440
    } else if k == 21 {
        1472313
    } else if k == 22 {
        1499685
    } else if k == 23 {
        1527566
    } else if k == 24 {
        1555966
    } else if k == 25 {
        1584893
    } else if k == 26 {
        1614359
    } else if k == 27 {
        1644372
    } else if k == 28 {
        1674943
    } else if k == 29 {
        1706082
    } else if k == 30 {
        1737801
    } else if k == 31 {
        1770109
    } else if k == 32 {
        1803018
    } else if k == 33 {
        1836538
    } else if k == 34 {
        1870682
    } else if k == 35 {
        1905461
    } else if k == 36 {
        1940886
    } else if k == 37 {
        1976970
    } else if k == 38 {
        2013724
    } else if k == 39 {
        2051162
    } else if k == 40 {
        2089296
    } else if k == 41 {
        2128139
    } else if k == 42 {
        2167704
    } else if k == 43 {
        2208005
    } else if k == 44 {
        2249055
    } else if k == 45 {
        2290868
    } else if k == 46 {
        2333458
    } else if k == 47 {
        2376840
    } else if k == 48 {
        2421029
    } else if k == 49 {
        2466039
    } else if k == 50 {
        2511886
    } else if k == 51 {
        2558586
    } else if k == 52 {
        2606154
    } else if k == 53 {
        2654606
    } else if k == 54 {
        2703958
    } else if k == 55 {
        2754229
    } else if k == 56 {
        2805434
    } else if k == 57 {
        2857591
    } else if k == 58 {
        2910717
    } else if k == 59 {
        2964831
    } else if k == 60 {
        3019952
    } else if k == 61 {
        3076097
    } else if k == 62 {
        3133286
    } else if k == 63 {
        3191538
    } else if k == 64 {
        3250873
    } else if k == 65 {
        3311311
    } else if k == 66 {
        3372873
    } else if k == 67 {
        3435579
    } else if k == 68 {
        3499452
    } else if k == 69 {
        3564511
    } else if k == 70 {
        3630781
    } else if k == 71 {
        3698282
    } else if k == 72 {
        3767038
    } else if k == 73 {
        3837072
    } else if k == 74 {
        3908409
    } else if k == 75 {
        3981072
    } else if k == 76 {
        4055085
    } else if k == 77 {
        4130475
    } else if k == 78 {
        4207266
    } else if k == 79 {
        4285485
    } else if k == 80 {
        4365158
    } else if k == 81 {
        4446313
    } else if k == 82 {
        4528976
    } else if k == 83 {
        4613176
    } else if k == 84 {
        4698941
    } else if k == 85 {
        4786301
    } else if k == 86 {
        4875285
    } else if k == 87 {
        4965923
    } else if k == 88 {
        5058247
    } else if k == 89 {
        5152286
    } else if k == 90 {
        5248075
    } else if k == 91 {
        5345644
    } else if k == 92 {
        5445027
    } else if k == 93 {
        5546257
    } else if k == 94 {
        5649370
    } else if k == 95 {
        5754399
    } else if k == 96 {
        5861382
    } else if k == 97 {
        5970353
    } else if k == 98 {
        6081350
    } else if k == 99 {
        6194411
    } else if k == 100 {
        6309573
    } else if k == 101 {
        6426877
    } else if k == 102 {
        6546362
    } else if k == 103 {
        6668068
    } else if k == 104 {
        6792036
    } else if k == 105 {
        6918310
    } else if k == 106 {
        7046931
    } else if k == 107 {
        7177943
    } else if k == 108 {
        7311391
    } else if k == 109 {
        7447320
    } else if k == 110 {
        7585776
    } else if k == 111 {
        7726806
    } else if k == 112 {
        7870458
    } else if k == 113 {
        8016781
    } else if k == 114 {
        8165824
    } else if k == 115 {
        8317638
    } else if k == 116 {
        8472274
    } else if k == 117 {
        8629785
    } else if k == 118 {
        8790225
    } else if k == 119 {
        8953648
    } else if k == 120 {
        9120108
    } else if k == 121 {
        9289664
    } else if k == 122 {
        9462372
    } else if k == 123 {
        9638290
    } else if k == 124 {
        9817479
    } else {
        10000000
    }
}

/// Piecewise-linear interpolation of `SCALE * 10^(r / SCALE)` for a
/// fractional bel `r` in [0, SCALE), over segments of width 8000.
pub open spec fn pow10_frac(r: int) -> int
    recommends
        0 <= r < 1_000_000,
{
    let k = r / 8000;
    let d = r % 8000;
    pow10_node(k) + (pow10_node(k + 1) - pow10_node(k)) * d / 8000
}

/// Scale a fractional-bel value `f` by the whole power of ten `q - 3`.
pub open spec fn pow10_scaled(q: int, f: int) -> int {
    if q <= 0 {
        f / 1000
    } else if q == 1 {
        f / 100
    } else if q == 2 {
        f / 10
    } else if q == 3 {
        f
    } else if q == 4 {
        f * 10
    } else if q == 5 {
        f * 100
    } else {
        f * 1000
    }
}

/// `SCALE * 10^(db / (20 * SCALE))`: the linear gain of a micro-dB value.
pub open spec fn db_to_lin_spec(db: int) -> int {
    let v = (db + 60_000_000) / 20;
    pow10_scaled(v / 1_000_000, pow10_frac(v % 1_000_000))
}

/// Integer division distributes no worse than additively: the floors of
/// two summands never exceed the floor of their sum.
pub proof fn lemma_div_superadd(x: int, y: int, c: int)
    requires
        0 < c,
    ensures
        x / c + y / c <= (x + y) / c,
{
    lemma_fundamental_div_mod(y, c);
    vstd::arithmetic::div_mod::lemma_hoist_over_denominator(x, y / c, c as nat);
    assert((y / c) * c == c * (y / c)) by {
        vstd::arithmetic::mul::lemma_mul_is_commutative(y / c, c);
    }
    vstd::arithmetic::div_mod::lemma_mod_division_less_than_divisor(y, c);
    lemma_div_is_ordered(x + (y / c) * c, x + y, c);
}

/// ... and the floor of a sum exceeds the sum of the floors by at most one.
pub proof fn lemma_div_subadd(x: int, y: int, c: int)
    requires
        0 < c,
    ensures
        (x + y) / c <= x / c + y / c + 1,
{
    lemma_fundamental_div_mod(y, c);
    vstd::arithmetic::div_mod::lemma_hoist_over_denominator(x, y / c + 1, c as nat);
    assert((y / c + 1) * c == c * (y / c) + c) by {
        vstd::arithmetic::mul::lemma_mul_is_distributive_add_other_way(c, y / c, 1);
        vstd::arithmetic::mul::lemma_mul_is_commutative(y / c, c);
        vstd::arithmetic::mul::lemma_mul_basics(c);
    }
    lemma_div_is_ordered(x + y, x + (y / c + 1) * c, c);
}

/// `pow10_frac` stays between the nodes that bracket its segment.
pub proof fn lemma_pow10_frac_bounds(r: int)
    requires
        0 <= r < 1_000_000,
    ensures
        pow10_node(r / 8000) <= pow10_frac(r) <= pow10_node(r / 8000 + 1),
        1_000_000 <= pow10_frac(r) <= 10_000_000,
{
    let k = r / 8000;
    let d = r % 8000;
    let delta = pow10_node(k + 1) - pow10_node(k);
    lemma_pow10_node_props();
    assert(0 <= k < 125) by {
        lemma_fundamental_div_mod(r, 8000);
    }
    assert(0 <= d < 8000) by {
        lemma_fundamental_div_mod(r, 8000);
    }
    assert(0 <= delta * d) by {
        lemma_mul_inequality(0, delta, d);
    }
    assert(delta * d / 8000 >= 0) by {
        lemma_div_pos_is_pos(delta * d, 8000);
    }
    assert(delta * d <= delta * 8000) by {
        lemma_mul_inequality(d, 8000, delta);
    }
    assert(delta * d / 8000 <= delta * 8000 / 8000) by {
        lemma_div_is_ordered(delta * d, delta * 8000, 8000);
    }
    assert(delta * 8000 / 8000 == delta) by {
        vstd::arithmetic::div_mod::lemma_div_by_multiple(delta, 8000);
    }
}

/// Nodes with larger index are at least as large.
pub proof fn lemma_pow10_node_mono(i: int, j: int)
    requires
        0 <= i <= j <= 125,
    ensures
        pow10_node(i) <= pow10_node(j),
    decreases j - i,
{
    lemma_pow10_node_props();
    if i < j {
        lemma_pow10_node_mono(i, j - 1);
    }
}

/// The interpolated fraction is monotone over [0, SCALE).
pub proof fn lemma_pow10_frac_mono(r1: int, r2: int)
    requires
        0 <= r1 <= r2 < 1_000_000,
    ensures
        pow10_frac(r1) <= pow10_frac(r2),
{
    let k1 = r1 / 8000;
    let d1 = r1 % 8000;
    let k2 = r2 / 8000;
    let d2 = r2 % 8000;
    lemma_pow10_node_props();
    lemma_pow10_frac_bounds(r1);
    lemma_pow10_frac_bounds(r2);
    lemma_div_is_ordered(r1, r2, 8000);
    if k1 == k2 {
        let delta = pow10_node(k1 + 1) - pow10_node(k1);
        assert(d1 <= d2) by {
            lemma_fundamental_div_mod(r1, 8000);
            lemma_fundamental_div_mod(r2, 8000);
        }
        assert(delta * d1 <= delta * d2) by {
            vstd::arithmetic::mul::lemma_mul_left_inequality(delta, d1, d2);
        }
        lemma_div_is_ordered(delta * d1, delta * d2, 8000);
    } else {
        lemma_pow10_node_mono(k1 + 1, k2);
    }
}

/// Scaling by a larger power of ten from a bracketed fraction can only
/// grow: for fractions in [SCALE, 10 * SCALE], block `q + 1` starts
/// where block `q` ends.
pub proof fn lemma_pow10_scaled_mono(q1: int, f1: int, q2: int, f2: int)
    requires
        0 <= q1 <= q2 <= 6,
        1_000_000 <= f1 <= 10_000_000,
        1_000_000 <= f2 <= 10_000_000,
        q1 == q2 ==> f1 <= f2,
    ensures
        pow10_scaled(q1, f1) <= pow10_scaled(q2, f2),
    decreases q2 - q1,
{
    if q1 == q2 {
        lemma_div_is_ordered(f1, f2, 1000);
        lemma_div_is_ordered(f1, f2, 100);
        lemma_div_is_ordered(f1, f2, 10);
        vstd::arithmetic::mul::lemma_mul_inequality(f1, f2, 10);
        vstd::arithmetic::mul::lemma_mul_inequality(f1, f2, 100);
        vstd::arithmetic::mul::lemma_mul_inequality(f1, f2, 1000);
        assert(f1 * 10 <= f2 * 10);
        assert(f1 * 100 <= f2 * 100);
        assert(f1 * 1000 <= f2 * 1000);
    } else {
        // ride up through the end of block q1 into the start of block q1 + 1
        lemma_pow10_scaled_mono(q1, f1, q1, 10_000_000);
        assert(pow10_scaled(q1, 10_000_000) == pow10_scaled(q1 + 1, 1_000_000));
        lemma_pow10_scaled_mono(q1 + 1, 1_000_000, q2, f2);
    }
}

/// `db_to_lin_spec` is monotone.
pub proof fn lemma_db_to_lin_mono(a: int, b: int)
    requires
        DB_MIN <= a <= b <= DB_MAX,
    ensures
        db_to_lin_spec(a) <= db_to_lin_spec(b),
{
    let va = (a + 60_000_000) / 20;
    let vb = (b + 60_000_000) / 20;
    lemma_div_is_ordered(a + 60_000_000, b + 60_000_000, 20);
    lemma_div_is_ordered(0, a + 60_000_000, 20);
    lemma_div_is_ordered(b + 60_000_000, 120_000_000, 20);
    let qa = va / 1_000_000;
    let ra = va % 1_000_000;
    let qb = vb / 1_000_000;
    let rb = vb % 1_000_000;
    lemma_div_is_ordered(va, vb, 1_000_000);
    lemma_div_is_ordered(0, va, 1_000_000);
    lemma_div_is_ordered(vb, 6_000_000, 1_000_000);
    lemma_pow10_frac_bounds(ra);
    lemma_pow10_frac_bounds(rb);
    if qa == qb {
        assert(ra <= rb) by {
            lemma_fundamental_div_mod(va, 1_000_000);
            lemma_fundamental_div_mod(vb, 1_000_000);
        }
        lemma_pow10_frac_mono(ra, rb);
    }
    lemma_pow10_scaled_mono(qa, pow10_frac(ra), qb, pow10_frac(rb));
}

/// Moving 50 micro-bels to the right raises the interpolated fraction
/// by at least 100 (the table slope is at least 18_500 per segment of
/// width 8000).
proof fn lemma_pow10_frac_step50(r: int)
    requires
        0 <= r,
        r + 50 < 1_000_000,
    ensures
        pow10_frac(r + 50) >= pow10_frac(r) + 100,
{
    let k1 = r / 8000;
    let d1 = r % 8000;
    lemma_pow10_node_props();
    lemma_fundamental_div_mod(r, 8000);
    lemma_div_is_ordered(r, 999949, 8000);
    lemma_div_is_ordered(0, r, 8000);
    if d1 < 7950 {
        // same segment
        let delta = pow10_node(k1 + 1) - pow10_node(k1);
        assert(r + 50 == k1 * 8000 + (d1 + 50)) by {
            vstd::arithmetic::mul::lemma_mul_is_commutative(k1, 8000);
        }
        vstd::arithmetic::div_mod::lemma_fundamental_div_mod_converse_div(
            r + 50, 8000, k1, d1 + 50);
        vstd::arithmetic::div_mod::lemma_fundamental_div_mod_converse_mod(
            r + 50, 8000, k1, d1 + 50);
        assert(delta * (d1 + 50) == delta * d1 + delta * 50) by {
            vstd::arithmetic::mul::lemma_mul_is_distributive_add(delta, d1, 50);
        }
        lemma_div_superadd(delta * d1, delta * 50, 8000);
        assert(delta * 50 >= 18_500 * 50) by {
            vstd::arithmetic::mul::lemma_mul_inequality(18_500, delta, 50);
        }
        lemma_div_is_ordered(925_000, delta * 50, 8000);
    } else {
        // crossing into the next segment
        let t = d1 + 50 - 8000;
        assert(r + 50 == (k1 + 1) * 8000 + t) by {
            vstd::arithmetic::mul::lemma_mul_is_commutative(k1, 8000);
            vstd::arithmetic::mul::lemma_mul_is_distributive_add_other_way(8000, k1, 1);
        }
        vstd::arithmetic::div_mod::lemma_fundamental_div_mod_converse_div(
            r + 50, 8000, k1 + 1, t);
        vstd::arithmetic::div_mod::lemma_fundamental_div_mod_converse_mod(
            r + 50, 8000, k1 + 1, t);
        let s = 8000 - d1;
        let da = pow10_node(k1 + 1) - pow10_node(k1);
        let db_ = pow10_node(k1 + 2) - pow10_node(k1 + 1);
        let x1 = da * d1 / 8000;
        let x2 = db_ * t / 8000;
        // 8000 * (da - x1) >= da * s >= 18_500 * s
        lemma_fundamental_div_mod(da * d1, 8000);
        assert(da * d1 == da * 8000 - da * s) by {
            vstd::arithmetic::mul::lemma_mul_is_distributive_sub(da, 8000, s);
        }
        assert(da * s >= 18_500 * s) by {
            vstd::arithmetic::mul::lemma_mul_inequality(18_500, da, s);
        }
        // 8000 * x2 > db_ * t - 8000 >= 18_500 * t - 8000
        lemma_fundamental_div_mod(db_ * t, 8000);
        assert(db_ * t >= 18_500 * t) by {
            vstd::arithmetic::mul::lemma_mul_inequality(18_500, db_, t);
        }
        assert(18_500 * s + 18_500 * t == 925_000) by {
            vstd::arithmetic::mul::lemma_mul_is_distributive_add(18_500, s, t);
        }
        assert((da - x1) + x2 >= 100);
    }
}

/// Crossing the top of one bel into the next decade still gains slope:
/// ten times the fraction just past the wrap exceeds the fraction just
/// before it by at least 100.
proof fn lemma_pow10_frac_wrap(r1: int, t: int)
    requires
        999_950 <= r1 < 1_000_000,
        t == r1 + 50 - 1_000_000,
    ensures
        10 * pow10_frac(t) >= pow10_frac(r1) + 100,
{
    lemma_pow10_node_props();
    lemma_fundamental_div_mod(r1, 8000);
    lemma_div_is_ordered(999_950, r1, 8000);
    lemma_div_is_ordered(r1, 999_999, 8000);
    let d1 = r1 % 8000;
    assert(r1 / 8000 == 124);
    lemma_fundamental_div_mod(t, 8000);
    lemma_div_is_ordered(0, t, 8000);
    lemma_div_is_ordered(t, 49, 8000);
    assert(t / 8000 == 0);
    let s = 8000 - d1;
    let da = pow10_node(125) - pow10_node(124);
    let db_ = pow10_node(1) - pow10_node(0);
    let x1 = da * d1 / 8000;
    let x2 = db_ * t / 8000;
    lemma_fundamental_div_mod(da * d1, 8000);
    assert(da * d1 == da * 8000 - da * s) by {
        vstd::arithmetic::mul::lemma_mul_is_distributive_sub(da, 8000, s);
    }
    assert(da * s >= 18_500 * s) by {
        vstd::arithmetic::mul::lemma_mul_inequality(18_500, da, s);
    }
    lemma_fundamental_div_mod(db_ * t, 8000);
    assert(db_ * t >= 18_500 * t) by {
        vstd::arithmetic::mul::lemma_mul_inequality(18_500, db_, t);
    }
    assert(18_500 * s + 18_500 * t == 925_000) by {
        vstd::arithmetic::mul::lemma_mul_is_distributive_add(18_500, s, t);
    }
    // 10 * frac(t) - frac(r1) == 10 * x2 + (da - x1)  since 10 * node(0) == node(125)
    assert(10 * x2 + (da - x1) >= 100);
}

/// One thousandth of a decibel upward moves the linear gain up by at
/// least one micro-unit, anywhere at or above -40 dB.
pub proof fn lemma_db_to_lin_grows(db: int)
    requires
        -40_000_000 <= db,
        db + 1000 <= DB_MAX,
    ensures
        db_to_lin_spec(db + 1000) >= db_to_lin_spec(db) + 1,
{
    let u1 = db + 60_000_000;
    let v1 = u1 / 20;
    vstd::arithmetic::div_mod::lemma_hoist_over_denominator(u1, 50, 20);
    assert((u1 + 1000) / 20 == v1 + 50);
    lemma_div_is_ordered(20_000_000, u1, 20);
    lemma_div_is_ordered(u1 + 1000, 120_000_000, 20);
    let q1 = v1 / 1_000_000;
    let r1 = v1 % 1_000_000;
    lemma_fundamental_div_mod(v1, 1_000_000);
    lemma_div_is_ordered(1_000_000, v1, 1_000_000);
    lemma_div_is_ordered(v1 + 50, 6_000_000, 1_000_000);
    lemma_pow10_frac_bounds(r1);
    assert(1 <= q1);
    if r1 < 999_950 {
        assert(v1 + 50 == q1 * 1_000_000 + (r1 + 50)) by {
            vstd::arithmetic::mul::lemma_mul_is_commutative(q1, 1_000_000);
        }
        vstd::arithmetic::div_mod::lemma_fundamental_div_mod_converse_div(
            v1 + 50, 1_000_000, q1, r1 + 50);
        vstd::arithmetic::div_mod::lemma_fundamental_div_mod_converse_mod(
            v1 + 50, 1_000_000, q1, r1 + 50);
        lemma_pow10_frac_step50(r1);
        lemma_pow10_frac_bounds(r1 + 50);
        let f1 = pow10_frac(r1);
        let f2 = pow10_frac(r1 + 50);
        if q1 == 1 {
            vstd::arithmetic::div_mod::lemma_hoist_over_denominator(f1, 1, 100);
            lemma_div_is_ordered(f1 + 100, f2, 100);
        } else if q1 == 2 {
            vstd::arithmetic::div_mod::lemma_hoist_over_denominator(f1, 10, 10);
            lemma_div_is_ordered(f1 + 100, f2, 10);
        } else if q1 == 4 {
            vstd::arithmetic::mul::lemma_mul_inequality(f1 + 100, f2, 10);
            assert((f1 + 100) * 10 == f1 * 10 + 1000) by {
                vstd::arithmetic::mul::lemma_mul_is_distributive_add_other_way(10, f1, 100);
            }
        } else if q1 == 5 {
            vstd::arithmetic::mul::lemma_mul_inequality(f1 + 100, f2, 100);
            assert((f1 + 100) * 100 == f1 * 100 + 10000) by {
                vstd::arithmetic::mul::lemma_mul_is_distributive_add_other_way(100, f1, 100);
            }
        } else if q1 == 6 {
            vstd::arithmetic::mul::lemma_mul_inequality(f1 + 100, f2, 1000);
            assert((f1 + 100) * 1000 == f1 * 1000 + 100000) by {
                vstd::arithmetic::mul::lemma_mul_is_distributive_add_other_way(1000, f1, 100);
            }
        }
    } else {
        // wrap into the next decade
        let t = r1 + 50 - 1_000_000;
        assert(v1 + 50 == (q1 + 1) * 1_000_000 + t) by {
            vstd::arithmetic::mul::lemma_mul_is_commutative(q1, 1_000_000);
            vstd::arithmetic::mul::lemma_mul_is_distributive_add_other_way(1_000_000, q1, 1);
        }
        vstd::arithmetic::div_mod::lemma_fundamental_div_mod_converse_div(
            v1 + 50, 1_000_000, q1 + 1, t);
        vstd::arithmetic::div_mod::lemma_fundamental_div_mod_converse_mod(
            v1 + 50, 1_000_000, q1 + 1, t);
        lemma_pow10_frac_wrap(r1, t);
        lemma_pow10_frac_bounds(t);
        let f1 = pow10_frac(r1);
        let f2 = pow10_frac(t);
        assert(10 * f2 >= f1 + 100);
        if q1 == 1 {
            // f2 / 10 == (10 * f2) / 100 >= (f1 + 100) / 100 == f1 / 100 + 1
            assert((10 * f2) / 100 == f2 / 10) by {
                vstd::arithmetic::div_mod::lemma_div_denominator(10 * f2, 10, 10);
                vstd::arithmetic::div_mod::lemma_div_by_multiple(f2, 10);
                vstd::arithmetic::mul::lemma_mul_is_commutative(f2, 10);
            }
            lemma_div_is_ordered(f1 + 100, 10 * f2, 100);
            vstd::arithmetic::div_mod::lemma_hoist_over_denominator(f1, 1, 100);
        } else if q1 == 2 {
            assert((10 * f2) / 10 == f2) by {
                vstd::arithmetic::div_mod::lemma_div_by_multiple(f2, 10);
                vstd::arithmetic::mul::lemma_mul_is_commutative(f2, 10);
            }
            lemma_div_is_ordered(f1 + 100, 10 * f2, 10);
            vstd::arithmetic::div_mod::lemma_hoist_over_denominator(f1, 10, 10);
        } else if q1 == 3 {
            assert(f2 * 10 == 10 * f2) by {
                vstd::arithmetic::mul::lemma_mul_is_commutative(f2, 10);
            }
        } else if q1 == 4 {
            // f2 * 100 == (10 * f2) * 10 >= (f1 + 100) * 10 == f1 * 10 + 1000
            assert(f2 * 100 == (10 * f2) * 10) by {
                vstd::arithmetic::mul::lemma_mul_is_associative(10, f2, 10);
                vstd::arithmetic::mul::lemma_mul_is_commutative(f2, 10);
                vstd::arithmetic::mul::lemma_mul_is_commutative(f2, 100);
            }
            vstd::arithmetic::mul::lemma_mul_inequality(f1 + 100, 10 * f2, 10);
            assert((f1 + 100) * 10 == f1 * 10 + 1000) by {
                vstd::arithmetic::mul::lemma_mul_is_distributive_add_other_way(10, f1, 100);
            }
        } else {
            // q1 == 5: f2 * 1000 == (10 * f2) * 100 >= (f1 + 100) * 100
            assert(f2 * 1000 == (10 * f2) * 100) by {
                vstd::arithmetic::mul::lemma_mul_is_associative(10, f2, 100);
                vstd::arithmetic::mul::lemma_mul_is_commutative(f2, 10);
                vstd::arithmetic::mul::lemma_mul_is_commutative(f2, 1000);
            }
            vstd::arithmetic::mul::lemma_mul_inequality(f1 + 100, 10 * f2, 100);
            assert((f1 + 100) * 100 == f1 * 100 + 10000) by {
                vstd::arithmetic::mul::lemma_mul_is_distributive_add_other_way(100, f1, 100);
            }
        }
    }
}

/// One micro-bel to the right raises the interpolated fraction by at
/// most 24 (the table slope is at most 190_000 per segment).
proof fn lemma_pow10_frac_step1(r: int)
    requires
        0 <= r,
        r + 1 < 1_000_000,
    ensures
        pow10_frac(r) <= pow10_frac(r + 1) <= pow10_frac(r) + 24,
{
    let k1 = r / 8000;
    let d1 = r % 8000;
    lemma_pow10_node_props();
    lemma_pow10_frac_mono(r, r + 1);
    lemma_fundamental_div_mod(r, 8000);
    lemma_div_is_ordered(r, 999_998, 8000);
    lemma_div_is_ordered(0, r, 8000);
    if d1 < 7999 {
        let delta = pow10_node(k1 + 1) - pow10_node(k1);
        assert(r + 1 == k1 * 8000 + (d1 + 1)) by {
            vstd::arithmetic::mul::lemma_mul_is_commutative(k1, 8000);
        }
        vstd::arithmetic::div_mod::lemma_fundamental_div_mod_converse_div(
            r + 1, 8000, k1, d1 + 1);
        vstd::arithmetic::div_mod::lemma_fundamental_div_mod_converse_mod(
            r + 1, 8000, k1, d1 + 1);
        assert(delta * (d1 + 1) == delta * d1 + delta) by {
            vstd::arithmetic::mul::lemma_mul_is_distributive_add(delta, d1, 1);
            vstd::arithmetic::mul::lemma_mul_basics(delta);
        }
        lemma_div_subadd(delta * d1, delta, 8000);
        lemma_div_is_ordered(delta, 190_000, 8000);
    } else {
        // crossing into the next segment: the last interpolated point is
        // within one slope unit of the next node
        assert(r + 1 == (k1 + 1) * 8000 + 0) by {
            vstd::arithmetic::mul::lemma_mul_is_commutative(k1, 8000);
            vstd::arithmetic::mul::lemma_mul_is_distributive_add_other_way(8000, k1, 1);
        }
        vstd::arithmetic::div_mod::lemma_fundamental_div_mod_converse_div(
            r + 1, 8000, k1 + 1, 0);
        vstd::arithmetic::div_mod::lemma_fundamental_div_mod_converse_mod(
            r + 1, 8000, k1 + 1, 0);
        let delta = pow10_node(k1 + 1) - pow10_node(k1);
        let x1 = delta * d1 / 8000;
        lemma_fundamental_div_mod(delta * d1, 8000);
        assert(delta * 7999 == delta * 8000 - delta) by {
            vstd::arithmetic::mul::lemma_mul_is_distributive_sub(delta, 8000, 1);
            vstd::arithmetic::mul::lemma_mul_basics(delta);
        }
        // 8000 * x1 > delta * 7999 - 8000, so delta - x1 <= 24
        let delta2 = pow10_node(k1 + 2) - pow10_node(k1 + 1);
        assert(delta2 * 0 == 0) by {
            vstd::arithmetic::mul::lemma_mul_basics(delta2);
        }
        assert(pow10_frac(r + 1) == pow10_node(k1 + 1));
    }
}

/// One micro-dB never moves the linear gain by more than 2500.
#[verifier::rlimit(100)]
pub proof fn lemma_db_to_lin_step_bound(db: int)
    requires
        DB_MIN <= db,
        db + 1 <= DB_MAX,
    ensures
        db_to_lin_spec(db) <= db_to_lin_spec(db + 1) <= db_to_lin_spec(db) + 2500,
{
    lemma_db_to_lin_mono(db, db + 1);
    lemma_pow10_node_props();
    let u1 = db + 60_000_000;
    let v1 = u1 / 20;
    let v2 = (u1 + 1) / 20;
    lemma_div_is_ordered(u1, u1 + 1, 20);
    vstd::arithmetic::div_mod::lemma_hoist_over_denominator(u1, 1, 20);
    lemma_div_is_ordered(u1 + 1, u1 + 20, 20);
    assert(v1 <= v2 <= v1 + 1);
    if v2 != v1 {
        lemma_div_is_ordered(0, u1, 20);
        lemma_div_is_ordered(u1 + 1, 120_000_000, 20);
        let q1 = v1 / 1_000_000;
        let r1 = v1 % 1_000_000;
        lemma_fundamental_div_mod(v1, 1_000_000);
        lemma_div_is_ordered(0, v1, 1_000_000);
        lemma_div_is_ordered(v2, 6_000_000, 1_000_000);
        lemma_pow10_frac_bounds(r1);
        if r1 < 999_999 {
            assert(v2 == q1 * 1_000_000 + (r1 + 1)) by {
                vstd::arithmetic::mul::lemma_mul_is_commutative(q1, 1_000_000);
            }
            vstd::arithmetic::div_mod::lemma_fundamental_div_mod_converse_div(
                v2, 1_000_000, q1, r1 + 1);
            vstd::arithmetic::div_mod::lemma_fundamental_div_mod_converse_mod(
                v2, 1_000_000, q1, r1 + 1);
            lemma_pow10_frac_step1(r1);
            lemma_pow10_frac_bounds(r1 + 1);
            let f1 = pow10_frac(r1);
            let f2 = pow10_frac(r1 + 1);
            if q1 <= 0 {
                lemma_div_is_ordered(f2, f1 + 24, 1000);
                lemma_div_subadd(f1, 24, 1000);
            } else if q1 == 1 {
                lemma_div_is_ordered(f2, f1 + 24, 100);
                lemma_div_subadd(f1, 24, 100);
            } else if q1 == 2 {
                lemma_div_is_ordered(f2, f1 + 24, 10);
                lemma_div_subadd(f1, 24, 10);
            } else if q1 == 4 {
                vstd::arithmetic::mul::lemma_mul_inequality(f2, f1 + 24, 10);
                assert((f1 + 24) * 10 == f1 * 10 + 240) by {
                    vstd::arithmetic::mul::lemma_mul_is_distributive_add_other_way(10, f1, 24);
                }
            } else if q1 == 5 {
                vstd::arithmetic::mul::lemma_mul_inequality(f2, f1 + 24, 100);
                assert((f1 + 24) * 100 == f1 * 100 + 2400) by {
                    vstd::arithmetic::mul::lemma_mul_is_distributive_add_other_way(100, f1, 24);
                }
            } else if q1 == 6 {
                vstd::arithmetic::mul::lemma_mul_inequality(f2, f1 + 24, 1000);
                assert((f1 + 24) * 1000 == f1 * 1000 + 24000) by {
                    vstd::arithmetic::mul::lemma_mul_is_distributive_add_other_way(1000, f1, 24);
                }
                // q1 == 6 forces v1 == 6_000_000, so v2 would leave the domain
                assert(v1 == 6_000_000);
                assert(false);
            }
        } else {
            // wrap: r1 == 999_999, the fraction sits within 24 of the top node
            assert(v2 == (q1 + 1) * 1_000_000 + 0) by {
                vstd::arithmetic::mul::lemma_mul_is_commutative(q1, 1_000_000);
                vstd::arithmetic::mul::lemma_mul_is_distributive_add_other_way(1_000_000, q1, 1);
            }
            vstd::arithmetic::div_mod::lemma_fundamental_div_mod_converse_div(
                v2, 1_000_000, q1 + 1, 0);
            vstd::arithmetic::div_mod::lemma_fundamental_div_mod_converse_mod(
                v2, 1_000_000, q1 + 1, 0);
            let f1 = pow10_frac(r1);
            // f1 >= node(125) - 24
            lemma_fundamental_div_mod(r1, 8000);
            lemma_div_is_ordered(999_999, r1, 8000);
            lemma_div_is_ordered(r1, 999_999, 8000);
            assert(r1 / 8000 == 124);
            let delta = pow10_node(125) - pow10_node(124);
            lemma_fundamental_div_mod(delta * 7999, 8000);
            assert(delta * 7999 == delta * 8000 - delta) by {
                vstd::arithmetic::mul::lemma_mul_is_distributive_sub(delta, 8000, 1);
                vstd::arithmetic::mul::lemma_mul_basics(delta);
            }
            assert(f1 >= 10_000_000 - 24);
            let f2 = pow10_frac(0);
            assert(f2 == 1_000_000) by {
                vstd::arithmetic::mul::lemma_mul_basics(pow10_node(1) - pow10_node(0));
            }
            if q1 <= 0 {
                lemma_div_is_ordered(10_000_000 - 24, f1, 1000);
            } else if q1 == 1 {
                lemma_div_is_ordered(10_000_000 - 24, f1, 100);
            } else if q1 == 2 {
                lemma_div_is_ordered(10_000_000 - 24, f1, 10);
            } else if q1 == 4 {
                vstd::arithmetic::mul::lemma_mul_inequality(10_000_000 - 24, f1, 10);
            } else if q1 == 5 {
                vstd::arithmetic::mul::lemma_mul_inequality(10_000_000 - 24, f1, 100);
            }
        }
    }
}

/// The exact reference points of the conversion: whole decades map to
/// exact powers of ten.
pub proof fn lemma_db_to_lin_values()
    ensures
        db_to_lin_spec(-60_000_000) == 1_000,
        db_to_lin_spec(-20_000_000) == 100_000,
        db_to_lin_spec(0) == 1_000_000,
        db_to_lin_spec(20_000_000) == 10_000_000,
        db_to_lin_spec(40_000_000) == 100_000_000,
        db_to_lin_spec(60_000_000) == 1_000_000_000,
{
    lemma_pow10_node_props();
    vstd::arithmetic::mul::lemma_mul_basics(pow10_node(1) - pow10_node(0));
    assert(pow10_frac(0) == 1_000_000);
    assert(0int / 20 == 0 && 0int / 1_000_000 == 0 && 0int % 1_000_000 == 0);
    assert(40_000_000int / 20 == 2_000_000);
    assert(2_000_000int / 1_000_000 == 2 && 2_000_000int % 1_000_000 == 0);
    assert(60_000_000int / 20 == 3_000_000);
    assert(3_000_000int / 1_000_000 == 3 && 3_000_000int % 1_000_000 == 0);
    assert(80_000_000int / 20 == 4_000_000);
    assert(4_000_000int / 1_000_000 == 4 && 4_000_000int % 1_000_000 == 0);
    assert(100_000_000int / 20 == 5_000_000);
    assert(5_000_000int / 1_000_000 == 5 && 5_000_000int % 1_000_000 == 0);
    assert(120_000_000int / 20 == 6_000_000);
    assert(6_000_000int / 1_000_000 == 6 && 6_000_000int % 1_000_000 == 0);
    assert(pow10_scaled(4, 1_000_000) == 10_000_000);
}

/// Convert a micro-dB value to a micro linear gain factor.
pub fn db_to_lin(db: i64) -> (lin: i64)
    requires
        DB_MIN <= db <= DB_MAX,
    ensures
        lin == db_to_lin_spec(db as int),
        LIN_MIN <= lin <= LIN_MAX,
{
    let u: i64 = db + 60_000_000;
    let v: i64 = u / 20;
    let q: i64 = v / 1_000_000;
    let r: i64 = v % 1_000_000;
    let k: i64 = r / 8000;
    let d: i64 = r % 8000;
    proof {
        lemma_pow10_node_props();
        lemma_pow10_frac_bounds(r as int);
    }
    let nk: i64 = pow10_node_x(k);
    let nk1: i64 = pow10_node_x(k + 1);
    let f: i64 = nk + (nk1 - nk) * d / 8000;
    proof {
        assert(f == pow10_frac(r as int));
        lemma_fundamental_div_mod(v as int, 1_000_000);
        if q == 6 {
            assert(v == 6_000_000);
            assert(r == 0);
            assert(k == 0 && d == 0);
            vstd::arithmetic::mul::lemma_mul_basics((nk1 - nk) as int);
            assert((nk1 - nk) * (d as int) == 0);
            assert(0int / 8000 == 0);
            assert(f == 1_000_000);
        }
        lemma_div_is_ordered(1_000_000, f as int, 1000);
        lemma_div_is_ordered(f as int, 10_000_000, 1000);
        lemma_div_is_ordered(1_000_000, f as int, 100);
        lemma_div_is_ordered(f as int, 10_000_000, 100);
        lemma_div_is_ordered(1_000_000, f as int, 10);
        lemma_div_is_ordered(f as int, 10_000_000, 10);
    }
    if q <= 0 {
        f / 1000
    } else if q == 1 {
        f / 100
    } else if q == 2 {
        f / 10
    } else if q == 3 {
        f
    } else if q == 4 {
        f * 10
    } else if q == 5 {
        f * 100
    } else {
        f * 1000
    }
}

/// `d` is the greatest micro-dB value in range whose linear gain does
/// not exceed `l`.
pub open spec fn db_of_lin(l: int, d: int) -> bool {
    &&& DB_MIN <= d <= DB_MAX
    &&& db_to_lin_spec(d) <= l
    &&& (d == DB_MAX || db_to_lin_spec(d + 1) > l)
}

/// At most one micro-dB value fits `db_of_lin` for a given gain.
pub proof fn lemma_db_of_lin_unique(l: int, d1: int, d2: int)
    requires
        db_of_lin(l, d1),
        db_of_lin(l, d2),
    ensures
        d1 == d2,
{
    if d1 < d2 {
        lemma_db_to_lin_mono(d1 + 1, d2);
        assert(false);
    }
    if d2 < d1 {
        lemma_db_to_lin_mono(d2 + 1, d1);
        assert(false);
    }
}

proof fn lemma_db_of_lin_exists_between(l: int, lo: int, hi: int)
    requires
        DB_MIN <= lo < hi <= DB_MAX,
        db_to_lin_spec(lo) <= l,
        db_to_lin_spec(hi) > l,
    ensures
        exists|d: int| db_of_lin(l, d),
    decreases hi - lo,
{
    if lo + 1 == hi {
        assert(db_of_lin(l, lo));
    } else {
        let mid = lo + (hi - lo) / 2;
        lemma_div_is_ordered(2, hi - lo, 2);
        vstd::arithmetic::div_mod::lemma_div_is_strictly_smaller(hi - lo, 2);
        if db_to_lin_spec(mid) <= l {
            lemma_db_of_lin_exists_between(l, mid, hi);
        } else {
            lemma_db_of_lin_exists_between(l, lo, mid);
        }
    }
}

/// Every in-range gain has a micro-dB value fitting `db_of_lin`.
pub proof fn lemma_db_of_lin_exists(l: int)
    requires
        LIN_MIN <= l <= LIN_MAX,
    ensures
        exists|d: int| db_of_lin(l, d),
{
    lemma_db_to_lin_values();
    if db_to_lin_spec(DB_MAX as int) <= l {
        assert(db_of_lin(l, DB_MAX as int));
    } else {
        lemma_db_of_lin_exists_between(l, DB_MIN as int, DB_MAX as int);
    }
}

/// The micro-dB value of a linear gain: the exact lower inverse of
/// `db_to_lin_spec`.
pub open spec fn lin_to_db_spec(l: int) -> int {
    choose|d: int| db_of_lin(l, d)
}

/// A witness for `db_of_lin` pins `lin_to_db_spec` down.
pub proof fn lemma_lin_to_db_spec_is(l: int, d: int)
    requires
        db_of_lin(l, d),
    ensures
        lin_to_db_spec(l) == d,
{
    assert(db_of_lin(l, lin_to_db_spec(l)));
    lemma_db_of_lin_unique(l, lin_to_db_spec(l), d);
}

/// Convert a micro linear gain factor back to micro-dB: the greatest
/// decibel value whose gain does not exceed `l`.
#[verifier::rlimit(80)]
pub fn lin_to_db(l: i64) -> (d: i64)
    requires
        LIN_MIN <= l <= LIN_MAX,
    ensures
        DB_MIN <= d <= DB_MAX,
        db_of_lin(l as int, d as int),
        d == lin_to_db_spec(l as int),
{
    proof {
        lemma_db_to_lin_values();
    }
    let top = db_to_lin(DB_MAX);
    if top <= l {
        proof {
            assert(db_of_lin(l as int, DB_MAX as int));
            lemma_lin_to_db_spec_is(l as int, DB_MAX as int);
        }
        return DB_MAX;
    }
    let mut lo: i64 = DB_MIN;
    let mut hi: i64 = DB_MAX;
    while lo + 1 < hi
        invariant
            DB_MIN <= lo < hi <= DB_MAX,
            db_to_lin_spec(lo as int) <= l,
            db_to_lin_spec(hi as int) > l,
        decreases hi - lo,
    {
        let mid: i64 = lo + (hi - lo) / 2;
        proof {
            lemma_div_is_ordered(2, (hi - lo) as int, 2);
            vstd::arithmetic::div_mod::lemma_div_is_strictly_smaller((hi - lo) as int, 2);
        }
        let m = db_to_lin(mid);
        if m <= l {
            lo = mid;
        } else {
            hi = mid;
        }
    }
    proof {
        assert(db_of_lin(l as int, lo as int));
        lemma_lin_to_db_spec_is(l as int, lo as int);
    }
    lo
}

/// The inverse is monotone: a larger gain never maps to a smaller
/// decibel value.
pub proof fn lemma_lin_to_db_mono(l1: int, l2: int)
    requires
        LIN_MIN <= l1 <= l2 <= LIN_MAX,
    ensures
        lin_to_db_spec(l1) <= lin_to_db_spec(l2),
{
    lemma_db_of_lin_exists(l1);
    lemma_db_of_lin_exists(l2);
    let d1 = lin_to_db_spec(l1);
    let d2 = lin_to_db_spec(l2);
    assert(db_of_lin(l1, d1));
    assert(db_of_lin(l2, d2));
    if d2 < d1 {
        lemma_db_to_lin_mono(d2 + 1, d1);
        assert(false);
    }
}

/// Chaining the granularity bound: `n` thousandths of a decibel move
/// the linear gain up by at least `n`.
pub proof fn lemma_db_to_lin_grows_chain(db: int, n: nat)
    requires
        -40_000_000 <= db,
        db + 1000 * n <= DB_MAX,
    ensures
        db_to_lin_spec(db + 1000 * n) >= db_to_lin_spec(db) + n,
    decreases n,
{
    if n > 0 {
        lemma_db_to_lin_grows_chain(db, (n - 1) as nat);
        lemma_db_to_lin_grows(db + 1000 * ((n - 1) as nat));
    }
}

/// Nine micro-dB move the linear gain by at most 22_500.
pub proof fn lemma_db_to_lin_growth9(db: int)
    requires
        DB_MIN <= db,
        db + 9 <= DB_MAX,
    ensures
        db_to_lin_spec(db + 9) <= db_to_lin_spec(db) + 22_500,
{
    lemma_db_to_lin_step_bound(db);
    lemma_db_to_lin_step_bound(db + 1);
    lemma_db_to_lin_step_bound(db + 2);
    lemma_db_to_lin_step_bound(db + 3);
    lemma_db_to_lin_step_bound(db + 4);
    lemma_db_to_lin_step_bound(db + 5);
    lemma_db_to_lin_step_bound(db + 6);
    lemma_db_to_lin_step_bound(db + 7);
    lemma_db_to_lin_step_bound(db + 8);
}

/// Converting a decibel value to a linear gain and back recovers it to
/// within one thousandth of a decibel, anywhere at or above -40 dB; the
/// inverse only ever rounds upward.
pub proof fn law_db_round_trip(db: int)
    requires
        -40_000_000 <= db <= DB_MAX,
    ensures
        db <= lin_to_db_spec(db_to_lin_spec(db)),
        lin_to_db_spec(db_to_lin_spec(db)) < db + 1000,
{
    let l = db_to_lin_spec(db);
    lemma_db_to_lin_values();
    lemma_db_to_lin_mono(DB_MIN as int, db);
    lemma_db_to_lin_mono(db, DB_MAX as int);
    lemma_db_of_lin_exists(l);
    let x = lin_to_db_spec(l);
    assert(db_of_lin(l, x));
    if x < db {
        lemma_db_to_lin_mono(x + 1, db);
        assert(false);
    }
    if x >= db + 1000 {
        lemma_db_to_lin_grows(db);
        lemma_db_to_lin_mono(db + 1000, x);
        assert(false);
    }
}

} // verus!
