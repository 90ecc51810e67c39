//! The logistic curve never falls.
//!
//! The exponential series is summed in whole raw units, so that it falls as
//! its argument grows is no matter of course: every level of the nesting
//! rounds. It does hold, level by level: between two neighbouring arguments
//! a nested factor stays or falls by one unit, never more and never the other
//! way. The halvings and the final quotient keep the order.
use vstd::prelude::*;
use vstd::arithmetic::div_mod::{lemma_div_is_ordered, lemma_div_is_ordered_by_denominator, lemma_div_plus_one};
use crate::activation::{exp_neg, exp_tail, halved, lemma_exp_neg_bounds, lemma_exp_tail_bounds, lemma_logistic_bounds, logistic, EXP_TERMS, LN_2};
use crate::fixed::SCALE;
use crate::series::nested_term;

verus! {

/// From the third level inward a nested factor of the exponential series is
/// at least `1 - r/3`.
proof fn lemma_inner_factor_floor(r: int, j: int)
    requires
        0 <= r < LN_2,
        3 <= j,
    ensures
        exp_tail(r, j) >= SCALE - r / 3,
{
    if j <= EXP_TERMS {
        lemma_exp_tail_bounds(r, j + 1);
        let u = exp_tail(r, j + 1);
        let s = SCALE as int;
        let q = (r * u) / (j * s);
        assert(3 * q <= r) by (nonlinear_arith)
            requires
                0 <= r,
                0 <= u <= s,
                3 <= j,
                s == 1_000_000_000_000_000,
                q == (r * u) / (j * s),
        ;
    }
}

/// From the second level inward a nested factor of the exponential series
/// exceeds the argument, as long as the argument is below `ln 2`.
proof fn lemma_factor_exceeds_argument(r: int, j: int)
    requires
        0 <= r < LN_2,
        2 <= j,
    ensures
        exp_tail(r, j) >= r + 1,
{
    let s = SCALE as int;
    if j >= 3 {
        lemma_inner_factor_floor(r, j);
    } else {
        lemma_exp_tail_bounds(r, 3);
        let t3 = exp_tail(r, 3);
        let q2 = (r * t3) / (2 * s);
        if r <= 660_000_000_000_000 {
            assert(2 * q2 <= r) by (nonlinear_arith)
                requires
                    0 <= r,
                    0 <= t3 <= s,
                    s == 1_000_000_000_000_000,
                    q2 == (r * t3) / (2 * s),
            ;
        } else {
            lemma_inner_factor_floor(r, 4);
            let t4 = exp_tail(r, 4);
            let q3 = (r * t4) / (3 * s);
            assert(q3 >= 168_000_000_000_000) by (nonlinear_arith)
                requires
                    660_000_000_000_000 <= r,
                    768_000_000_000_000 <= t4,
                    s == 1_000_000_000_000_000,
                    q3 == (r * t4) / (3 * s),
            ;
            assert(t3 == s - q3);
            assert(q2 <= 289_000_000_000_000) by (nonlinear_arith)
                requires
                    0 <= r < 694_000_000_000_000,
                    0 <= t3 <= 832_000_000_000_000,
                    s == 1_000_000_000_000_000,
                    q2 == (r * t3) / (2 * s),
            ;
        }
    }
}

/// Between two neighbouring arguments below `ln 2`, a nested factor of the
/// exponential series stays or falls by one raw unit.
proof fn lemma_factor_falls_slowly(r: int, k: int)
    requires
        0 <= r,
        r + 1 < LN_2,
        1 <= k,
    ensures
        exp_tail(r, k) - 1 <= exp_tail(r + 1, k) <= exp_tail(r, k),
    decreases EXP_TERMS + 1 - k,
{
    if k <= EXP_TERMS {
        lemma_factor_falls_slowly(r, k + 1);
        lemma_factor_exceeds_argument(r, k + 1);
        lemma_exp_tail_bounds(r, k + 1);
        lemma_exp_tail_bounds(r + 1, k + 1);
        let s = SCALE as int;
        let u = exp_tail(r, k + 1);
        let v = exp_tail(r + 1, k + 1);
        let d = k * s;
        let x = r * u;
        let y = (r + 1) * v;
        assert(x <= y <= x + d && 0 < d) by (nonlinear_arith)
            requires
                0 <= r,
                r + 1 <= u,
                u - 1 <= v <= u,
                u <= s,
                1 <= k,
                d == k * s,
                s == 1_000_000_000_000_000,
                x == r * u,
                y == (r + 1) * v,
        ;
        lemma_div_is_ordered(x, y, d);
        lemma_div_is_ordered(y, d + x, d);
        lemma_div_plus_one(x, d);
    }
}

/// Halving keeps the order of two numbers.
proof fn lemma_halved_keeps_order(u: int, v: int, n: nat)
    requires
        0 <= u <= v,
    ensures
        halved(u, n) <= halved(v, n),
    decreases n,
{
    if n > 0 {
        lemma_halved_keeps_order(u / 2, v / 2, (n - 1) as nat);
    }
}

/// Just below `ln 2` the exponential series is still above one half.
proof fn lemma_series_below_ln_2()
    ensures
        exp_tail(LN_2 - 1, 1) == 500_000_000_000_001,
{
    assert(exp_tail(693_147_180_559_944, 19) == 1_000_000_000_000_000);
    assert(nested_term(1_000_000_000_000_000, 693_147_180_559_944, 18) == 961_491_823_302_226) by (nonlinear_arith);
    assert(exp_tail(693_147_180_559_944, 18) == 961_491_823_302_226);
    assert(nested_term(961_491_823_302_226, 693_147_180_559_944, 17) == 960_796_744_326_272) by (nonlinear_arith);
    assert(exp_tail(693_147_180_559_944, 17) == 960_796_744_326_272);
    assert(nested_term(960_796_744_326_272, 693_147_180_559_944, 16) == 958_376_652_848_692) by (nonlinear_arith);
    assert(exp_tail(693_147_180_559_944, 16) == 958_376_652_848_692);
    assert(nested_term(958_376_652_848_692, 693_147_180_559_944, 15) == 955_713_595_010_897) by (nonlinear_arith);
    assert(exp_tail(693_147_180_559_944, 15) == 955_713_595_010_897);
    assert(nested_term(955_713_595_010_897, 693_147_180_559_944, 14) == 952_682_129_728_243) by (nonlinear_arith);
    assert(exp_tail(693_147_180_559_944, 14) == 952_682_129_728_243);
    assert(nested_term(952_682_129_728_243, 693_147_180_559_944, 13) == 949_203_928_293_002) by (nonlinear_arith);
    assert(exp_tail(693_147_180_559_944, 13) == 949_203_928_293_002);
    assert(nested_term(949_203_928_293_002, 693_147_180_559_944, 12) == 945_171_831_110_607) by (nonlinear_arith);
    assert(exp_tail(693_147_180_559_944, 12) == 945_171_831_110_607);
    assert(nested_term(945_171_831_110_607, 693_147_180_559_944, 11) == 940_441_528_192_819) by (nonlinear_arith);
    assert(exp_tail(693_147_180_559_944, 11) == 940_441_528_192_819);
    assert(nested_term(940_441_528_192_819, 693_147_180_559_944, 10) == 934_813_560_625_167) by (nonlinear_arith);
    assert(exp_tail(693_147_180_559_944, 10) == 934_813_560_625_167);
    assert(nested_term(934_813_560_625_167, 693_147_180_559_944, 9) == 928_004_068_455_941) by (nonlinear_arith);
    assert(exp_tail(693_147_180_559_944, 9) == 928_004_068_455_941);
    assert(nested_term(928_004_068_455_941, 693_147_180_559_944, 8) == 919_594_574_550_201) by (nonlinear_arith);
    assert(exp_tail(693_147_180_559_944, 8) == 919_594_574_550_201);
    assert(nested_term(919_594_574_550_201, 693_147_180_559_944, 7) == 908_940_801_913_187) by (nonlinear_arith);
    assert(exp_tail(693_147_180_559_944, 7) == 908_940_801_913_187);
    assert(nested_term(908_940_801_913_187, 693_147_180_559_944, 6) == 894_995_040_976_330) by (nonlinear_arith);
    assert(exp_tail(693_147_180_559_944, 6) == 894_995_040_976_330);
    assert(nested_term(894_995_040_976_330, 693_147_180_559_944, 5) == 875_927_342_146_426) by (nonlinear_arith);
    assert(exp_tail(693_147_180_559_944, 5) == 875_927_342_146_426);
    assert(nested_term(875_927_342_146_426, 693_147_180_559_944, 4) == 848_213_358_103_960) by (nonlinear_arith);
    assert(exp_tail(693_147_180_559_944, 4) == 848_213_358_103_960);
    assert(nested_term(848_213_358_103_960, 693_147_180_559_944, 3) == 804_021_100_772_320) by (nonlinear_arith);
    assert(exp_tail(693_147_180_559_944, 3) == 804_021_100_772_320);
    assert(nested_term(804_021_100_772_320, 693_147_180_559_944, 2) == 721_347_520_444_482) by (nonlinear_arith);
    assert(exp_tail(693_147_180_559_944, 2) == 721_347_520_444_482);
    assert(nested_term(721_347_520_444_482, 693_147_180_559_944, 1) == 500_000_000_000_001) by (nonlinear_arith);
    assert(exp_tail(693_147_180_559_944, 1) == 500_000_000_000_001);
}

/// The exponential of a negative number does not grow when the number
/// moves one raw unit further from zero.
proof fn lemma_exp_neg_step(x: int)
    requires
        0 <= x,
    ensures
        exp_neg(x + 1) <= exp_neg(x),
{
    let l = LN_2 as int;
    let r = x % l;
    let n = (x / l) as nat;
    lemma_exp_tail_bounds(r, 1);
    if r + 1 < l {
        assert((x + 1) % l == r + 1 && (x + 1) / l == x / l);
        lemma_factor_falls_slowly(r, 1);
        lemma_exp_tail_bounds(r + 1, 1);
        lemma_halved_keeps_order(exp_tail(r + 1, 1), exp_tail(r, 1), n);
    } else {
        assert((x + 1) % l == 0 && (x + 1) / l == x / l + 1);
        lemma_series_below_ln_2();
        lemma_exp_neg_bounds(0);
        assert(exp_tail(0, 1) == SCALE);
        assert(halved(SCALE as int, (n + 1) as nat) == halved(SCALE / 2, n));
        lemma_halved_keeps_order(SCALE / 2, exp_tail(r, 1), n);
    }
}

/// The exponential of a negative number falls, or stays, as the number
/// moves away from zero.
pub proof fn lemma_exp_neg_falls(x: int, y: int)
    requires
        0 <= x <= y,
    ensures
        exp_neg(y) <= exp_neg(x),
    decreases y - x,
{
    if x < y {
        lemma_exp_neg_falls(x, y - 1);
        lemma_exp_neg_step(y - 1);
    }
}

/// The logistic curve never falls: a larger argument never gives a smaller
/// value.
pub proof fn lemma_logistic_never_falls(x: int, y: int)
    requires
        x <= y,
    ensures
        logistic(x) <= logistic(y),
{
    let s = SCALE as int;
    lemma_logistic_bounds(x);
    lemma_logistic_bounds(y);
    if 0 <= x {
        lemma_exp_neg_falls(x, y);
        lemma_exp_neg_bounds(y);
        lemma_div_is_ordered_by_denominator(s * s, s + exp_neg(y), s + exp_neg(x));
    } else if y < 0 {
        lemma_exp_neg_falls(-y, -x);
        lemma_exp_neg_bounds(-x);
        lemma_div_is_ordered_by_denominator(s * s, s + exp_neg(-x), s + exp_neg(-y));
    }
}

} // verus!
