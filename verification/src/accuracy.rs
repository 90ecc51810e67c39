//! How far rounding carries the series from their exact sums.
//!
//! The series `1 - r/1 * (1 - r/2 * (... (1 - r/18)))` has an exact value,
//! a fraction: the Taylor polynomial of degree 18 of `e^(-r)`, which for an
//! `r` below `ln 2` lies within `10^-20` of `e^(-r)` itself. Likewise the
//! sine series `1 - z/6 * (1 - z/20 * (...))`, with `z` the square of an
//! angle `a` of at most a quarter turn, is exactly the Taylor polynomial of
//! degree 20 of `sin(a) / a`, which lies within `10^-18` of it. The series
//! as they are summed round once at every level. The lemmas here bound what
//! that costs: no more than one raw unit per level.
use vstd::prelude::*;
use crate::activation::{exp_tail, lemma_exp_tail_bounds, EXP_TERMS};
use crate::fixed::SCALE;
use crate::wave::{lemma_sine_tail_bounds, sine_tail, SINE_TERMS};

verus! {

/// The denominator of the exact value of the `k`-th nested factor: the
/// product of `j * SCALE` over the levels `j` from `k` inward.
pub open spec fn exact_denominator(k: int) -> int
    decreases EXP_TERMS + 1 - k,
{
    if k > EXP_TERMS {
        1
    } else {
        k * SCALE * exact_denominator(k + 1)
    }
}

/// The numerator of the exact value of the `k`-th nested factor of the
/// series at the raw argument `r`, over `exact_denominator(k)`: the factor
/// is `1 - r / (k * SCALE)` times the next one.
pub open spec fn exact_numerator(r: int, k: int) -> int
    decreases EXP_TERMS + 1 - k,
{
    if k > EXP_TERMS {
        1
    } else {
        exact_denominator(k) - r * exact_numerator(r, k + 1)
    }
}

/// The denominators are positive.
pub proof fn lemma_exact_denominator_positive(k: int)
    requires
        1 <= k,
    ensures
        exact_denominator(k) > 0,
    decreases EXP_TERMS + 1 - k,
{
    if k <= EXP_TERMS {
        lemma_exact_denominator_positive(k + 1);
        let d = exact_denominator(k + 1);
        assert(k * SCALE * d > 0) by (nonlinear_arith)
            requires
                1 <= k,
                d > 0,
        ;
    }
}

/// One level of rounding: if the inner factor is within `c` raw units of
/// its exact value `n1 / d1`, the outer factor is within `c + 1` raw units
/// of its own.
proof fn lemma_one_level(r: int, k: int, t1: int, n1: int, d1: int, c: int)
    requires
        1 <= k,
        0 <= r <= k * SCALE,
        0 <= t1,
        0 < d1,
        0 <= c,
        -c * d1 <= t1 * d1 - SCALE * n1 <= c * d1,
    ensures
        ({
            let d = k * SCALE * d1;
            let n = d - r * n1;
            let t = SCALE - (r * t1) / (k * SCALE);
            -(c + 1) * d <= t * d - SCALE * n <= (c + 1) * d
        }),
{
    let s = SCALE as int;
    let m = k * s;
    let q = (r * t1) / m;
    let w = (r * t1) % m;
    let g = t1 * d1 - s * n1;
    let d = m * d1;
    let n = d - r * n1;
    let t = s - q;
    assert(0 < m && r * t1 == m * q + w && 0 <= w < m) by (nonlinear_arith)
        requires
            1 <= k,
            s == 1_000_000_000_000_000,
            m == k * s,
            q == (r * t1) / m,
            w == (r * t1) % m,
    ;
    assert(t * d == s * d - q * d) by (nonlinear_arith)
        requires
            t == s - q,
    ;
    assert(s * n == s * d - s * (r * n1)) by (nonlinear_arith)
        requires
            n == d - r * n1,
    ;
    assert(q * d == (m * q) * d1) by (nonlinear_arith)
        requires
            d == m * d1,
    ;
    assert((m * q) * d1 == (r * t1) * d1 - w * d1) by (nonlinear_arith)
        requires
            r * t1 == m * q + w,
    ;
    assert(r * g == r * (t1 * d1) - r * (s * n1)) by (nonlinear_arith)
        requires
            g == t1 * d1 - s * n1,
    ;
    assert(r * (t1 * d1) == (r * t1) * d1) by (nonlinear_arith);
    assert(r * (s * n1) == s * (r * n1)) by (nonlinear_arith);
    assert(t * d - s * n == w * d1 - r * g);
    assert(0 <= w * d1 <= d) by (nonlinear_arith)
        requires
            0 <= w < m,
            0 < d1,
            d == m * d1,
    ;
    assert(-(c * d) <= r * g <= c * d) by (nonlinear_arith)
        requires
            0 <= r <= m,
            0 < d1,
            0 <= c,
            -c * d1 <= g <= c * d1,
            d == m * d1,
    ;
    assert((c + 1) * d == c * d + d && -(c + 1) * d == -(c * d) - d) by (nonlinear_arith);
    assert(k * SCALE * d1 == d);
}

/// Rounding carries the `k`-th nested factor of the exponential series no
/// further than one raw unit per level from its exact value: with `n` and
/// `d` the exact numerator and denominator, `exp_tail(r, k)` differs from
/// `SCALE * n / d` by at most `19 - k`.
pub proof fn lemma_exp_tail_is_accurate(r: int, k: int)
    requires
        0 <= r <= SCALE,
        1 <= k <= EXP_TERMS + 1,
    ensures
        exact_denominator(k) > 0,
        -(EXP_TERMS + 1 - k) * exact_denominator(k) <= exp_tail(r, k) * exact_denominator(k)
            - SCALE * exact_numerator(r, k) <= (EXP_TERMS + 1 - k) * exact_denominator(k),
    decreases EXP_TERMS + 1 - k,
{
    lemma_exact_denominator_positive(k);
    if k <= EXP_TERMS {
        lemma_exp_tail_is_accurate(r, k + 1);
        lemma_exp_tail_bounds(r, k + 1);
        assert(r <= k * SCALE) by (nonlinear_arith)
            requires
                r <= SCALE,
                1 <= k,
        ;
        lemma_one_level(
            r,
            k,
            exp_tail(r, k + 1),
            exact_numerator(r, k + 1),
            exact_denominator(k + 1),
            EXP_TERMS - k,
        );
    } else {
        assert(exp_tail(r, k) * 1 - SCALE * 1 == 0);
    }
}

/// The denominator of the exact value of the `j`-th nested factor of the
/// sine series: the product of `2i(2i+1) * SCALE` over the levels `i` from
/// `j` inward.
pub open spec fn exact_sine_denominator(j: int) -> int
    decreases SINE_TERMS + 1 - j,
{
    if j > SINE_TERMS {
        1
    } else {
        2 * j * (2 * j + 1) * SCALE * exact_sine_denominator(j + 1)
    }
}

/// The numerator of the exact value of the `j`-th nested factor of the sine
/// series at the raw square `z`, over `exact_sine_denominator(j)`.
pub open spec fn exact_sine_numerator(z: int, j: int) -> int
    decreases SINE_TERMS + 1 - j,
{
    if j > SINE_TERMS {
        1
    } else {
        exact_sine_denominator(j) - z * exact_sine_numerator(z, j + 1)
    }
}

/// The denominators of the sine series are positive.
pub proof fn lemma_exact_sine_denominator_positive(j: int)
    requires
        1 <= j,
    ensures
        exact_sine_denominator(j) > 0,
    decreases SINE_TERMS + 1 - j,
{
    if j <= SINE_TERMS {
        lemma_exact_sine_denominator_positive(j + 1);
        let d = exact_sine_denominator(j + 1);
        assert(2 * j * (2 * j + 1) * SCALE * d > 0) by (nonlinear_arith)
            requires
                1 <= j,
                d > 0,
        ;
    }
}

/// Rounding carries the `j`-th nested factor of the sine series no further
/// than one raw unit per level from its exact value: with `n` and `d` the
/// exact numerator and denominator, `sine_tail(z, j)` differs from
/// `SCALE * n / d` by at most `11 - j`.
pub proof fn lemma_sine_tail_is_accurate(z: int, j: int)
    requires
        0 <= z <= 6 * SCALE,
        1 <= j <= SINE_TERMS + 1,
    ensures
        exact_sine_denominator(j) > 0,
        -(SINE_TERMS + 1 - j) * exact_sine_denominator(j) <= sine_tail(z, j)
            * exact_sine_denominator(j) - SCALE * exact_sine_numerator(z, j) <= (SINE_TERMS + 1
            - j) * exact_sine_denominator(j),
    decreases SINE_TERMS + 1 - j,
{
    lemma_exact_sine_denominator_positive(j);
    if j <= SINE_TERMS {
        lemma_sine_tail_is_accurate(z, j + 1);
        lemma_sine_tail_bounds(z, j + 1);
        let k = 2 * j * (2 * j + 1);
        assert(6 <= k && z <= k * SCALE) by (nonlinear_arith)
            requires
                z <= 6 * SCALE,
                1 <= j,
                k == 2 * j * (2 * j + 1),
        ;
        lemma_one_level(
            z,
            k,
            sine_tail(z, j + 1),
            exact_sine_numerator(z, j + 1),
            exact_sine_denominator(j + 1),
            SINE_TERMS - j,
        );
    } else {
        assert(sine_tail(z, j) * 1 - SCALE * 1 == 0);
    }
}

} // verus!
