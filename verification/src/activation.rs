//! Activation functions: scalar maps applied to a neuron's stimulated voltage.
//!
//! The exponential and the logarithm behind them are summed as power series
//! in raw units. Each series is cut off where its next term is below one raw
//! unit, and every step rounds down by less than one raw unit.
use vstd::prelude::*;
use vstd::arithmetic::power2::{lemma2_to64, lemma2_to64_rest, lemma_pow2_strictly_increases, lemma_pow2_unfold, pow2};
use crate::fixed::{Fixed, SCALE};
use crate::series::{lemma_nested_term_bounds, nest, nested_term};

verus! {

/// The natural logarithm of two, in raw units (rounded to the nearest).
pub const LN_2: u64 = 693_147_180_559_945;

/// The number of terms of the exponential series that are summed.
pub const EXP_TERMS: u64 = 18;

/// The exponential series of `-r` from its `k`-th nested factor inward:
/// `1 - r/k * (1 - r/(k+1) * (... (1 - r/18)))`, in raw units.
pub open spec fn exp_tail(r: int, k: int) -> int
    decreases EXP_TERMS + 1 - k,
{
    if k > EXP_TERMS {
        SCALE as int
    } else {
        nested_term(exp_tail(r, k + 1), r, k)
    }
}

/// `u` halved `n` times, rounding down each time.
pub open spec fn halved(u: int, n: nat) -> int
    decreases n,
{
    if n == 0 {
        u
    } else {
        halved(u / 2, (n - 1) as nat)
    }
}

/// `e^(-x)` for a raw `x >= 0`, in raw units: `x` is split into a whole number
/// of `ln 2` and a rest, the series gives the exponential of the rest, and
/// each `ln 2` halves it.
pub open spec fn exp_neg(x: int) -> int {
    halved(exp_tail(x % (LN_2 as int), 1), (x / (LN_2 as int)) as nat)
}

/// The logistic curve `1 / (1 + e^(-x))` of a raw `x`, in raw units. The
/// curve is computed for `|x|` and mirrored for a negative `x`.
pub open spec fn logistic(x: int) -> int {
    let upper = (SCALE * SCALE) / (SCALE + exp_neg(if x >= 0 { x } else { -x }));
    if x >= 0 {
        upper
    } else {
        SCALE - upper
    }
}

/// Every nested factor of the exponential series lies between zero and one.
pub proof fn lemma_exp_tail_bounds(r: int, k: int)
    requires
        0 <= r <= SCALE,
        1 <= k,
    ensures
        0 <= exp_tail(r, k) <= SCALE,
    decreases EXP_TERMS + 1 - k,
{
    if k <= EXP_TERMS {
        lemma_exp_tail_bounds(r, k + 1);
        assert(r <= k * SCALE) by (nonlinear_arith)
            requires
                r <= SCALE,
                1 <= k,
        ;
        lemma_nested_term_bounds(exp_tail(r, k + 1), r, k);
    }
}

/// At zero every nested factor of the exponential series is one.
proof fn lemma_exp_tail_at_zero(k: int)
    requires
        1 <= k,
    ensures
        exp_tail(0, k) == SCALE,
    decreases EXP_TERMS + 1 - k,
{
    if k <= EXP_TERMS {
        lemma_exp_tail_at_zero(k + 1);
        assert((0 * exp_tail(0, k + 1)) / (k * SCALE) == 0) by (nonlinear_arith)
            requires
                1 <= k,
        ;
    }
}

/// Halving keeps a number between zero and where it started, and keeps zero
/// at zero.
pub proof fn lemma_halved_bounds(u: int, n: nat)
    requires
        0 <= u,
    ensures
        0 <= halved(u, n) <= u,
        u == 0 ==> halved(u, n) == 0,
    decreases n,
{
    if n > 0 {
        lemma_halved_bounds(u / 2, (n - 1) as nat);
    }
}

/// The exponential of a negative number lies between zero and one, and is one
/// at zero.
pub proof fn lemma_exp_neg_bounds(x: int)
    requires
        0 <= x,
    ensures
        0 <= exp_neg(x) <= SCALE,
        x == 0 ==> exp_neg(x) == SCALE,
{
    let ln2 = LN_2 as int;
    lemma_exp_tail_bounds(x % ln2, 1);
    lemma_halved_bounds(exp_tail(x % ln2, 1), (x / ln2) as nat);
    if x == 0 {
        lemma_exp_tail_at_zero(1);
        assert(0int % 693_147_180_559_945 == 0 && 0int / 693_147_180_559_945 == 0);
    }
}

/// The logistic curve stays between zero and one, on the upper half for a
/// non-negative argument and on the lower half for a negative one; it is one
/// half at zero.
pub proof fn lemma_logistic_bounds(x: int)
    ensures
        0 <= logistic(x) <= SCALE,
        x >= 0 ==> 2 * logistic(x) >= SCALE,
        x < 0 ==> 2 * logistic(x) <= SCALE,
        logistic(0) == SCALE / 2,
{
    let m = if x >= 0 { x } else { -x };
    lemma_exp_neg_bounds(m);
    lemma_exp_neg_bounds(0);
    let s = SCALE as int;
    let e = exp_neg(m);
    assert(s <= 2 * ((s * s) / (s + e)) && (s * s) / (s + e) <= s) by (nonlinear_arith)
        requires
            0 <= e <= s,
            s == 1_000_000_000_000_000,
    ;
    assert((s * s) / (s + s) == s / 2) by (nonlinear_arith)
        requires
            s == 1_000_000_000_000_000,
    ;
}

/// Mirroring the argument mirrors the logistic curve about one half.
pub proof fn lemma_logistic_mirror(x: int)
    requires
        x != 0,
    ensures
        logistic(x) + logistic(-x) == SCALE,
{
}

/// Computes `e^(-x)` for a raw, non-negative `x`.
pub(crate) fn exp_neg_raw(x: u64) -> (r: u64)
    ensures
        r == exp_neg(x as int),
        r <= SCALE,
{
    let halvings: u64 = x / LN_2;
    let rest: u64 = x % LN_2;
    let mut u: u64 = SCALE as u64;
    let mut k: u64 = EXP_TERMS;
    while k >= 1
        invariant
            0 <= k <= EXP_TERMS,
            rest < LN_2,
            u == exp_tail(rest as int, k + 1),
            u <= SCALE,
        decreases k,
    {
        u = nest(u, rest, k);
        k = k - 1;
    }
    let mut i: u64 = 0;
    while i < halvings && u > 0
        invariant
            0 <= i <= halvings,
            u <= SCALE,
            halved(u as int, (halvings - i) as nat) == exp_neg(x as int),
        decreases halvings - i,
    {
        u = u / 2;
        i = i + 1;
    }
    proof {
        lemma_halved_bounds(u as int, (halvings - i) as nat);
    }
    u
}

/// A logistic curve that tends towards zero for negative inputs and towards
/// one for positive inputs. It never falls as its input grows (see
/// `ascent::lemma_logistic_never_falls`).
pub fn sigmoid(x: Fixed) -> (y: Fixed)
    ensures
        y.raw == logistic(x.raw as int),
        0 <= y.raw <= SCALE,
        x.raw >= 0 ==> 2 * y.raw >= SCALE,
        x.raw < 0 ==> 2 * y.raw <= SCALE,
{
    proof {
        lemma_logistic_bounds(x.raw as int);
    }
    let magnitude: u64 = if x.raw >= 0 {
        x.raw as u64
    } else {
        (-(x.raw as i128)) as u64
    };
    let e: u64 = exp_neg_raw(magnitude);
    let scale: u128 = SCALE as u128;
    let upper: u128 = (scale * scale) / (scale + e as u128);
    if x.raw >= 0 {
        Fixed { raw: upper as i64 }
    } else {
        Fixed { raw: (scale - upper) as i64 }
    }
}

/// The number of terms of the logarithm series that follow the leading one.
pub const LOG_TERMS: u64 = 16;

/// The largest power of two that does not exceed `n`, for `n >= 1`.
pub open spec fn leading_power(n: int) -> int
    decreases n,
{
    if n < 2 {
        1
    } else {
        2 * leading_power(n / 2)
    }
}

/// The exponent of `leading_power(n)`.
pub open spec fn binary_exponent(n: int) -> int
    decreases n,
{
    if n < 2 {
        0
    } else {
        1 + binary_exponent(n / 2)
    }
}

/// The series `1/(2i+1) + z/(2i+3) + z^2/(2i+5) + ...` in nested form, in
/// raw units, cut off after the term with `1/33`.
pub open spec fn log_tail(z: int, i: int) -> int
    decreases LOG_TERMS + 1 - i,
{
    if i > LOG_TERMS {
        0
    } else {
        (SCALE as int) / (2 * i + 1) + (z * log_tail(z, i + 1)) / (SCALE as int)
    }
}

/// The natural logarithm of the whole number `n >= 1`, in raw units. With
/// `p` the leading power of two of `n`, it is the exponent of `p` times
/// `ln 2` plus the logarithm of `n / p`, and that is `2 * (t + t^3/3 +
/// t^5/5 + ...)` for `t = (n - p) / (n + p)`.
pub open spec fn natural_log(n: int) -> int {
    let p = leading_power(n);
    let t = ((n - p) * SCALE) / (n + p);
    let z = (t * t) / (SCALE as int);
    binary_exponent(n) * LN_2 + 2 * ((t * log_tail(z, 0)) / (SCALE as int))
}

/// The inverse of the logistic curve, `ln(x / (1 - x))`, of a raw `x`
/// strictly between zero and one, in raw units.
pub open spec fn logit(x: int) -> int {
    natural_log(x) - natural_log(SCALE - x)
}

/// The leading power of two of `n` is two to its binary exponent; it is at
/// most `n`, and twice it exceeds `n`.
pub proof fn lemma_leading_power_bounds(n: int)
    requires
        1 <= n,
    ensures
        1 <= leading_power(n) <= n < 2 * leading_power(n),
        0 <= binary_exponent(n),
        leading_power(n) == pow2(binary_exponent(n) as nat),
    decreases n,
{
    lemma2_to64();
    if n >= 2 {
        lemma_leading_power_bounds(n / 2);
        lemma_pow2_unfold(binary_exponent(n) as nat);
    }
}

/// Every nested factor of the logarithm series lies between zero and two,
/// as long as `z` is at most one ninth.
pub proof fn lemma_log_tail_bounds(z: int, i: int)
    requires
        0 <= z <= 111_111_111_111_111,
        0 <= i,
    ensures
        0 <= log_tail(z, i) <= 2 * SCALE,
        0 <= z * log_tail(z, i) <= 111_111_111_111_111 * (2 * SCALE),
    decreases LOG_TERMS + 1 - i,
{
    if i <= LOG_TERMS {
        lemma_log_tail_bounds(z, i + 1);
        let inner = log_tail(z, i + 1);
        let s = SCALE as int;
        assert(0 <= (z * inner) / s <= 222_222_222_222_222) by (nonlinear_arith)
            requires
                0 <= z <= 111_111_111_111_111,
                0 <= inner <= 2 * s,
                s == 1_000_000_000_000_000,
        ;
        assert(0 <= s / (2 * i + 1) <= s) by (nonlinear_arith)
            requires
                0 <= i,
                s == 1_000_000_000_000_000,
        ;
    }
    let outer = log_tail(z, i);
    assert(0 <= z * outer <= 111_111_111_111_111 * (2 * SCALE)) by (nonlinear_arith)
        requires
            0 <= z <= 111_111_111_111_111,
            0 <= outer <= 2 * SCALE,
    ;
}

/// The pieces of the logarithm of a whole number up to `10^15` stay small:
/// the binary exponent is below fifty, `t` is at most one third, and the
/// logarithm itself is below thirty-seven.
pub proof fn lemma_natural_log_bounds(n: int)
    requires
        1 <= n <= SCALE,
    ensures
        0 <= binary_exponent(n) < 50,
        0 <= ((n - leading_power(n)) * SCALE) / (n + leading_power(n)) <= 333_333_333_333_333,
        0 <= natural_log(n) <= 50 * LN_2 + 2 * SCALE,
{
    lemma_leading_power_bounds(n);
    lemma2_to64_rest();
    let k = binary_exponent(n);
    if k >= 50 {
        if k > 50 {
            lemma_pow2_strictly_increases(50, k as nat);
        }
        assert(false);
    }
    let p = leading_power(n);
    let s = SCALE as int;
    let t = ((n - p) * s) / (n + p);
    assert(0 <= t <= 333_333_333_333_333) by (nonlinear_arith)
        requires
            1 <= p <= n < 2 * p,
            s == 1_000_000_000_000_000,
            t == ((n - p) * s) / (n + p),
    ;
    let z = (t * t) / s;
    assert(0 <= z <= 111_111_111_111_111) by (nonlinear_arith)
        requires
            0 <= t <= 333_333_333_333_333,
            s == 1_000_000_000_000_000,
            z == (t * t) / s,
    ;
    lemma_log_tail_bounds(z, 0);
    let u = log_tail(z, 0);
    assert(0 <= (t * u) / s <= s) by (nonlinear_arith)
        requires
            0 <= t <= 333_333_333_333_333,
            0 <= u <= 2 * s,
            s == 1_000_000_000_000_000,
    ;
    assert(0 <= k * LN_2 <= 50 * LN_2) by (nonlinear_arith)
        requires
            0 <= k < 50,
    ;
}

/// Mirroring the argument about one half negates the inverse, which is zero
/// at one half.
pub proof fn lemma_logit_mirror(x: int)
    ensures
        logit(SCALE - x) == -logit(x),
        logit(SCALE / 2) == 0,
{
}

/// Computes the natural logarithm of a whole number up to `10^15`.
fn natural_log_raw(n: u64) -> (r: u64)
    requires
        1 <= n <= SCALE,
    ensures
        r == natural_log(n as int),
        r <= 50 * LN_2 + 2 * SCALE,
{
    let mut rest: u64 = n;
    let mut power: u64 = 1;
    let mut exponent: u64 = 0;
    proof {
        lemma_natural_log_bounds(n as int);
    }
    while rest >= 2
        invariant
            1 <= rest,
            1 <= power,
            power * rest <= n <= SCALE,
            leading_power(n as int) == power * leading_power(rest as int),
            binary_exponent(n as int) == exponent + binary_exponent(rest as int),
            0 <= binary_exponent(rest as int),
            binary_exponent(n as int) < 50,
        decreases rest,
    {
        proof {
            let half = (rest / 2) as int;
            assert(2 * power <= power * rest) by (nonlinear_arith)
                requires
                    2 <= rest,
                    1 <= power,
            ;
            assert(2 * power * half <= power * rest) by (nonlinear_arith)
                requires
                    2 * half <= rest,
                    1 <= power,
            ;
            assert(power * (2 * leading_power(half)) == (2 * power) * leading_power(half))
                by (nonlinear_arith);
            lemma_leading_power_bounds(half);
        }
        rest = rest / 2;
        power = power * 2;
        exponent = exponent + 1;
    }
    proof {
        assert(power * 1 == power);
        lemma_leading_power_bounds(n as int);
        assert((n - power) * SCALE <= SCALE * SCALE) by (nonlinear_arith)
            requires
                0 <= n - power <= SCALE,
        ;
    }
    let scale: u128 = SCALE as u128;
    let t: u128 = (((n - power) as u128) * scale) / ((n + power) as u128);
    proof {
        assert(t * t <= 333_333_333_333_333 * 333_333_333_333_333) by (nonlinear_arith)
            requires
                0 <= t <= 333_333_333_333_333,
        ;
    }
    let z: u128 = (t * t) / scale;
    proof {
        assert(z <= 111_111_111_111_111) by (nonlinear_arith)
            requires
                t * t <= 333_333_333_333_333 * 333_333_333_333_333,
                scale == 1_000_000_000_000_000,
                z == (t * t) / (scale as int),
        ;
    }
    let mut u: u128 = 0;
    let mut i: u64 = LOG_TERMS + 1;
    while i > 0
        invariant
            0 <= i <= LOG_TERMS + 1,
            z <= 111_111_111_111_111,
            scale == SCALE,
            u == log_tail(z as int, i as int),
            u <= 2 * SCALE,
        decreases i,
    {
        i = i - 1;
        proof {
            lemma_log_tail_bounds(z as int, i as int + 1);
            lemma_log_tail_bounds(z as int, i as int);
        }
        u = scale / ((2 * i + 1) as u128) + (z * u) / scale;
    }
    proof {
        assert(t * u <= 333_333_333_333_333 * (2 * SCALE)) by (nonlinear_arith)
            requires
                0 <= t <= 333_333_333_333_333,
                0 <= u <= 2 * SCALE,
        ;
        assert(exponent * LN_2 <= 50 * LN_2) by (nonlinear_arith)
            requires
                0 <= exponent <= 50,
        ;
    }
    exponent * LN_2 + (2 * ((t * u) / scale)) as u64
}

/// The inverse of [`sigmoid`]: the number whose logistic curve is `x`. It
/// exists only for an `x` strictly between zero and one.
pub fn inverse_sigmoid(x: Fixed) -> (y: Option<Fixed>)
    ensures
        y.is_some() <==> 0 < x.raw < SCALE,
        y.is_some() ==> y.unwrap().raw == logit(x.raw as int),
{
    if x.raw <= 0 || x.raw >= SCALE {
        return None;
    }
    let upper: u64 = natural_log_raw(x.raw as u64);
    let lower: u64 = natural_log_raw((SCALE - x.raw) as u64);
    Some(Fixed { raw: upper as i64 - lower as i64 })
}

/// A curve that is zero if the input is negative, and the input itself if it
/// is positive.
pub fn relu(x: Fixed) -> (y: Fixed)
    ensures
        y.raw == if x.raw > 0 { x.raw } else { 0 },
{
    if x.raw > 0 {
        x
    } else {
        Fixed { raw: 0 }
    }
}

} // verus!
