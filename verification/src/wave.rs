//! The sine wave that an oscillating parameter rides on.
//!
//! The wave is addressed by phase, not by angle: `sine_of_phase(t, p)` is the
//! sine of the fraction `t / p` of a full turn. Whole turns are dropped, the
//! rest of the turn is cut into four quadrants and folded into the first
//! one, and the sine series is summed there. The series is cut off where its
//! next term is below one raw unit.
use vstd::prelude::*;
use vstd::arithmetic::div_mod::lemma_fundamental_div_mod_converse;
use crate::fixed::{Fixed, SCALE};
use crate::series::{lemma_nested_term_bounds, nest, nested_term};

verus! {

/// A quarter turn (`pi / 2`) in raw units, rounded to the nearest.
pub const QUARTER_TURN: u64 = 1_570_796_326_794_897;

/// The number of terms of the sine series that follow the leading one.
pub const SINE_TERMS: u64 = 10;

/// The sine series of an angle with raw square `z`, from its `j`-th nested
/// factor inward: `1 - z/(2j(2j+1)) * (1 - z/((2j+2)(2j+3)) * ...)`.
pub open spec fn sine_tail(z: int, j: int) -> int
    decreases SINE_TERMS + 1 - j,
{
    if j > SINE_TERMS {
        SCALE as int
    } else {
        nested_term(sine_tail(z, j + 1), z, 2 * j * (2 * j + 1))
    }
}

/// The sine of a raw angle `a` between zero and a quarter turn, in raw units,
/// capped at one.
pub open spec fn quarter_sine(a: int) -> int {
    let s = (a * sine_tail((a * a) / (SCALE as int), 1)) / (SCALE as int);
    if s > SCALE {
        SCALE as int
    } else {
        s
    }
}

/// The quadrant, zero to three, that the phase `t / p` falls into once whole
/// turns are dropped.
pub open spec fn quadrant(t: int, p: int) -> int {
    (4 * (t % p)) / p
}

/// The raw angle that stands for the phase `t / p` once it is folded into the
/// first quadrant: in the odd quadrants the wave runs backwards.
pub open spec fn folded_angle(t: int, p: int) -> int {
    let rest = (4 * (t % p)) % p;
    let folded = if quadrant(t, p) % 2 == 1 {
        p - rest
    } else {
        rest
    };
    (QUARTER_TURN * folded) / p
}

/// The sine of the fraction `t / p` of a full turn, in raw units, for any `t`
/// and `p > 0`. The second half of the turn mirrors the first.
pub open spec fn sine_of_phase(t: int, p: int) -> int {
    let s = quarter_sine(folded_angle(t, p));
    if quadrant(t, p) >= 2 {
        -s
    } else {
        s
    }
}

/// Every nested factor of the sine series lies between zero and one, for an
/// angle of at most a quarter turn.
pub proof fn lemma_sine_tail_bounds(z: int, j: int)
    requires
        0 <= z <= 6 * SCALE,
        1 <= j,
    ensures
        0 <= sine_tail(z, j) <= SCALE,
    decreases SINE_TERMS + 1 - j,
{
    if j <= SINE_TERMS {
        lemma_sine_tail_bounds(z, j + 1);
        let k = 2 * j * (2 * j + 1);
        assert(6 <= k && 6 * SCALE <= k * SCALE) by (nonlinear_arith)
            requires
                1 <= j,
                k == 2 * j * (2 * j + 1),
        ;
        lemma_nested_term_bounds(sine_tail(z, j + 1), z, k);
    }
}

/// The quadrant is at most three, and the folded angle is at most a quarter
/// turn; it is zero at every whole number of turns.
pub proof fn lemma_fold_bounds(t: int, p: int)
    requires
        0 < p,
    ensures
        0 <= t % p < p,
        0 <= quadrant(t, p) <= 3,
        0 <= (4 * (t % p)) % p < p,
        0 <= folded_angle(t, p) <= QUARTER_TURN,
        t % p == 0 ==> folded_angle(t, p) == 0 && quadrant(t, p) == 0,
{
    let w = t % p;
    let q = (4 * w) / p;
    let rest = (4 * w) % p;
    assert(0 <= w < p) by (nonlinear_arith)
        requires
            0 < p,
            w == t % p,
    ;
    assert(0 <= q <= 3 && 0 <= rest < p && 4 * w == p * q + rest && (w == 0 ==> q == 0 && rest
        == 0)) by (nonlinear_arith)
        requires
            0 <= w < p,
            q == (4 * w) / p,
            rest == (4 * w) % p,
    ;
    let folded = if q % 2 == 1 {
        p - rest
    } else {
        rest
    };
    let h = QUARTER_TURN as int;
    assert(0 <= (h * folded) / p <= h && (folded == 0 ==> (h * folded) / p == 0))
        by (nonlinear_arith)
        requires
            0 <= folded <= p,
            0 < p,
            0 <= h,
    ;
}

/// The sine of an angle in the first quadrant lies between zero and one, and
/// is zero at zero.
pub proof fn lemma_quarter_sine_bounds(a: int)
    requires
        0 <= a <= QUARTER_TURN,
    ensures
        0 <= quarter_sine(a) <= SCALE,
        0 <= (a * a) / (SCALE as int) <= 6 * SCALE,
        0 <= sine_tail((a * a) / (SCALE as int), 1) <= SCALE,
        a == 0 ==> quarter_sine(a) == 0,
{
    let s = SCALE as int;
    let z = (a * a) / s;
    assert(0 <= a * a <= 1_570_796_326_794_897 * 1_570_796_326_794_897 && 0 <= z <= 6 * s)
        by (nonlinear_arith)
        requires
            0 <= a <= 1_570_796_326_794_897,
            s == 1_000_000_000_000_000,
            z == (a * a) / s,
    ;
    lemma_sine_tail_bounds(z, 1);
    let u = sine_tail(z, 1);
    assert(0 <= (a * u) / s && (a == 0 ==> (a * u) / s == 0)) by (nonlinear_arith)
        requires
            0 <= a,
            0 <= u,
            s == 1_000_000_000_000_000,
    ;
}

/// The wave never leaves the band between minus one and one, and it crosses
/// zero at every whole number of turns.
pub proof fn lemma_sine_of_phase_bounds(t: int, p: int)
    requires
        0 < p,
    ensures
        -SCALE <= sine_of_phase(t, p) <= SCALE,
        t % p == 0 ==> sine_of_phase(t, p) == 0,
        t == 0 || t == p ==> sine_of_phase(t, p) == 0,
{
    lemma_fold_bounds(t, p);
    lemma_quarter_sine_bounds(folded_angle(t, p));
    assert(0int % p == 0 && p % p == 0) by (nonlinear_arith)
        requires
            0 < p,
    ;
}

/// Sums the sine series for a raw angle of at most a quarter turn.
fn quarter_sine_raw(a: u64) -> (r: u64)
    requires
        a <= QUARTER_TURN,
    ensures
        r == quarter_sine(a as int),
        r <= SCALE,
{
    proof {
        lemma_quarter_sine_bounds(a as int);
        assert(a * a <= 1_570_796_326_794_897 * 1_570_796_326_794_897) by (nonlinear_arith)
            requires
                0 <= a <= 1_570_796_326_794_897,
        ;
    }
    let scale: u128 = SCALE as u128;
    let z: u64 = (((a as u128) * (a as u128)) / scale) as u64;
    let mut u: u64 = SCALE as u64;
    let mut j: u64 = SINE_TERMS;
    while j >= 1
        invariant
            0 <= j <= SINE_TERMS,
            z <= 6 * SCALE,
            u == sine_tail(z as int, j + 1),
            u <= SCALE,
        decreases j,
    {
        proof {
            assert(6 <= 2 * j * (2 * j + 1) <= 420) by (nonlinear_arith)
                requires
                    1 <= j <= 10,
            ;
        }
        let k: u64 = 2 * j * (2 * j + 1);
        u = nest(u, z, k);
        j = j - 1;
    }
    proof {
        assert(a * u <= 1_570_796_326_794_897 * 1_000_000_000_000_000) by (nonlinear_arith)
            requires
                0 <= a <= 1_570_796_326_794_897,
                0 <= u <= 1_000_000_000_000_000,
        ;
    }
    let s: u128 = ((a as u128) * (u as u128)) / scale;
    if s > scale {
        SCALE as u64
    } else {
        s as u64
    }
}

/// The time elapsed since the last whole number of periods.
fn wrap(elapsed: i64, period: i64) -> (w: u64)
    requires
        0 < period,
    ensures
        w == (elapsed as int) % (period as int),
        w < period,
{
    let t: i128 = elapsed as i128;
    let p: i128 = period as i128;
    let r: i128 = t % p;
    proof {
        let ti = t as int;
        let pi = p as int;
        if ti < 0 {
            let m = (-ti) % pi;
            let q = (-ti) / pi;
            assert(-ti == q * pi + m && 0 <= m < pi) by (nonlinear_arith)
                requires
                    0 < pi,
                    m == (-ti) % pi,
                    q == (-ti) / pi,
            ;
            if m > 0 {
                assert(ti == (-q - 1) * pi + (pi - m)) by (nonlinear_arith)
                    requires
                        -ti == q * pi + m,
                ;
                lemma_fundamental_div_mod_converse(ti, pi, -q - 1, pi - m);
            } else {
                assert(ti == (-q) * pi + 0) by (nonlinear_arith)
                    requires
                        -ti == q * pi + m,
                        m == 0,
                ;
                lemma_fundamental_div_mod_converse(ti, pi, -q, 0);
            }
        } else {
            assert(0 <= ti % pi < pi) by (nonlinear_arith)
                requires
                    0 <= ti,
                    0 < pi,
            ;
        }
    }
    if r < 0 {
        (r + p) as u64
    } else {
        r as u64
    }
}

/// The sine of the fraction `elapsed / period` of a full turn.
pub fn sine(elapsed: Fixed, period: Fixed) -> (r: Fixed)
    requires
        0 < period.raw,
    ensures
        r.raw == sine_of_phase(elapsed.raw as int, period.raw as int),
        -SCALE <= r.raw <= SCALE,
        elapsed.raw == 0 || elapsed.raw == period.raw ==> r.raw == 0,
{
    proof {
        lemma_fold_bounds(elapsed.raw as int, period.raw as int);
        lemma_sine_of_phase_bounds(elapsed.raw as int, period.raw as int);
    }
    let p: u128 = period.raw as u128;
    let turned: u128 = 4 * (wrap(elapsed.raw, period.raw) as u128);
    let q: u128 = turned / p;
    let rest: u128 = turned % p;
    let folded: u128 = if q % 2 == 1 {
        p - rest
    } else {
        rest
    };
    proof {
        assert((QUARTER_TURN as int) * (folded as int) <= 1_570_796_326_794_897
            * 0x7fff_ffff_ffff_ffff) by (nonlinear_arith)
            requires
                0 <= folded <= 0x7fff_ffff_ffff_ffff,
                QUARTER_TURN == 1_570_796_326_794_897,
        ;
    }
    let angle: u128 = ((QUARTER_TURN as u128) * folded) / p;
    let s: u64 = quarter_sine_raw(angle as u64);
    if q >= 2 {
        Fixed { raw: -(s as i64) }
    } else {
        Fixed { raw: s as i64 }
    }
}

} // verus!
