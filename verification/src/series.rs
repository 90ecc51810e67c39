//! Alternating power series in nested form.
//!
//! Both the exponential of a negative number and the sine of an angle in the
//! first quadrant are sums `1 - z/k1 * (1 - z/k2 * (1 - z/k3 * ...))`. As long
//! as `z <= k` at every level, each nested factor lies between zero and one,
//! which keeps the whole evaluation inside unsigned arithmetic.
use vstd::prelude::*;
use crate::fixed::SCALE;

verus! {

/// One level of the nesting: `1 - (z / k) * u` in raw units, where the
/// subtracted term is rounded down.
pub open spec fn nested_term(u: int, z: int, k: int) -> int {
    SCALE - (z * u) / (k * SCALE)
}

/// A nested factor stays between zero and one when the inner factor does and
/// `z` does not exceed `k`.
pub proof fn lemma_nested_term_bounds(u: int, z: int, k: int)
    requires
        0 <= u <= SCALE,
        0 <= z <= k * SCALE,
        1 <= k,
    ensures
        0 <= nested_term(u, z, k) <= SCALE,
        0 <= z * u <= k * SCALE * SCALE,
{
    let s = SCALE as int;
    let d = k * s;
    assert(0 <= z * u <= d * s && 0 <= (z * u) / d <= s) by (nonlinear_arith)
        requires
            0 <= u <= s,
            0 <= z <= d,
            d > 0,
            s > 0,
    ;
    assert(k * SCALE * SCALE == d * s) by (nonlinear_arith)
        requires
            d == k * s,
            s == SCALE,
    ;
}

/// Evaluates one level of the nesting.
pub(crate) fn nest(u: u64, z: u64, k: u64) -> (r: u64)
    requires
        u <= SCALE,
        z <= k * SCALE,
        1 <= k <= 1000,
    ensures
        r == nested_term(u as int, z as int, k as int),
        r <= SCALE,
{
    proof {
        lemma_nested_term_bounds(u as int, z as int, k as int);
    }
    let scale: u128 = SCALE as u128;
    let numerator: u128 = (z as u128) * (u as u128);
    let denominator: u128 = (k as u128) * scale;
    let term: u128 = numerator / denominator;
    (scale - term) as u64
}

} // verus!
