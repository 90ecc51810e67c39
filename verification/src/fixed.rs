//! Signed decimal fixed-point numbers.
//!
//! A [`Fixed`] stores a quantity as a whole number of units of `10^-15` in an
//! `i64`, so the representable values are the multiples of `10^-15` between
//! roughly `-9223.37` and `9223.37`. A sum, difference or product that would
//! leave the representable range saturates at the nearest bound, and a
//! product or quotient that falls between two representable values is rounded
//! toward zero. A quotient by zero does not exist.
use vstd::prelude::*;

verus! {

/// Number of raw units that make up the value one.
pub const SCALE: i64 = 1_000_000_000_000_000;

/// The integer of the representable range that lies nearest to `x`.
pub open spec fn saturate(x: int) -> int {
    if x < i64::MIN {
        i64::MIN as int
    } else if x > i64::MAX {
        i64::MAX as int
    } else {
        x
    }
}

/// The quotient of `n` by `d`, rounded toward zero, for a `d` other than
/// zero: the magnitude `|n|` is divided with a remainder that is never
/// negative, and the sign of `n` is put back.
pub open spec fn truncated_quotient(n: int, d: int) -> int {
    if n >= 0 {
        n / d
    } else {
        -((-n) / d)
    }
}

/// A fixed-point number: `raw` counts units of `10^-15`.
#[derive(Clone, Copy, Debug, PartialEq, Eq, Structural)]
pub struct Fixed {
    pub raw: i64,
}

/// Brings a wide intermediate result back into the representable range.
fn narrow(wide: i128) -> (r: i64)
    ensures
        r == saturate(wide as int),
{
    if wide < i64::MIN as i128 {
        i64::MIN
    } else if wide > i64::MAX as i128 {
        i64::MAX
    } else {
        wide as i64
    }
}

proof fn lemma_wide_product_fits(a: int, b: int)
    by (nonlinear_arith)
    requires
        i64::MIN <= a <= i64::MAX,
        i64::MIN <= b <= i64::MAX,
    ensures
        -0x4000_0000_0000_0000_0000_0000_0000_0000 <= a * b
            <= 0x4000_0000_0000_0000_0000_0000_0000_0000,
{
}

proof fn lemma_quotient_is_bounded(n: int, d: int)
    requires
        d != 0,
    ensures
        n >= 0 ==> -n <= truncated_quotient(n, d) <= n,
        n <= 0 ==> n <= truncated_quotient(n, d) <= -n,
{
    let m = if n >= 0 { n } else { -n };
    assert(-m <= m / d <= m) by (nonlinear_arith)
        requires
            m >= 0,
            d != 0,
    ;
}

/// The sign of a product follows from the signs of its factors: it is not
/// negative when they agree and not positive when they differ.
pub proof fn lemma_product_sign(a: Fixed, b: Fixed)
    ensures
        (a.raw >= 0 && b.raw >= 0) || (a.raw <= 0 && b.raw <= 0) ==> a.product(b).raw >= 0,
        (a.raw >= 0 && b.raw <= 0) || (a.raw <= 0 && b.raw >= 0) ==> a.product(b).raw <= 0,
{
    let x = a.raw as int;
    let y = b.raw as int;
    let s = SCALE as int;
    assert(((x >= 0 && y >= 0) || (x <= 0 && y <= 0) ==> x * y >= 0 && (x * y) / s >= 0) && ((x
        >= 0 && y <= 0) || (x <= 0 && y >= 0) ==> x * y <= 0 && (-(x * y)) / s >= 0))
        by (nonlinear_arith)
        requires
            s == 1_000_000_000_000_000,
    ;
}

impl Fixed {
    /// The number whose raw representation is `saturate(x)`.
    pub open spec fn saturated(x: int) -> Fixed {
        Fixed { raw: saturate(x) as i64 }
    }

    /// `self + rhs`, saturating.
    pub open spec fn sum(self, rhs: Fixed) -> Fixed {
        Fixed::saturated(self.raw + rhs.raw)
    }

    /// `self - rhs`, saturating.
    pub open spec fn difference(self, rhs: Fixed) -> Fixed {
        Fixed::saturated(self.raw - rhs.raw)
    }

    /// `self * rhs`, rounded toward zero and saturating.
    pub open spec fn product(self, rhs: Fixed) -> Fixed {
        Fixed::saturated(truncated_quotient(self.raw * rhs.raw, SCALE as int))
    }

    /// `self / rhs`, rounded toward zero and saturating. There is no quotient
    /// by zero.
    pub open spec fn ratio(self, rhs: Fixed) -> Option<Fixed> {
        if rhs.raw == 0 {
            None
        } else {
            Some(Fixed::saturated(truncated_quotient(self.raw * SCALE, rhs.raw as int)))
        }
    }

    /// The whole number `units`, saturated.
    pub fn from_int(units: i32) -> (r: Fixed)
        ensures
            r.raw == saturate(units * SCALE),
    {
        proof {
            lemma_wide_product_fits(units as int, SCALE as int);
        }
        let wide: i128 = (units as i128) * (SCALE as i128);
        Fixed { raw: narrow(wide) }
    }

    /// Adds two numbers, saturating at the bounds of the representable range.
    pub fn saturating_add(self, rhs: Fixed) -> (r: Fixed)
        ensures
            r == self.sum(rhs),
    {
        let wide: i128 = self.raw as i128 + rhs.raw as i128;
        Fixed { raw: narrow(wide) }
    }

    /// Subtracts `rhs` from `self`, saturating at the bounds of the
    /// representable range.
    pub fn saturating_sub(self, rhs: Fixed) -> (r: Fixed)
        ensures
            r == self.difference(rhs),
    {
        let wide: i128 = self.raw as i128 - rhs.raw as i128;
        Fixed { raw: narrow(wide) }
    }

    /// Multiplies two numbers. The exact product is rounded toward zero to a
    /// whole number of units and then saturated.
    pub fn saturating_mul(self, rhs: Fixed) -> (r: Fixed)
        ensures
            r == self.product(rhs),
    {
        proof {
            lemma_wide_product_fits(self.raw as int, rhs.raw as int);
        }
        let wide: i128 = (self.raw as i128) * (rhs.raw as i128);
        Fixed { raw: narrow(wide / (SCALE as i128)) }
    }

    /// Divides `self` by `rhs`. The exact quotient is rounded toward zero to a
    /// whole number of units and then saturated. There is no quotient by
    /// zero: the division is singular, and the result is `None`.
    pub fn checked_div(self, rhs: Fixed) -> (r: Option<Fixed>)
        ensures
            r == self.ratio(rhs),
            r.is_none() <==> rhs.raw == 0,
    {
        if rhs.raw == 0 {
            None
        } else {
            proof {
                lemma_wide_product_fits(self.raw as int, SCALE as int);
            }
            let wide: i128 = (self.raw as i128) * (SCALE as i128);
            proof {
                lemma_quotient_is_bounded(wide as int, rhs.raw as int);
            }
            let q: i128 = wide / (rhs.raw as i128);
            Some(Fixed { raw: narrow(q) })
        }
    }
}

} // verus!
