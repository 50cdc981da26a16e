//! Confidence values: a fraction of commit counts, ordered the way the
//! floating-point quotient of its two counts is ordered.

use vstd::prelude::*;

verus! {

/// The fraction `num / den`. A zero denominator stands for the quotient a
/// floating-point division gives there: positive infinity over a positive
/// numerator, not-a-number over zero.
#[derive(Debug, Clone, Copy, PartialEq, Eq, Structural)]
pub struct Ratio {
    pub num: u64,
    pub den: u64,
}

/// The quotient is not a number (`0 / 0`).
pub open spec fn ratio_is_nan(r: Ratio) -> bool {
    r.den == 0 && r.num == 0
}

/// The quotient is positive infinity (`n / 0` with `n > 0`).
pub open spec fn ratio_is_inf(r: Ratio) -> bool {
    r.den == 0 && r.num > 0
}

/// `a >= b` between the quotients; false whenever either is not a number.
pub open spec fn ratio_ge(a: Ratio, b: Ratio) -> bool {
    if ratio_is_nan(a) || ratio_is_nan(b) {
        false
    } else if ratio_is_inf(a) {
        true
    } else if ratio_is_inf(b) {
        false
    } else {
        a.num * b.den >= b.num * a.den
    }
}

/// `a > b` between the quotients; false whenever either is not a number.
pub open spec fn ratio_gt(a: Ratio, b: Ratio) -> bool {
    if ratio_is_nan(a) || ratio_is_nan(b) {
        false
    } else if ratio_is_inf(a) {
        !ratio_is_inf(b)
    } else if ratio_is_inf(b) {
        false
    } else {
        a.num * b.den > b.num * a.den
    }
}

/// The product of two `u64` values, which always fits a `u128`.
fn wide_mul(a: u64, b: u64) -> (r: u128)
    ensures
        r == a * b,
{
    proof {
        assert(0 <= a * b <= u64::MAX * u64::MAX) by (nonlinear_arith)
            requires
                a <= u64::MAX,
                b <= u64::MAX,
        ;
    }
    (a as u128) * (b as u128)
}

impl Ratio {
    /// The fraction `num / den`.
    pub fn new(num: u64, den: u64) -> (r: Ratio)
        ensures
            r.num == num,
            r.den == den,
    {
        Ratio { num, den }
    }

    /// Whether this quotient is at least `other`'s.
    pub fn at_least(&self, other: &Ratio) -> (r: bool)
        ensures
            r == ratio_ge(*self, *other),
    {
        if (self.den == 0 && self.num == 0) || (other.den == 0 && other.num == 0) {
            false
        } else if self.den == 0 {
            true
        } else if other.den == 0 {
            false
        } else {
            let lhs: u128 = wide_mul(self.num, other.den);
            let rhs: u128 = wide_mul(other.num, self.den);
            lhs >= rhs
        }
    }

    /// Whether this quotient is greater than `other`'s.
    pub fn greater_than(&self, other: &Ratio) -> (r: bool)
        ensures
            r == ratio_gt(*self, *other),
    {
        if (self.den == 0 && self.num == 0) || (other.den == 0 && other.num == 0) {
            false
        } else if self.den == 0 {
            other.den != 0
        } else if other.den == 0 {
            false
        } else {
            let lhs: u128 = wide_mul(self.num, other.den);
            let rhs: u128 = wide_mul(other.num, self.den);
            lhs > rhs
        }
    }
}

} // verus!
