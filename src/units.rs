//! Exact readings in engineering units.

use vstd::prelude::*;

verus! {

/// Two fractions `n1 / d1` and `n2 / d2` with non-zero denominators denote the
/// same rational number.
pub open spec fn frac_eq(n1: int, d1: int, n2: int, d2: int) -> bool {
    n1 * d2 == n2 * d1
}

proof fn lemma_i64_product_fits(x: i64, y: i64)
    ensures
        i128::MIN <= x * y <= i128::MAX,
{
    assert(-0x4000_0000_0000_0000_0000_0000_0000_0000 <= x * y <= 0x4000_0000_0000_0000_0000_0000_0000_0000)
        by (nonlinear_arith)
        requires
            i64::MIN <= x <= i64::MAX,
            i64::MIN <= y <= i64::MAX,
    ;
}

/// An exact rational value `num / den`.
#[derive(Clone, Copy, Debug, PartialEq, Eq)]
pub struct Ratio {
    pub num: i64,
    pub den: i64,
}

impl Ratio {
    /// The denominator is positive.
    pub open spec fn wf(&self) -> bool {
        self.den > 0
    }

    /// `self` and `other` denote the same rational number.
    pub open spec fn same_value_spec(&self, other: Ratio) -> bool {
        frac_eq(self.num as int, self.den as int, other.num as int, other.den as int)
    }

    pub fn new(num: i64, den: i64) -> (r: Ratio)
        requires
            den > 0,
        ensures
            r.num == num,
            r.den == den,
            r.wf(),
    {
        Ratio { num, den }
    }

    /// Whether the two fractions denote the same number.
    pub fn same_value(&self, other: &Ratio) -> (r: bool)
        ensures
            r == self.same_value_spec(*other),
    {
        proof {
            lemma_i64_product_fits(self.num, other.den);
            lemma_i64_product_fits(other.num, self.den);
        }
        let a = self.num as i128 * other.den as i128;
        let b = other.num as i128 * self.den as i128;
        a == b
    }
}

/// A temperature, in degrees Celsius.
#[derive(Clone, Copy, Debug, PartialEq, Eq)]
pub struct Temperature {
    celsius: Ratio,
}

impl Temperature {
    pub closed spec fn celsius_spec(&self) -> Ratio {
        self.celsius
    }

    pub fn from_celsius(celsius: Ratio) -> (r: Temperature)
        ensures
            r.celsius_spec() == celsius,
    {
        Temperature { celsius }
    }

    pub fn as_celsius(&self) -> (r: Ratio)
        ensures
            r == self.celsius_spec(),
    {
        self.celsius
    }
}

/// A pressure, in hectopascals.
#[derive(Clone, Copy, Debug, PartialEq, Eq)]
pub struct Pressure {
    hectopascals: Ratio,
}

impl Pressure {
    pub closed spec fn hectopascals_spec(&self) -> Ratio {
        self.hectopascals
    }

    pub fn from_hectopascals(hectopascals: Ratio) -> (r: Pressure)
        ensures
            r.hectopascals_spec() == hectopascals,
    {
        Pressure { hectopascals }
    }

    pub fn as_hectopascals(&self) -> (r: Ratio)
        ensures
            r == self.hectopascals_spec(),
    {
        self.hectopascals
    }
}

} // verus!
