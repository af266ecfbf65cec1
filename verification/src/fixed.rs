//! Signed Q32.32 fixed-point arithmetic.
//!
//! A [`Fixed`] value is a sign together with a 64-bit magnitude counted in
//! units of `2^-32`.  The view of a value is the signed magnitude as a
//! mathematical integer, so a view of `SCALE` stands for the real number 1.
//! Every operation saturates at the largest representable magnitude instead
//! of overflowing, and multiplication and division truncate toward zero;
//! each contract states the exact resulting integer.

use vstd::prelude::*;

verus! {

/// Units per 1.0: a magnitude of `SCALE` represents the real number one.
pub const SCALE: u64 = 0x1_0000_0000;

/// Largest representable magnitude; values saturate here.
pub const MAG_MAX: u64 = 0xFFFF_FFFF_FFFF_FFFF;

/// A signed fixed-point number: `mag` units of `2^-32`, negated if `neg`.
#[derive(Clone, Copy, Debug)]
pub struct Fixed {
    pub neg: bool,
    pub mag: u64,
}

impl View for Fixed {
    type V = int;

    /// The signed magnitude, in units of `2^-32`.
    open spec fn view(&self) -> int {
        if self.neg {
            -(self.mag as int)
        } else {
            self.mag as int
        }
    }
}

/// Clamp an integer into the representable range of [`Fixed`].
pub open spec fn clamp_val(x: int) -> int {
    if x > MAG_MAX as int {
        MAG_MAX as int
    } else if x < -(MAG_MAX as int) {
        -(MAG_MAX as int)
    } else {
        x
    }
}

/// Division truncated toward zero, for any nonzero divisor.
pub open spec fn tdiv(x: int, d: int) -> int
    recommends
        d != 0,
{
    let ax = if x >= 0 {
        x
    } else {
        -x
    };
    let ad = if d >= 0 {
        d
    } else {
        -d
    };
    if (x >= 0) == (d >= 0) {
        ax / ad
    } else {
        -(ax / ad)
    }
}

proof fn mag_product_in_range(x: u64, y: u64)
    ensures
        0 <= (x as int) * (y as int) <= u128::MAX,
{
    assert(0 <= (x as int) * (y as int) <= u128::MAX) by (nonlinear_arith)
        requires
            0 <= x <= u64::MAX,
            0 <= y <= u64::MAX,
    ;
}

impl Fixed {
    /// The value zero.
    pub fn zero() -> (r: Fixed)
        ensures
            r@ == 0,
    {
        Fixed { neg: false, mag: 0 }
    }

    /// The value one.
    pub fn one() -> (r: Fixed)
        ensures
            r@ == SCALE,
    {
        Fixed { neg: false, mag: SCALE }
    }

    /// Build a value from a sign and a raw Q32.32 magnitude.
    pub fn from_parts(neg: bool, mag: u64) -> (r: Fixed)
        ensures
            r.neg == neg,
            r.mag == mag,
            r@ == if neg { -(mag as int) } else { mag as int },
    {
        Fixed { neg, mag }
    }

    /// The whole number `n`, saturated if it is too large.
    pub fn from_int(n: u64) -> (r: Fixed)
        ensures
            r@ == clamp_val((n as int) * (SCALE as int)),
    {
        proof {
            mag_product_in_range(n, SCALE);
        }
        let wide: u128 = (n as u128) * (SCALE as u128);
        if wide > (MAG_MAX as u128) {
            Fixed { neg: false, mag: MAG_MAX }
        } else {
            Fixed { neg: false, mag: wide as u64 }
        }
    }

    /// True when the value is negative.
    pub fn is_negative(&self) -> (r: bool)
        ensures
            r == (self@ < 0),
    {
        self.neg && self.mag > 0
    }

    /// The negation; exact.
    pub fn neg_val(&self) -> (r: Fixed)
        ensures
            r@ == -self@,
    {
        Fixed { neg: !self.neg, mag: self.mag }
    }

    /// The absolute value; exact.
    pub fn abs_val(&self) -> (r: Fixed)
        ensures
            r@ == if self@ >= 0 { self@ } else { -self@ },
    {
        Fixed { neg: false, mag: self.mag }
    }

    /// The sum, saturated into range.
    pub fn plus(&self, other: &Fixed) -> (r: Fixed)
        ensures
            r@ == clamp_val(self@ + other@),
    {
        if self.neg == other.neg {
            if self.mag <= MAG_MAX - other.mag {
                Fixed { neg: self.neg, mag: self.mag + other.mag }
            } else {
                Fixed { neg: self.neg, mag: MAG_MAX }
            }
        } else {
            if self.mag >= other.mag {
                Fixed { neg: self.neg, mag: self.mag - other.mag }
            } else {
                Fixed { neg: other.neg, mag: other.mag - self.mag }
            }
        }
    }

    /// The difference, saturated into range.
    pub fn minus(&self, other: &Fixed) -> (r: Fixed)
        ensures
            r@ == clamp_val(self@ - other@),
    {
        self.plus(&other.neg_val())
    }

    /// The product, truncated toward zero and saturated into range.
    pub fn times(&self, other: &Fixed) -> (r: Fixed)
        ensures
            r@ == clamp_val(tdiv(self@ * other@, SCALE as int)),
    {
        proof {
            mag_product_in_range(self.mag, other.mag);
        }
        let wide: u128 = (self.mag as u128) * (other.mag as u128);
        let q: u128 = wide / (SCALE as u128);
        let neg: bool = self.neg != other.neg;
        proof {
            assert(self@ * other@ == if self.neg != other.neg {
                -((self.mag as int) * (other.mag as int))
            } else {
                (self.mag as int) * (other.mag as int)
            }) by (nonlinear_arith);
        }
        if q > (MAG_MAX as u128) {
            Fixed { neg, mag: MAG_MAX }
        } else {
            Fixed { neg, mag: q as u64 }
        }
    }

    /// The quotient, truncated toward zero and saturated into range.
    pub fn divide(&self, other: &Fixed) -> (r: Fixed)
        requires
            other.mag > 0,
        ensures
            r@ == clamp_val(tdiv(self@ * (SCALE as int), other@)),
    {
        proof {
            mag_product_in_range(self.mag, SCALE);
        }
        let wide: u128 = (self.mag as u128) * (SCALE as u128);
        let q: u128 = wide / (other.mag as u128);
        let neg: bool = self.neg != other.neg;
        proof {
            assert(self@ * (SCALE as int) == if self.neg {
                -((self.mag as int) * (SCALE as int))
            } else {
                (self.mag as int) * (SCALE as int)
            }) by (nonlinear_arith);
        }
        if q > (MAG_MAX as u128) {
            Fixed { neg, mag: MAG_MAX }
        } else {
            Fixed { neg, mag: q as u64 }
        }
    }

    /// The product with a whole number, saturated into range.
    pub fn times_int(&self, n: u64) -> (r: Fixed)
        ensures
            r@ == clamp_val(self@ * (n as int)),
    {
        proof {
            mag_product_in_range(self.mag, n);
            assert(self@ * (n as int) == if self.neg {
                -((self.mag as int) * (n as int))
            } else {
                (self.mag as int) * (n as int)
            }) by (nonlinear_arith);
        }
        let wide: u128 = (self.mag as u128) * (n as u128);
        if wide > (MAG_MAX as u128) {
            Fixed { neg: self.neg, mag: MAG_MAX }
        } else {
            Fixed { neg: self.neg, mag: wide as u64 }
        }
    }

    /// The quotient by a positive whole number, truncated toward zero.
    pub fn divide_int(&self, n: u64) -> (r: Fixed)
        requires
            n > 0,
        ensures
            r@ == tdiv(self@, n as int),
    {
        Fixed { neg: self.neg, mag: self.mag / n }
    }

    /// The larger of the value and zero: the payoff floor.
    pub fn max_zero(&self) -> (r: Fixed)
        ensures
            r@ == if self@ > 0 { self@ } else { 0 },
    {
        if self.neg || self.mag == 0 {
            Fixed { neg: false, mag: 0 }
        } else {
            *self
        }
    }

    /// Compare two values.
    pub fn le(&self, other: &Fixed) -> (r: bool)
        ensures
            r == (self@ <= other@),
    {
        if self.neg && !other.neg {
            self.mag > 0 || other.mag >= 0
        } else if !self.neg && other.neg {
            self.mag == 0 && other.mag == 0
        } else if self.neg {
            other.mag <= self.mag
        } else {
            self.mag <= other.mag
        }
    }
}

} // verus!
