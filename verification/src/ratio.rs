//! Exact non-negative rationals.
//!
//! Workshare fractions and the global speed factor are configuration scalars
//! that the simulation only ever uses through floor divisions, so they are
//! held as exact numerator/denominator pairs and every scaled quantity has a
//! closed-form contract.

use vstd::prelude::*;

verus! {

/// Clamp a mathematical integer into the `u64` range.
pub open spec fn sat64(v: int) -> u64 {
    if v > u64::MAX {
        u64::MAX as u64
    } else if v < 0 {
        0u64
    } else {
        v as u64
    }
}

/// A non-negative rational `num / den`.
///
/// A workshare weight scales a workload down by `mul_floor`; the global speed
/// factor scales a duration down by `div_floor`, dividing by the ratio.
#[derive(Clone, Copy, PartialEq, Eq, Structural, Debug)]
pub struct Fraction {
    pub num: u64,
    pub den: u64,
}

impl Fraction {
    /// A usable ratio: the denominator is non-zero.
    pub open spec fn is_valid(self) -> bool {
        self.den > 0
    }

    /// A strictly positive ratio, fit to divide by.
    pub open spec fn is_positive(self) -> bool {
        self.num > 0 && self.den > 0
    }

    pub fn new(num: u64, den: u64) -> (r: Fraction)
        ensures
            r.num == num,
            r.den == den,
    {
        Fraction { num, den }
    }

    /// Run-time counterpart of `is_positive`, for callers outside verified
    /// code that must establish it before constructing entities.
    pub fn check_positive(&self) -> (r: bool)
        ensures
            r == self.is_positive(),
    {
        self.num > 0 && self.den > 0
    }

    /// `floor(x * num / den)`, clamped into `u64`.
    pub fn mul_floor(&self, x: u64) -> (r: u64)
        requires
            self.is_valid(),
        ensures
            r == sat64(x * self.num / self.den as int),
    {
        proof {
            assert((x as int) * (self.num as int) <= (u64::MAX as int) * (u64::MAX as int))
                by (nonlinear_arith)
                requires
                    x <= u64::MAX,
                    self.num <= u64::MAX,
            ;
        }
        let prod: u128 = (x as u128) * (self.num as u128);
        let q: u128 = prod / (self.den as u128);
        if q > u64::MAX as u128 {
            u64::MAX
        } else {
            q as u64
        }
    }

    /// `floor(t / (num / den))`, that is `floor(t * den / num)`, clamped into
    /// `u64`. The wide argument lets an unscaled duration overshoot `u64`
    /// without losing exactness.
    pub fn div_floor(&self, t: u128) -> (r: u64)
        requires
            self.is_positive(),
        ensures
            r == sat64(t * self.den / self.num as int),
    {
        let num = self.num as u128;
        let den = self.den as u128;
        let q: u128 = t / num;
        let rem: u128 = t % num;
        proof {
            vstd::arithmetic::div_mod::lemma_fundamental_div_mod(t as int, num as int);
            vstd::arithmetic::div_mod::lemma_fundamental_div_mod(
                (rem as int) * (den as int),
                num as int,
            );
            vstd::arithmetic::div_mod::lemma_mod_division_less_than_divisor(t as int, num as int);
        }
        let ghost q2: int = (rem as int) * (den as int) / (num as int);
        let ghost r2: int = (rem as int) * (den as int) % (num as int);
        proof {
            vstd::arithmetic::div_mod::lemma_mod_division_less_than_divisor(
                (rem as int) * (den as int),
                num as int,
            );
            assert((t as int) * (den as int) == ((q as int) * (den as int) + q2) * (num as int)
                + r2) by (nonlinear_arith)
                requires
                    t == (num as int) * (q as int) + rem,
                    rem * den == (num as int) * q2 + r2,
            ;
            vstd::arithmetic::div_mod::lemma_fundamental_div_mod_converse_div(
                (t as int) * (den as int),
                num as int,
                (q as int) * (den as int) + q2,
                r2,
            );
            // From here on: t * den / num == q * den + q2.
        }
        if q > u64::MAX as u128 {
            proof {
                assert((q as int) * (den as int) + q2 > u64::MAX) by (nonlinear_arith)
                    requires
                        q > u64::MAX,
                        den >= 1,
                        q2 >= 0,
                ;
            }
            return u64::MAX;
        }
        proof {
            assert((rem as int) * (den as int) <= (u64::MAX as int) * (u64::MAX as int))
                by (nonlinear_arith)
                requires
                    rem <= u64::MAX,
                    den <= u64::MAX,
            ;
            assert((q as int) * (den as int) <= (u64::MAX as int) * (u64::MAX as int))
                by (nonlinear_arith)
                requires
                    q <= u64::MAX,
                    den <= u64::MAX,
            ;
            assert(q2 < den as int) by {
                assert((rem as int) * (den as int) < (num as int) * (den as int))
                    by (nonlinear_arith)
                    requires
                        rem < num,
                        den >= 1,
                ;
                vstd::arithmetic::div_mod::lemma_multiply_divide_lt(
                    (rem as int) * (den as int),
                    num as int,
                    den as int,
                );
            }
        }
        let low: u128 = (rem * den) / num;
        let high: u128 = q * den;
        let total: u128 = high + low;
        if total > u64::MAX as u128 {
            u64::MAX
        } else {
            total as u64
        }
    }
}

} // verus!
