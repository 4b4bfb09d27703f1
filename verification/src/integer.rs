//! The integer part of a scalar, read off its bit pattern.
use crate::scalar::{Scalar, HIDDEN_BIT, INFINITY_BITS, ONE_BITS, SIGN_BIT};
use vstd::arithmetic::div_mod::{lemma_basic_div, lemma_div_is_ordered_by_denominator};
use vstd::arithmetic::mul::lemma_mul_inequality;
use vstd::arithmetic::power2::{lemma2_to64, lemma2_to64_rest, lemma_pow2_strictly_increases, pow2};
use vstd::bits::{lemma_u64_mul_pow2_le_max_iff_max_shr, lemma_u64_shl_is_mul, lemma_u64_shr_is_div};
use vstd::prelude::*;

verus! {

impl Scalar {
    /// The exponent field of the pattern: 0 for zeros and subnormals, 2047
    /// for infinities and NaNs.
    pub open spec fn exponent_field(self) -> int {
        self.magnitude() / (HIDDEN_BIT as int)
    }

    /// The 52 fraction bits of the pattern.
    pub open spec fn fraction_field(self) -> int {
        self.magnitude() % (HIDDEN_BIT as int)
    }

    /// The significand of a finite value as an integer: the fraction, with
    /// the hidden bit above it where the value is normal.
    pub open spec fn significand(self) -> int {
        if self.exponent_field() == 0 {
            self.fraction_field()
        } else {
            self.fraction_field() + HIDDEN_BIT
        }
    }

    /// The power of two that weighs the significand: a finite value is
    /// `significand * 2^scale` in absolute value.
    pub open spec fn scale(self) -> int {
        if self.exponent_field() == 0 {
            -1074
        } else {
            self.exponent_field() - 1075
        }
    }

    /// The integer part of `|self| * 2^k`, for a finite value.
    pub open spec fn floor_shifted(self, k: int) -> int {
        let e = self.scale() + k;
        if e >= 0 {
            self.significand() * pow2(e as nat)
        } else {
            self.significand() / (pow2((-e) as nat) as int)
        }
    }

    /// `self * 2^k` cut to a `u32`: the fraction is dropped, what lies above
    /// the type is `u32::MAX`, what lies below zero is 0, and so is a NaN.
    pub open spec fn truncated(self, k: int) -> int {
        if self.is_nan() || self.is_sign_negative() {
            0
        } else if self.is_infinite() || self.floor_shifted(k) > u32::MAX {
            u32::MAX as int
        } else {
            self.floor_shifted(k)
        }
    }

    /// `self` rounded to the nearest integer, a half away from zero, and cut
    /// to a `u32` as `truncated` cuts.
    pub open spec fn rounded(self) -> int {
        if self.is_nan() || self.is_sign_negative() {
            0
        } else if self.is_infinite() || (self.floor_shifted(1) + 1) / 2 > u32::MAX {
            u32::MAX as int
        } else {
            (self.floor_shifted(1) + 1) / 2
        }
    }

    /// The integer part of `|self| * 2^k`, at most `limit`; `None` for an
    /// infinity or a NaN.
    fn floor_shifted_capped(self, k: u32, limit: u64) -> (r: Option<u64>)
        ensures
            r is Some <==> self.is_finite(),
            r matches Some(v) ==> v == if self.floor_shifted(k as int) > limit {
                limit as int
            } else {
                self.floor_shifted(k as int)
            },
    {
        let m: u64 = if self.bits >= SIGN_BIT {
            self.bits - SIGN_BIT
        } else {
            self.bits
        };
        if m >= INFINITY_BITS {
            return None;
        }
        let field: u64 = m / HIDDEN_BIT;
        let fraction: u64 = m % HIDDEN_BIT;
        let sig: u64 = if field == 0 {
            fraction
        } else {
            fraction + HIDDEN_BIT
        };
        let scale: i64 = if field == 0 {
            -1074
        } else {
            field as i64 - 1075
        };
        let e: i64 = scale + k as i64;
        proof {
            lemma2_to64();
            lemma2_to64_rest();
        }
        if e >= 64 {
            proof {
                if e > 64 {
                    lemma_pow2_strictly_increases(64, e as nat);
                }
                if sig > 0 {
                    lemma_mul_inequality(1, sig as int, pow2(e as nat) as int);
                }
                let p = pow2(e as nat);
                assert(sig == 0 ==> sig * p == 0) by (nonlinear_arith);
            }
            if sig == 0 {
                Some(0)
            } else {
                Some(limit)
            }
        } else if e >= 0 {
            let shift: u64 = e as u64;
            let room: u64 = u64::MAX >> shift;
            proof {
                lemma_u64_mul_pow2_le_max_iff_max_shr(sig, shift, u64::MAX);
            }
            if sig > room {
                Some(limit)
            } else {
                proof {
                    lemma_u64_shl_is_mul(sig, shift);
                }
                let v: u64 = sig << shift;
                if v > limit {
                    Some(limit)
                } else {
                    Some(v)
                }
            }
        } else if e <= -64 {
            proof {
                lemma_pow2_strictly_increases(63, (-e) as nat);
                lemma_basic_div(sig as int, pow2((-e) as nat) as int);
            }
            Some(0)
        } else {
            let shift: u64 = (-e) as u64;
            proof {
                lemma_u64_shr_is_div(sig, shift);
            }
            let v: u64 = sig >> shift;
            if v > limit {
                Some(limit)
            } else {
                Some(v)
            }
        }
    }

    /// `self * 2^k` as a `u32`: truncated toward zero and saturating, 0 for
    /// a NaN.
    pub fn truncate_shifted(self, k: u32) -> (r: u32)
        ensures
            r == self.truncated(k as int),
    {
        if self.bits >= SIGN_BIT || self.bits > INFINITY_BITS {
            return 0;
        }
        match self.floor_shifted_capped(k, 0xFFFF_FFFF) {
            Some(v) => v as u32,
            None => u32::MAX,
        }
    }

    /// `self` rounded to the nearest `u32`, a half away from zero,
    /// saturating, 0 for a NaN.
    pub fn round(self) -> (r: u32)
        ensures
            r == self.rounded(),
    {
        if self.bits >= SIGN_BIT || self.bits > INFINITY_BITS {
            return 0;
        }
        match self.floor_shifted_capped(1, 0x1_FFFF_FFFF) {
            Some(twice) => {
                let half: u64 = (twice + 1) / 2;
                if half > 0xFFFF_FFFF {
                    u32::MAX
                } else {
                    half as u32
                }
            },
            None => u32::MAX,
        }
    }
}

/// A value below 1, scaled by 256, is cut to a byte; and so is a NaN.
pub proof fn lemma_unit_fits_byte(x: Scalar)
    requires
        x.is_nan() || x.less(Scalar { bits: ONE_BITS }),
    ensures
        0 <= x.truncated(8) <= 255,
{
    if !x.is_nan() && !x.is_sign_negative() {
        lemma2_to64_rest();
        let e = x.scale() + 8;
        if e < -45 {
            lemma_pow2_strictly_increases(45, (-e) as nat);
        }
        lemma_div_is_ordered_by_denominator(x.significand(), pow2(45) as int, pow2((-e) as nat) as int);
    }
}

} // verus!
