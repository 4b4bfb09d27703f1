//! The value of a finite scalar, and why the order of the bit patterns is
//! the order of the values.
use crate::scalar::Scalar;
use vstd::arithmetic::div_mod::{lemma_div_by_multiple, lemma_div_denominator, lemma_div_is_ordered};
use vstd::arithmetic::mul::lemma_mul_inequality;
use vstd::arithmetic::power2::{lemma2_to64_rest, lemma_pow2_adds, lemma_pow2_pos, lemma_pow2_strictly_increases, pow2};
use vstd::prelude::*;

verus! {

impl Scalar {
    /// The absolute value of a finite scalar, counted in units of the least
    /// positive value, 2^-1074: the significand, shifted by the scale.
    pub open spec fn units(self) -> int {
        self.significand() * pow2((self.scale() + 1074) as nat)
    }

    /// The value of a finite scalar in those units, with its sign.
    pub open spec fn signed_units(self) -> int {
        if self.is_sign_negative() {
            -self.units()
        } else {
            self.units()
        }
    }
}

/// The values with one exponent field fill the range from one power of two
/// to the next, and those of field 0 the range below 2^52.
pub proof fn lemma_units_by_exponent(x: Scalar)
    requires
        x.is_finite(),
    ensures
        x.exponent_field() == 0 ==> 0 <= x.units() < pow2(52),
        x.exponent_field() >= 1 ==> pow2((51 + x.exponent_field()) as nat) <= x.units() < pow2(
            (52 + x.exponent_field()) as nat,
        ),
{
    lemma2_to64_rest();
    let field = x.exponent_field();
    let sig = x.significand();
    if field == 0 {
        assert(pow2(0) == 1) by {
            vstd::arithmetic::power2::lemma2_to64();
        }
        assert(sig * 1 == sig);
    } else {
        let p = pow2((field - 1) as nat);
        lemma_pow2_pos((field - 1) as nat);
        lemma_pow2_adds(52, (field - 1) as nat);
        lemma_pow2_adds(53, (field - 1) as nat);
        assert(pow2(52) * p <= sig * p < pow2(53) * p) by (nonlinear_arith)
            requires
                pow2(52) <= sig < pow2(53),
                p > 0,
        ;
    }
}

/// Of two finite scalars, the one with the smaller magnitude in its bit
/// pattern has the smaller absolute value.
pub proof fn lemma_magnitude_orders_units(a: Scalar, b: Scalar)
    requires
        a.is_finite(),
        b.is_finite(),
    ensures
        a.magnitude() < b.magnitude() <==> a.units() < b.units(),
        a.magnitude() == b.magnitude() <==> a.units() == b.units(),
{
    lemma_units_by_exponent(a);
    lemma_units_by_exponent(b);
    let ea = a.exponent_field();
    let eb = b.exponent_field();
    if ea == eb {
        let p = pow2((a.scale() + 1074) as nat);
        lemma_pow2_pos((a.scale() + 1074) as nat);
        let sa = a.significand();
        let sb = b.significand();
        assert((sa < sb <==> sa * p < sb * p) && (sa == sb <==> sa * p == sb * p))
            by (nonlinear_arith)
            requires
                p > 0,
        ;
    } else if ea < eb {
        if ea == 0 {
            if eb > 1 {
                lemma_pow2_strictly_increases(52, (51 + eb) as nat);
            }
        } else if ea + 1 < eb {
            lemma_pow2_strictly_increases((52 + ea) as nat, (51 + eb) as nat);
        }
    } else {
        if eb == 0 {
            if ea > 1 {
                lemma_pow2_strictly_increases(52, (51 + ea) as nat);
            }
        } else if eb + 1 < ea {
            lemma_pow2_strictly_increases((52 + eb) as nat, (51 + ea) as nat);
        }
    }
}

/// The order of the scalars is the order of their values: of two finite
/// scalars one is less than the other exactly where its value is, and the
/// two are the same number exactly where their values are equal.
pub proof fn lemma_order_is_that_of_values(a: Scalar, b: Scalar)
    requires
        a.is_finite(),
        b.is_finite(),
    ensures
        a.less(b) <==> a.signed_units() < b.signed_units(),
        a.less_eq(b) <==> a.signed_units() <= b.signed_units(),
        a.same(b) <==> a.signed_units() == b.signed_units(),
{
    let zero = Scalar { bits: 0 };
    let p = pow2((zero.scale() + 1074) as nat);
    assert(zero.units() == 0) by (nonlinear_arith)
        requires
            zero.units() == zero.significand() * p,
            zero.significand() == 0,
    ;
    lemma_magnitude_orders_units(a, b);
    lemma_magnitude_orders_units(b, zero);
}

/// The infinities lie beyond every finite scalar.
pub proof fn lemma_infinities_bound_the_numbers(x: Scalar)
    requires
        x.is_finite(),
    ensures
        x.less(Scalar { bits: 0x7FF0_0000_0000_0000 }),
        (Scalar { bits: 0xFFF0_0000_0000_0000 }).less(x),
{
}

/// The integer part of `|x| * 2^k` is that of the value: the units times
/// `2^k`, over the 2^1074 units that make 1.
pub proof fn lemma_floor_is_that_of_the_value(x: Scalar, k: nat)
    requires
        x.is_finite(),
    ensures
        x.floor_shifted(k as int) == (x.units() * pow2(k)) / (pow2(1074) as int),
        x.floor_shifted(k as int) >= 0,
{
    let sig = x.significand();
    let s = (x.scale() + 1074) as nat;
    let e = x.scale() + k;
    let whole = pow2(1074) as int;
    lemma_pow2_pos(1074);
    lemma_pow2_adds(s, k);
    assert(x.units() * pow2(k) == sig * pow2(s + k)) by (nonlinear_arith)
        requires
            x.units() == sig * pow2(s),
            pow2(s + k) == pow2(s) * pow2(k),
    ;
    if e >= 0 {
        let p = pow2(e as nat) as int;
        lemma_pow2_pos(e as nat);
        lemma_pow2_adds(e as nat, 1074);
        assert(sig * pow2(s + k) == (sig * p) * whole) by (nonlinear_arith)
            requires
                pow2(s + k) == p * whole,
        ;
        assert(sig * p >= 0) by (nonlinear_arith)
            requires
                sig >= 0,
                p > 0,
        ;
        lemma_div_by_multiple(sig * p, whole);
    } else {
        let n = (-e) as nat;
        let c = pow2((1074 - n) as nat) as int;
        let d = pow2(n) as int;
        lemma_pow2_pos((1074 - n) as nat);
        lemma_pow2_adds((1074 - n) as nat, n);
        lemma_div_denominator(sig * c, c, d);
        lemma_div_by_multiple(sig, c);
    }
}

/// The zeros have no integer part, however they are shifted.
proof fn lemma_zero_truncates_to_zero(x: Scalar, k: nat)
    requires
        x.magnitude() == 0,
    ensures
        x.floor_shifted(k as int) == 0,
{
    let e = x.scale() + k;
    if e >= 0 {
        let p = pow2(e as nat);
        assert(x.significand() * p == 0) by (nonlinear_arith)
            requires
                x.significand() == 0,
        ;
    } else {
        lemma_pow2_pos((-e) as nat);
    }
}

/// Shifting keeps the order of the integer parts of two finite scalars that
/// are not negative.
proof fn lemma_floor_is_monotone(a: Scalar, b: Scalar, k: nat)
    requires
        a.is_finite(),
        b.is_finite(),
        a.magnitude() <= b.magnitude(),
    ensures
        0 <= a.floor_shifted(k as int) <= b.floor_shifted(k as int),
{
    lemma_floor_is_that_of_the_value(a, k);
    lemma_floor_is_that_of_the_value(b, k);
    lemma_magnitude_orders_units(a, b);
    lemma_pow2_pos(1074);
    lemma_mul_inequality(a.units(), b.units(), pow2(k) as int);
    lemma_div_is_ordered(a.units() * pow2(k), b.units() * pow2(k), pow2(1074) as int);
}

/// Cutting to an integer keeps the order: of two scalars in order, the
/// lesser is truncated, and rounded, to no more than the greater.
pub proof fn lemma_truncation_is_monotone(a: Scalar, b: Scalar, k: nat)
    requires
        a.less_eq(b),
    ensures
        0 <= a.truncated(k as int) <= b.truncated(k as int) <= u32::MAX,
        0 <= a.rounded() <= b.rounded() <= u32::MAX,
{
    if b.is_finite() {
        lemma_floor_is_that_of_the_value(b, k);
        lemma_floor_is_that_of_the_value(b, 1);
    }
    if !a.is_sign_negative() {
        if b.is_sign_negative() {
            lemma_zero_truncates_to_zero(a, k);
            lemma_zero_truncates_to_zero(a, 1);
        } else if b.is_finite() {
            lemma_floor_is_monotone(a, b, k);
            lemma_floor_is_monotone(a, b, 1);
        } else if a.is_finite() {
            lemma_floor_is_that_of_the_value(a, k);
            lemma_floor_is_that_of_the_value(a, 1);
        }
    }
}

} // verus!
