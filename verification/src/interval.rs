//! A range of scalars: the window in which a ray may meet a surface, and the
//! range to which a colour channel is cut.
use crate::scalar::{Scalar, INFINITY_BITS, SIGN_BIT};
use vstd::prelude::*;

verus! {

#[derive(Clone, Copy, Debug)]
pub struct Interval {
    pub min: Scalar,
    pub max: Scalar,
}

impl Interval {
    /// `min <= x <= max`.
    pub open spec fn spec_contains(self, x: Scalar) -> bool {
        self.min.less_eq(x) && x.less_eq(self.max)
    }

    /// `min < x < max`.
    pub open spec fn spec_surrounds(self, x: Scalar) -> bool {
        self.min.less(x) && x.less(self.max)
    }

    /// `x`, moved to the nearer bound where it lies outside. A NaN lies
    /// neither below nor above and stays.
    pub open spec fn spec_clamp(self, x: Scalar) -> Scalar {
        if x.less(self.min) {
            self.min
        } else if self.max.less(x) {
            self.max
        } else {
            x
        }
    }

    /// The interval from positive to negative infinity, which holds nothing.
    pub fn empty_interval() -> (r: Interval)
        ensures
            r.min.bits == INFINITY_BITS,
            r.max.bits == INFINITY_BITS + SIGN_BIT,
            forall|x: Scalar| !r.spec_contains(x),
    {
        Interval { min: Scalar::infinity(), max: Scalar::neg_infinity() }
    }

    /// The interval from `min` to `max`.
    pub fn bounded_interval(min: Scalar, max: Scalar) -> (r: Interval)
        ensures
            r.min == min,
            r.max == max,
    {
        Interval { min, max }
    }

    /// Whether `x` lies in the interval, the bounds included.
    pub fn contains(&self, x: Scalar) -> (r: bool)
        ensures
            r == self.spec_contains(x),
    {
        self.min.le(x) && x.le(self.max)
    }

    /// Whether `x` lies strictly inside the interval.
    pub fn surrounds(&self, x: Scalar) -> (r: bool)
        ensures
            r == self.spec_surrounds(x),
    {
        self.min.lt(x) && x.lt(self.max)
    }

    /// `x` cut to the interval.
    pub fn clamp(&self, x: Scalar) -> (r: Scalar)
        ensures
            r == self.spec_clamp(x),
    {
        if x.lt(self.min) {
            return self.min;
        }
        if x.gt(self.max) {
            return self.max;
        }
        x
    }
}

/// What lies strictly inside an interval lies in it.
pub proof fn lemma_surrounds_is_contains(i: Interval, x: Scalar)
    requires
        i.spec_surrounds(x),
    ensures
        i.spec_contains(x),
{
}

/// Where the bounds are in order, a number is cut to a value of the
/// interval; a value of the interval is left as it is, and so cutting twice
/// is cutting once.
pub proof fn lemma_clamp_lands_inside(i: Interval, x: Scalar)
    requires
        i.min.less_eq(i.max),
        !x.is_nan(),
    ensures
        i.spec_contains(i.spec_clamp(x)),
        i.spec_contains(x) ==> i.spec_clamp(x) == x,
        i.spec_clamp(i.spec_clamp(x)) == i.spec_clamp(x),
{
}

/// Cutting keeps the order of two numbers.
pub proof fn lemma_clamp_is_monotone(i: Interval, x: Scalar, y: Scalar)
    requires
        i.min.less_eq(i.max),
        x.less_eq(y),
    ensures
        i.spec_clamp(x).less_eq(i.spec_clamp(y)),
{
}

} // verus!
