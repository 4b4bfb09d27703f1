//! Three scalars: a direction, a point or a linear colour, as the caller
//! means it.
use crate::scalar::{Scalar, ONE_BITS};
use vstd::prelude::*;

verus! {

/// The pattern of 1e-160, the least squared length that is divided by.
pub const TINY_BITS: u64 = 0x1EB6_7E9C_127B_6E74;

/// The pattern of 1e-8, below which a component counts as zero.
pub const NEAR_ZERO_BITS: u64 = 0x3E45_798E_E230_8C3A;

#[derive(Clone, Copy, Debug)]
pub struct Vec3 {
    pub x: Scalar,
    pub y: Scalar,
    pub z: Scalar,
}

impl Vec3 {
    /// Every component is below 1e-8 in absolute value.
    pub open spec fn spec_near_zero(self) -> bool {
        let small = Scalar { bits: NEAR_ZERO_BITS };
        self.x.absolute().less(small) && self.y.absolute().less(small) && self.z.absolute().less(
            small,
        )
    }

    /// Whether a squared length is one from which a unit vector is made:
    /// above 1e-160 and at most 1.
    pub open spec fn accepts(length_squared: Scalar) -> bool {
        (Scalar { bits: TINY_BITS }).less(length_squared) && length_squared.less_eq(
            Scalar { bits: ONE_BITS },
        )
    }

    /// Some component is a NaN.
    pub open spec fn has_nan(self) -> bool {
        self.x.is_nan() || self.y.is_nan() || self.z.is_nan()
    }

    /// Every component with its sign flipped.
    pub open spec fn negated(self) -> Vec3 {
        Vec3 { x: self.x.negated(), y: self.y.negated(), z: self.z.negated() }
    }

    /// The vector of three positive zeros.
    pub open spec fn spec_zero() -> Vec3 {
        Vec3 { x: Scalar { bits: 0 }, y: Scalar { bits: 0 }, z: Scalar { bits: 0 } }
    }

    /// The vector of three components.
    pub fn new(x: Scalar, y: Scalar, z: Scalar) -> (r: Vec3)
        ensures
            r == (Vec3 { x, y, z }),
    {
        Vec3 { x, y, z }
    }

    /// The vector of three positive zeros.
    pub fn zero() -> (r: Vec3)
        ensures
            r == Vec3::spec_zero(),
    {
        Vec3 { x: Scalar::zero(), y: Scalar::zero(), z: Scalar::zero() }
    }

    /// Whether the vector is too short to give a direction.
    pub fn near_zero(&self) -> (r: bool)
        ensures
            r == self.spec_near_zero(),
    {
        let small = Scalar::from_bits(NEAR_ZERO_BITS);
        self.x.abs().lt(small) && self.y.abs().lt(small) && self.z.abs().lt(small)
    }

    /// The opposite vector.
    pub fn neg(self) -> (r: Vec3)
        ensures
            r == self.negated(),
    {
        Vec3 { x: self.x.neg(), y: self.y.neg(), z: self.z.neg() }
    }

    /// A point drawn from the cube from -1 to 1 gives a random unit vector
    /// where its squared length is above 1e-160 and at most 1: then the
    /// point, normalized, is uniform on the unit sphere. Below, the division
    /// would underflow; above, the directions of the corners would come too
    /// often.
    pub fn random_unit_vector(length_squared: Scalar, normalized: Vec3) -> (r: Option<Vec3>)
        ensures
            r == if Vec3::accepts(length_squared) {
                Some(normalized)
            } else {
                None
            },
    {
        if Scalar::from_bits(TINY_BITS).lt(length_squared) && length_squared.le(Scalar::one()) {
            Some(normalized)
        } else {
            None
        }
    }

    /// A unit vector, turned into the hemisphere of a normal: it is kept
    /// where its dot product with the normal is positive, else reversed.
    pub fn random_on_hemisphere(on_unit_sphere: Vec3, dot_normal: Scalar) -> (r: Vec3)
        ensures
            r == if (Scalar { bits: 0 }).less(dot_normal) {
                on_unit_sphere
            } else {
                on_unit_sphere.negated()
            },
    {
        if dot_normal.gt(Scalar::zero()) {
            on_unit_sphere
        } else {
            on_unit_sphere.neg()
        }
    }
}

impl Default for Vec3 {
    /// The vector of three positive zeros.
    fn default() -> (r: Vec3)
        ensures
            r == Vec3::spec_zero(),
    {
        Vec3::zero()
    }
}

/// A vector near zero holds no NaN, and its opposite is near zero too.
pub proof fn lemma_near_zero_is_a_number(v: Vec3)
    requires
        v.spec_near_zero(),
    ensures
        !v.has_nan(),
        v.negated().spec_near_zero(),
{
}

} // verus!
