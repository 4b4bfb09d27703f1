//! A point in space.
use crate::scalar::Scalar;
use crate::vec3::Vec3;
use vstd::prelude::*;

verus! {

pub type Point3 = Vec3;

impl Point3 {
    /// The point of three coordinates.
    pub fn point(x: Scalar, y: Scalar, z: Scalar) -> (r: Point3)
        ensures
            r == (Vec3 { x, y, z }),
    {
        Vec3 { x, y, z }
    }
}

} // verus!
