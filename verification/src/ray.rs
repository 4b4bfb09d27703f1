//! A ray: the points `origin + t * direction`.
use crate::vec3::Vec3;
use vstd::prelude::*;

verus! {

#[derive(Clone, Copy, Debug)]
pub struct Ray {
    pub origin: Vec3,
    pub direction: Vec3,
}

impl Ray {
    /// The ray from `origin` along `direction`.
    pub fn new(origin: Vec3, direction: Vec3) -> (r: Ray)
        ensures
            r.origin == origin,
            r.direction == direction,
    {
        Ray { origin, direction }
    }
}

impl Default for Ray {
    /// The ray from the origin without a direction.
    fn default() -> (r: Ray)
        ensures
            r.origin == Vec3::spec_zero(),
            r.direction == Vec3::spec_zero(),
    {
        Ray { origin: Vec3::zero(), direction: Vec3::zero() }
    }
}

} // verus!
