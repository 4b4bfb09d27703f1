//! The sphere: which of the two places where a ray's line crosses it counts
//! as the hit.
use crate::hittable::{HitRecord, Hittable};
use crate::interval::Interval;
use crate::point3::Point3;
use crate::scalar::Scalar;
use crate::vec3::Vec3;
use vstd::prelude::*;

verus! {

/// One place where a ray's line crosses a sphere, as arithmetic gives it.
#[derive(Clone, Copy, Debug)]
pub struct Crossing {
    /// The ray parameter of the place.
    pub t: Scalar,
    /// The place: the ray at `t`.
    pub point: Vec3,
    /// The unit normal there that points away from the centre.
    pub outward_normal: Vec3,
    /// The dot product of the ray's direction and `outward_normal`.
    pub facing: Scalar,
}

/// What arithmetic makes of a ray for a sphere. With `oc` from the ray's
/// origin to the centre, `a` the squared length of the direction, `h` the
/// dot product of the direction and `oc`, and `c` the squared length of `oc`
/// less the squared radius: the discriminant is `h*h - a*c`, and the lines
/// cross at `(h - sqrt(discriminant)) / a` and `(h + sqrt(discriminant)) / a`.
#[derive(Clone, Copy, Debug)]
pub struct SphereProbe {
    pub discriminant: Scalar,
    /// The crossing at the root with the minus sign.
    pub near: Crossing,
    /// The crossing at the root with the plus sign.
    pub far: Crossing,
}

#[derive(Clone, Copy, Debug)]
pub struct Sphere {
    pub center: Point3,
    pub radius: Scalar,
    /// The handle of the sphere's material in the scene's table.
    pub material: Option<usize>,
}

impl Crossing {
    /// The record of a hit at this crossing: the front face was hit where
    /// `facing` is negative, and the normal is turned against the ray.
    pub open spec fn record(self, material: Option<usize>) -> HitRecord {
        let front = self.facing.less(Scalar { bits: 0 });
        HitRecord {
            p: self.point,
            normal: if front {
                self.outward_normal
            } else {
                self.outward_normal.negated()
            },
            material,
            t: self.t,
            front_face: front,
        }
    }
}

impl SphereProbe {
    /// The crossing that counts in a window: none under a negative
    /// discriminant; else the near one where it lies strictly inside the
    /// window; else the far one where that does.
    pub open spec fn crossing(self, ray_t: Interval) -> Option<Crossing> {
        if self.discriminant.less(Scalar { bits: 0 }) {
            None
        } else if ray_t.spec_surrounds(self.near.t) {
            Some(self.near)
        } else if ray_t.spec_surrounds(self.far.t) {
            Some(self.far)
        } else {
            None
        }
    }
}

impl Sphere {
    /// The sphere of radius zero at the origin, of no material.
    pub fn default() -> (r: Sphere)
        ensures
            r.center == Vec3::spec_zero(),
            r.radius.bits == 0,
            r.material is None,
    {
        Sphere { center: Vec3::zero(), radius: Scalar::zero(), material: None }
    }
}

impl Hittable for Sphere {
    type Probe = SphereProbe;

    open spec fn fits(&self, probe: &SphereProbe) -> bool {
        true
    }

    open spec fn hit_spec(&self, probe: &SphereProbe, ray_t: Interval) -> Option<HitRecord> {
        match probe.crossing(ray_t) {
            Some(crossing) => Some(crossing.record(self.material)),
            None => None,
        }
    }

    /// The near crossing does not come after the far one.
    open spec fn in_order(&self, probe: &SphereProbe) -> bool {
        probe.near.t.is_nan() || probe.far.t.is_nan() || probe.near.t.less_eq(probe.far.t)
    }

    proof fn lemma_hit_in_window(&self, probe: &SphereProbe, ray_t: Interval) {
    }

    proof fn lemma_narrowed(&self, probe: &SphereProbe, ray_t: Interval, max: Scalar) {
    }

    fn hit(&self, probe: &SphereProbe, ray_t: Interval, hit_record: &mut HitRecord) -> (r: bool) {
        if probe.discriminant.lt(Scalar::zero()) {
            return false;
        }
        let mut root = &probe.near;
        if !ray_t.surrounds(root.t) {
            root = &probe.far;
            if !ray_t.surrounds(root.t) {
                return false;
            }
        }
        hit_record.t = root.t;
        hit_record.p = root.point;
        hit_record.set_face_normal(root.facing, &root.outward_normal);
        hit_record.material = self.material;
        true
    }
}

} // verus!
