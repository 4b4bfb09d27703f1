//! What a ray can hit: the record of a hit, the capability of being hit, and
//! the list that finds the nearest hit among its members.
use crate::interval::Interval;
use crate::scalar::Scalar;
use crate::vec3::Vec3;
use vstd::prelude::*;

verus! {

/// Where and how a ray met a surface.
#[derive(Clone, Copy, Debug)]
pub struct HitRecord {
    /// The point that was hit.
    pub p: Vec3,
    /// The surface normal there, turned against the ray.
    pub normal: Vec3,
    /// The handle of the surface's material in the scene's table.
    pub material: Option<usize>,
    /// The ray parameter of the hit.
    pub t: Scalar,
    /// Whether the ray came from outside the surface.
    pub front_face: bool,
}

impl HitRecord {
    /// The record with the side and the normal that belong to an outward
    /// normal, given the dot product of the ray's direction with it.
    pub open spec fn facing(self, direction_dot_normal: Scalar, outward_normal: Vec3) -> HitRecord {
        let front = direction_dot_normal.less(Scalar { bits: 0 });
        HitRecord {
            front_face: front,
            normal: if front {
                outward_normal
            } else {
                outward_normal.negated()
            },
            ..self
        }
    }

    /// Sets the side that was hit and turns the normal against the ray:
    /// the front face was hit where the ray's direction and the outward
    /// normal have a negative dot product.
    pub fn set_face_normal(&mut self, direction_dot_normal: Scalar, outward_normal: &Vec3)
        ensures
            *final(self) == old(self).facing(direction_dot_normal, *outward_normal),
    {
        self.front_face = direction_dot_normal.lt(Scalar::zero());
        self.normal = if self.front_face {
            *outward_normal
        } else {
            outward_normal.neg()
        };
    }

    pub fn default() -> (r: HitRecord)
        ensures
            r.p == Vec3::spec_zero(),
            r.normal == Vec3::spec_zero(),
            r.material is None,
            r.t.bits == 0,
            !r.front_face,
    {
        HitRecord {
            p: Vec3::zero(),
            normal: Vec3::zero(),
            material: None,
            t: Scalar::zero(),
            front_face: false,
        }
    }
}

/// A hit, where it lies before `max` along the ray.
pub open spec fn sooner(hit: Option<HitRecord>, max: Scalar) -> Option<HitRecord> {
    match hit {
        Some(rec) => if rec.t.less(max) {
            Some(rec)
        } else {
            None
        },
        None => None,
    }
}

/// A surface that a ray can hit.
pub trait Hittable {
    /// What the caller's arithmetic makes of one ray for this surface.
    type Probe;

    /// Whether a probe has the shape that this surface reads.
    spec fn fits(&self, probe: &Self::Probe) -> bool;

    /// The hit that this surface reports for a probe in a window, if any.
    spec fn hit_spec(&self, probe: &Self::Probe, ray_t: Interval) -> Option<HitRecord>;

    /// Whether a probe puts the surface's crossings in their order along
    /// the ray, as arithmetic on a ray does.
    spec fn in_order(&self, probe: &Self::Probe) -> bool;

    /// A reported hit lies strictly inside the window.
    proof fn lemma_hit_in_window(&self, probe: &Self::Probe, ray_t: Interval)
        requires
            self.fits(probe),
        ensures
            self.hit_spec(probe, ray_t) matches Some(rec) ==> ray_t.spec_surrounds(rec.t),
    ;

    /// In a window that ends sooner, a probe in order reports the same hit
    /// where that still lies inside, and none where it does not.
    proof fn lemma_narrowed(&self, probe: &Self::Probe, ray_t: Interval, max: Scalar)
        requires
            self.fits(probe),
            self.in_order(probe),
            max.less_eq(ray_t.max),
        ensures
            self.hit_spec(probe, Interval { min: ray_t.min, max }) == sooner(
                self.hit_spec(probe, ray_t),
                max,
            ),
    ;

    /// Reports in `hit_record` where the probed ray meets the surface
    /// strictly inside `ray_t`, and leaves the record alone where it does
    /// not.
    fn hit(&self, probe: &Self::Probe, ray_t: Interval, hit_record: &mut HitRecord) -> (r: bool)
        requires
            self.fits(probe),
        ensures
            r == self.hit_spec(probe, ray_t).is_some(),
            r ==> *final(hit_record) == self.hit_spec(probe, ray_t).unwrap(),
            r ==> ray_t.spec_surrounds(final(hit_record).t),
            !r ==> *final(hit_record) == *old(hit_record),
    ;
}

/// Surfaces in the order in which they are tested.
pub struct HittableList<'a, T: Hittable> {
    pub objects: Vec<&'a T>,
}

impl<'a, T: Hittable> HittableList<'a, T> {
    /// The nearest hit among the first `n` members: each member is asked in
    /// the window that ends at the nearest hit before it.
    pub open spec fn nearest(self, probes: Seq<T::Probe>, ray_t: Interval, n: nat) -> Option<
        HitRecord,
    >
        decreases n,
    {
        if n == 0 {
            None
        } else {
            let before = self.nearest(probes, ray_t, (n - 1) as nat);
            let window = Interval {
                min: ray_t.min,
                max: match before {
                    Some(rec) => rec.t,
                    None => ray_t.max,
                },
            };
            match self.objects[n - 1].hit_spec(&probes[n - 1], window) {
                Some(rec) => Some(rec),
                None => before,
            }
        }
    }

    /// The window in which the member behind the first `n` is asked: it
    /// ends at the nearest hit among them, or where `ray_t` ends.
    pub open spec fn window(self, probes: Seq<T::Probe>, ray_t: Interval, n: nat) -> Interval {
        Interval {
            min: ray_t.min,
            max: match self.nearest(probes, ray_t, n) {
                Some(rec) => rec.t,
                None => ray_t.max,
            },
        }
    }

    /// One probe for each member, each of that member's shape.
    pub open spec fn probed(self, probes: Seq<T::Probe>) -> bool {
        &&& probes.len() == self.objects@.len()
        &&& forall|i: int| 0 <= i < probes.len() ==> (#[trigger] self.objects@[i]).fits(&probes[i])
    }

    /// Every member's probe is in order.
    pub open spec fn all_in_order(self, probes: Seq<T::Probe>) -> bool {
        forall|i: int|
            0 <= i < probes.len() && i < self.objects@.len() ==> (
            #[trigger] self.objects@[i]).in_order(&probes[i])
    }

    /// Removes every member.
    pub fn clear(&mut self)
        ensures
            final(self).objects@.len() == 0,
    {
        self.objects.clear();
    }

    /// Adds a member behind the others.
    pub fn add(&mut self, object: &'a T)
        ensures
            final(self).objects@ == old(self).objects@.push(object),
    {
        self.objects.push(object);
    }
}

impl<'a, T: Hittable> Default for HittableList<'a, T> {
    /// The list without members.
    fn default() -> (r: Self)
        ensures
            r.objects@.len() == 0,
    {
        HittableList { objects: Vec::new() }
    }
}

impl<'a, T: Hittable> Hittable for HittableList<'a, T> {
    type Probe = Vec<T::Probe>;

    /// One probe for each member, each of that member's shape.
    open spec fn fits(&self, probe: &Vec<T::Probe>) -> bool {
        self.probed(probe@)
    }

    open spec fn hit_spec(&self, probe: &Vec<T::Probe>, ray_t: Interval) -> Option<HitRecord> {
        self.nearest(probe@, ray_t, self.objects@.len())
    }

    /// Every member's probe is in order.
    open spec fn in_order(&self, probe: &Vec<T::Probe>) -> bool {
        self.all_in_order(probe@)
    }

    proof fn lemma_narrowed(&self, probe: &Vec<T::Probe>, ray_t: Interval, max: Scalar) {
        self.lemma_nearest_narrowed(probe@, ray_t, max, self.objects@.len());
    }

    proof fn lemma_hit_in_window(&self, probe: &Vec<T::Probe>, ray_t: Interval) {
        self.lemma_nearest_in_window(probe@, ray_t, self.objects@.len());
    }

    fn hit(&self, probe: &Vec<T::Probe>, ray_t: Interval, hit_record: &mut HitRecord) -> (r: bool) {
        let mut hit_anything = false;
        let mut closest_so_far = ray_t.max;
        let mut i: usize = 0;
        while i < self.objects.len()
            invariant
                i <= self.objects@.len(),
                self.fits(probe),
                hit_anything == self.nearest(probe@, ray_t, i as nat).is_some(),
                hit_anything ==> *hit_record == self.nearest(probe@, ray_t, i as nat).unwrap(),
                hit_anything ==> closest_so_far == hit_record.t,
                !hit_anything ==> *hit_record == *old(hit_record) && closest_so_far == ray_t.max,
            decreases self.objects@.len() - i,
        {
            let window = Interval { min: ray_t.min, max: closest_so_far };
            if self.objects[i].hit(&probe[i], window, hit_record) {
                hit_anything = true;
                closest_so_far = hit_record.t;
            }
            i += 1;
        }
        proof {
            self.lemma_hit_in_window(probe, ray_t);
        }
        hit_anything
    }
}

impl<'a, T: Hittable> HittableList<'a, T> {
    /// The nearest hit among the first `n` members lies strictly inside the
    /// window.
    pub proof fn lemma_nearest_in_window(self, probes: Seq<T::Probe>, ray_t: Interval, n: nat)
        requires
            n <= self.objects@.len(),
            self.probed(probes),
        ensures
            self.nearest(probes, ray_t, n) matches Some(rec) ==> ray_t.spec_surrounds(rec.t),
        decreases n,
    {
        if n > 0 {
            self.lemma_nearest_in_window(probes, ray_t, (n - 1) as nat);
            let window = self.window(probes, ray_t, (n - 1) as nat);
            self.objects@[n - 1].lemma_hit_in_window(&probes[n - 1], window);
        }
    }

    /// The list reports a hit exactly where some member reports one in the
    /// whole window.
    pub proof fn lemma_hit_iff_a_member_hits(self, probes: Seq<T::Probe>, ray_t: Interval, n: nat)
        requires
            n <= self.objects@.len(),
            self.probed(probes),
        ensures
            self.nearest(probes, ray_t, n) is Some <==> exists|k: int|
                0 <= k < n && (#[trigger] self.objects@[k]).hit_spec(&probes[k], ray_t) is Some,
        decreases n,
    {
        if n > 0 {
            self.lemma_hit_iff_a_member_hits(probes, ray_t, (n - 1) as nat);
        }
    }

    /// In a window that ends sooner, the first `n` members give the same
    /// nearest hit where that still lies inside, and none where it does not.
    pub proof fn lemma_nearest_narrowed(
        self,
        probes: Seq<T::Probe>,
        ray_t: Interval,
        max: Scalar,
        n: nat,
    )
        requires
            n <= self.objects@.len(),
            self.probed(probes),
            self.all_in_order(probes),
            max.less_eq(ray_t.max),
        ensures
            self.nearest(probes, Interval { min: ray_t.min, max }, n) == sooner(
                self.nearest(probes, ray_t, n),
                max,
            ),
        decreases n,
    {
        if n > 0 {
            let m = (n - 1) as nat;
            let narrow = Interval { min: ray_t.min, max };
            self.lemma_nearest_narrowed(probes, ray_t, max, m);
            self.lemma_nearest_in_window(probes, ray_t, m);
            let member = self.objects@[n - 1];
            let probe = &probes[n - 1];
            let wide_window = self.window(probes, ray_t, m);
            let narrow_window = self.window(probes, narrow, m);
            member.lemma_narrowed(probe, ray_t, wide_window.max);
            member.lemma_narrowed(probe, ray_t, narrow_window.max);
        }
    }

    /// Whether member `j` reports `rec` in the whole window, and every
    /// member before it that reports a hit there reports a later one.
    pub open spec fn wins(self, probes: Seq<T::Probe>, ray_t: Interval, j: int, rec: HitRecord) -> bool {
        &&& 0 <= j < self.objects@.len()
        &&& self.objects@[j].hit_spec(&probes[j], ray_t) == Some(rec)
        &&& forall|k: int|
            0 <= k < j ==> ((#[trigger] self.objects@[k]).hit_spec(&probes[k], ray_t) matches Some(
                other,
            ) ==> rec.t.less(other.t))
    }

    /// The hit that the list reports is the nearest of all: no member
    /// reports a hit before it in the whole window; it is the hit of the
    /// first member that reports one so near; and the list reports none only
    /// where no member does.
    pub proof fn lemma_nearest_of_all(self, probes: Seq<T::Probe>, ray_t: Interval, n: nat)
        requires
            n <= self.objects@.len(),
            self.probed(probes),
            self.all_in_order(probes),
        ensures
            match self.nearest(probes, ray_t, n) {
                Some(rec) => {
                    &&& exists|j: int| j < n && #[trigger] self.wins(probes, ray_t, j, rec)
                    &&& forall|k: int|
                        0 <= k < n ==> ((#[trigger] self.objects@[k]).hit_spec(&probes[k], ray_t)
                            matches Some(other) ==> !other.t.less(rec.t))
                },
                None => forall|k: int|
                    0 <= k < n ==> (#[trigger] self.objects@[k]).hit_spec(&probes[k], ray_t)
                        is None,
            },
        decreases n,
    {
        if n > 0 {
            let m = (n - 1) as nat;
            self.lemma_nearest_of_all(probes, ray_t, m);
            self.lemma_nearest_in_window(probes, ray_t, m);
            let member = self.objects@[n - 1];
            let probe = &probes[n - 1];
            let window = self.window(probes, ray_t, m);
            if !ray_t.max.is_nan() {
                member.lemma_narrowed(probe, ray_t, window.max);
            }
            if let Some(rec) = self.nearest(probes, ray_t, n) {
                if member.hit_spec(probe, window) is Some {
                    assert forall|k: int| 0 <= k < n - 1 implies ((
                    #[trigger] self.objects@[k]).hit_spec(&probes[k], ray_t) matches Some(other)
                        ==> rec.t.less(other.t)) by {
                        self.objects@[k].lemma_hit_in_window(&probes[k], ray_t);
                    }
                    assert(self.wins(probes, ray_t, n - 1, rec));
                } else {
                    let j = choose|j: int| j < m && #[trigger] self.wins(probes, ray_t, j, rec);
                }
            }
        }
    }
}

} // verus!
