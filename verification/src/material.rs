//! How a surface scatters a ray: diffusely, as a fuzzed mirror, or as glass
//! that reflects or refracts.
use crate::color::Color;
use crate::hittable::HitRecord;
use crate::ray::Ray;
use crate::scalar::{Scalar, ONE_BITS};
use crate::vec3::Vec3;
use vstd::prelude::*;

verus! {

/// A surface's way of scattering the ray that hit it.
pub trait Material {
    /// What the caller's arithmetic and random draws supply for one
    /// scattering.
    type Sample;

    /// The attenuation and the scattered ray, or nothing where the ray is
    /// absorbed.
    spec fn scatter_spec(&self, hit_record: &HitRecord, sample: &Self::Sample) -> Option<
        (Color, Ray),
    >;

    /// Scatters the ray that hit at `hit_record`: the scattered ray starts
    /// at the point that was hit.
    fn scatter(&self, hit_record: &HitRecord, sample: &Self::Sample) -> (r: Option<(Color, Ray)>)
        ensures
            r == self.scatter_spec(hit_record, sample),
            r matches Some((_, scattered)) ==> scattered.origin == hit_record.p,
    ;
}

/// A diffuse surface.
#[derive(Clone, Copy, Debug)]
pub struct Lambertian {
    pub albedo: Color,
}

/// What a diffuse scattering reads.
#[derive(Clone, Copy, Debug)]
pub struct LambertianSample {
    /// The normal at the hit plus a random unit vector.
    pub scatter_direction: Vec3,
}

impl Lambertian {
    /// The direction of the scattered ray: the sampled one, or the normal
    /// where the sampled one is too short to give a direction.
    pub open spec fn direction(normal: Vec3, scatter_direction: Vec3) -> Vec3 {
        if scatter_direction.spec_near_zero() {
            normal
        } else {
            scatter_direction
        }
    }
}

impl Material for Lambertian {
    type Sample = LambertianSample;

    open spec fn scatter_spec(&self, hit_record: &HitRecord, sample: &LambertianSample) -> Option<
        (Color, Ray),
    > {
        Some(
            (
                self.albedo,
                Ray {
                    origin: hit_record.p,
                    direction: Lambertian::direction(hit_record.normal, sample.scatter_direction),
                },
            ),
        )
    }

    /// Always scatters, with the albedo as attenuation.
    fn scatter(&self, hit_record: &HitRecord, sample: &LambertianSample) -> (r: Option<
        (Color, Ray),
    >) {
        let mut scatter_direction = sample.scatter_direction;
        if scatter_direction.near_zero() {
            scatter_direction = hit_record.normal;
        }
        Some((self.albedo, Ray { origin: hit_record.p, direction: scatter_direction }))
    }
}

/// A diffuse scattering gives a direction: where the normal is a number in
/// every component and is not near zero, and the sampled direction holds no
/// NaN, the scattered direction holds no NaN and is not near zero.
pub proof fn lemma_lambertian_gives_a_direction(normal: Vec3, scatter_direction: Vec3)
    requires
        !normal.has_nan(),
        !normal.spec_near_zero(),
        !scatter_direction.has_nan(),
    ensures
        !Lambertian::direction(normal, scatter_direction).has_nan(),
        !Lambertian::direction(normal, scatter_direction).spec_near_zero(),
{
}

/// A mirror, blurred by `fuzz`.
#[derive(Clone, Copy, Debug)]
pub struct Metal {
    pub albedo: Color,
    pub fuzz: Scalar,
}

/// What a metallic scattering reads.
#[derive(Clone, Copy, Debug)]
pub struct MetalSample {
    /// The unit vector of the reflected direction plus `fuzz` times a random
    /// unit vector.
    pub direction: Vec3,
    /// The dot product of `direction` and the normal at the hit.
    pub direction_dot_normal: Scalar,
}

impl Metal {
    /// `fuzz`, cut to 1 from above.
    pub open spec fn spec_fuzz(fuzz: Scalar) -> Scalar {
        if (Scalar { bits: ONE_BITS }).less(fuzz) {
            Scalar { bits: ONE_BITS }
        } else {
            fuzz
        }
    }

    /// The fuzz is not above 1.
    pub open spec fn well_formed(&self) -> bool {
        !(Scalar { bits: ONE_BITS }).less(self.fuzz)
    }

    /// The metal of this albedo, its fuzz cut to 1 from above.
    pub fn new(albedo: Color, fuzz: Scalar) -> (r: Metal)
        ensures
            r.albedo == albedo,
            r.fuzz == Metal::spec_fuzz(fuzz),
            r.well_formed(),
    {
        Metal {
            albedo,
            fuzz: if fuzz.gt(Scalar::one()) {
                Scalar::one()
            } else {
                fuzz
            },
        }
    }
}

impl Material for Metal {
    type Sample = MetalSample;

    open spec fn scatter_spec(&self, hit_record: &HitRecord, sample: &MetalSample) -> Option<
        (Color, Ray),
    > {
        if (Scalar { bits: 0 }).less(sample.direction_dot_normal) {
            Some((self.albedo, Ray { origin: hit_record.p, direction: sample.direction }))
        } else {
            None
        }
    }

    /// Scatters along the fuzzed reflection where that leaves the surface,
    /// and absorbs the ray where it points into it.
    fn scatter(&self, hit_record: &HitRecord, sample: &MetalSample) -> (r: Option<(Color, Ray)>) {
        if sample.direction_dot_normal.gt(Scalar::zero()) {
            Some((self.albedo, Ray { origin: hit_record.p, direction: sample.direction }))
        } else {
            None
        }
    }
}

/// Glass and the like.
#[derive(Clone, Copy, Debug)]
pub struct Dielectric {
    pub refraction_index: Scalar,
}

/// What a refractive scattering reads. With `ri` the refraction ratio at the
/// hit and `cos_theta` the smaller of 1 and the dot product of the reversed
/// unit direction with the normal:
#[derive(Clone, Copy, Debug)]
pub struct DielectricSample {
    /// `ri` times the sine that belongs to `cos_theta`.
    pub ratio_sine: Scalar,
    /// The reflectance at `cos_theta` and `ri`.
    pub reflectance: Scalar,
    /// A uniform draw from [0, 1).
    pub draw: Scalar,
    /// The unit direction, reflected at the normal.
    pub reflected: Vec3,
    /// The unit direction, refracted at the normal with ratio `ri`.
    pub refracted: Vec3,
}

impl DielectricSample {
    /// Whether the ray is reflected: it cannot be refracted, `ratio_sine`
    /// being above 1, or the reflectance is above the draw.
    pub open spec fn reflects(self) -> bool {
        (Scalar { bits: ONE_BITS }).less(self.ratio_sine) || self.draw.less(self.reflectance)
    }
}

impl Dielectric {
    /// The refraction ratio at a hit: the reciprocal of the index where the
    /// ray enters through the front face, the index where it leaves.
    pub fn refraction_ratio(&self, front_face: bool, reciprocal: Scalar) -> (r: Scalar)
        ensures
            r == if front_face {
                reciprocal
            } else {
                self.refraction_index
            },
    {
        if front_face {
            reciprocal
        } else {
            self.refraction_index
        }
    }
}

impl Material for Dielectric {
    type Sample = DielectricSample;

    open spec fn scatter_spec(&self, hit_record: &HitRecord, sample: &DielectricSample) -> Option<
        (Color, Ray),
    > {
        Some(
            (
                Color::spec_white(),
                Ray {
                    origin: hit_record.p,
                    direction: if sample.reflects() {
                        sample.reflected
                    } else {
                        sample.refracted
                    },
                },
            ),
        )
    }

    /// Always scatters, without attenuation: reflected or refracted.
    fn scatter(&self, hit_record: &HitRecord, sample: &DielectricSample) -> (r: Option<
        (Color, Ray),
    >) {
        let cannot_refract = sample.ratio_sine.gt(Scalar::one());
        let direction = if cannot_refract || sample.reflectance.gt(sample.draw) {
            sample.reflected
        } else {
            sample.refracted
        };
        Some((Color::white(), Ray::new(hit_record.p, direction)))
    }
}

} // verus!
