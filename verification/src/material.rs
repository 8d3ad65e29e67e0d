//! Materials: what becomes of a ray where it meets a surface.

use crate::hitable::HitRecord;
use crate::ray::Ray;
use crate::scalar::Scalar;
use crate::vec3::Vec3;
use vstd::prelude::*;

verus! {

/// How a surface answers an incoming ray.
///
/// `scatter` returns the attenuation, the colour by which light gathered
/// along the scattered ray is multiplied, and the scattered ray itself, or
/// `None` where the ray is absorbed. A material may draw random numbers, so
/// nothing is promised of the result.
pub trait Material: Sized {
    fn scatter(&self, ray_in: &Ray, hit_record: &HitRecord<Self>) -> (Vec3, Option<Ray>);
}

/// Whether `out` is an answer that the material of `hit_record` can give
/// when it is asked to scatter `ray_in` there.
pub open spec fn scatters<M: Material>(
    ray_in: Ray,
    hit_record: HitRecord<M>,
    out: (Vec3, Option<Ray>),
) -> bool {
    call_ensures(M::scatter, (hit_record.material, &ray_in, &hit_record), out)
}

/// A diffuse surface: it scatters every ray and tints it by its albedo.
#[derive(Debug, PartialEq, Clone, Copy)]
pub struct Lambertian {
    pub albedo: Vec3,
}

/// A mirror: it reflects a ray about the normal and tints it by its albedo.
#[derive(Debug, PartialEq, Clone, Copy)]
pub struct Metal {
    pub albedo: Vec3,
}

impl Lambertian {
    /// The answer of a diffuse surface once the scatter direction has been
    /// drawn: the ray leaves the hit point in that direction, always.
    pub fn scatter_along<M>(&self, hit_record: &HitRecord<M>, direction: Vec3) -> (r: (
        Vec3,
        Option<Ray>,
    ))
        ensures
            r.0 == self.albedo,
            r.1 == Some(Ray { a: hit_record.p, b: direction }),
    {
        (self.albedo, Some(Ray::new(hit_record.p, direction)))
    }
}

impl Metal {
    /// The answer of a mirror once the reflected direction and its dot
    /// product with the surface normal have been computed: the reflected ray
    /// leaves the hit point if it points away from the surface, that is if
    /// `facing > 0`, and is absorbed otherwise.
    pub fn scatter_reflected<M>(
        &self,
        hit_record: &HitRecord<M>,
        reflected: Vec3,
        facing: Scalar,
    ) -> (r: (Vec3, Option<Ray>))
        ensures
            r.0 == self.albedo,
            r.1 == if facing.gt_spec(Scalar { bits: 0 }) {
                Some(Ray { a: hit_record.p, b: reflected })
            } else {
                None
            },
    {
        let scattered = if facing.gt(Scalar::zero()) {
            Some(Ray::new(hit_record.p, reflected))
        } else {
            None
        };
        (self.albedo, scattered)
    }
}

/// Whether a point whose squared distance from the origin is
/// `squared_length` lies inside the unit ball. The boundary is outside:
/// a sampler that draws points from the enclosing cube keeps those for which
/// this holds and draws again otherwise.
pub fn inside_unit_sphere(squared_length: Scalar) -> (r: bool)
    ensures
        r == squared_length.lt_spec(Scalar { bits: crate::scalar::ONE_BITS }),
{
    squared_length.lt(Scalar::one())
}

} // verus!
