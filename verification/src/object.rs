//! Spheres.

use crate::hitable::HitRecord;
use crate::scalar::Scalar;
use crate::vec3::Vec3;
use vstd::prelude::*;

verus! {

/// A sphere with the material of its surface.
pub struct Sphere<M> {
    pub center: Vec3,
    pub radius: Scalar,
    pub material: M,
}

impl<M> Sphere<M> {
    pub fn new(center: Vec3, radius: Scalar, material: M) -> (r: Self)
        ensures
            r == (Sphere { center, radius, material }),
    {
        Sphere { center, radius, material }
    }

    /// The record of a crossing of this sphere at parameter `t`, point `p`
    /// and outward normal `normal`. It shares the sphere's material.
    pub fn record(&self, t: Scalar, p: Vec3, normal: Vec3) -> (r: HitRecord<'_, M>)
        ensures
            r == (HitRecord { t, p, normal, material: &self.material }),
    {
        HitRecord::new(t, p, normal, &self.material)
    }
}

/// The solution of the quadratic `a t^2 + 2 b t + c = 0` that a ray and a
/// sphere give rise to: `discriminant` is `b^2 - a c`, `near` is
/// `(-b - sqrt(discriminant)) / a` and `far` is `(-b + sqrt(discriminant)) / a`.
/// The two roots mean something only where the discriminant is positive.
#[derive(Clone, Copy, Debug)]
pub struct Roots {
    pub discriminant: Scalar,
    pub near: Scalar,
    pub far: Scalar,
}

impl Roots {
    /// Whether the ray crosses the sphere: a ray that only touches it
    /// (discriminant zero) does not.
    pub open spec fn crossing(self) -> bool {
        self.discriminant.gt_spec(Scalar { bits: 0 })
    }

    /// The parameter at which the ray is taken to hit the sphere inside the
    /// window `(t_min, t_max)`: the near root where it lies strictly inside,
    /// else the far root where that one does.
    pub open spec fn accepted(self, t_min: Scalar, t_max: Scalar) -> Option<Scalar> {
        if !self.crossing() {
            None
        } else if self.near.strictly_between(t_min, t_max) {
            Some(self.near)
        } else if self.far.strictly_between(t_min, t_max) {
            Some(self.far)
        } else {
            None
        }
    }

    pub fn new(discriminant: Scalar, near: Scalar, far: Scalar) -> (r: Roots)
        ensures
            r == (Roots { discriminant, near, far }),
    {
        Roots { discriminant, near, far }
    }

    /// The root at which the sphere is hit inside `(t_min, t_max)`, if any.
    pub fn first_inside(&self, t_min: Scalar, t_max: Scalar) -> (r: Option<Scalar>)
        ensures
            r == self.accepted(t_min, t_max),
    {
        if self.discriminant.gt(Scalar::zero()) {
            if self.near.is_strictly_between(t_min, t_max) {
                return Some(self.near);
            }
            if self.far.is_strictly_between(t_min, t_max) {
                return Some(self.far);
            }
        }
        None
    }

    /// The three ways a ray can pass a sphere. A ray that misses or only
    /// touches the sphere hits nothing. A ray that reaches the sphere from
    /// outside inside the window hits it at the near root. A ray that starts
    /// inside the sphere, so that the near root lies at or behind the start
    /// of the window, hits it at the far root or not at all.
    pub proof fn accepted_by_position(self, t_min: Scalar, t_max: Scalar)
        ensures
            !self.crossing() ==> self.accepted(t_min, t_max) is None,
            self.crossing() && self.near.strictly_between(t_min, t_max)
                ==> self.accepted(t_min, t_max) == Some(self.near),
            self.crossing() && !t_min.lt_spec(self.near) && self.far.strictly_between(t_min, t_max)
                ==> self.accepted(t_min, t_max) == Some(self.far),
            self.crossing() && !t_min.lt_spec(self.near) && !self.far.strictly_between(t_min, t_max)
                ==> self.accepted(t_min, t_max) is None,
    {
    }

    /// The accepted root is the nearest root inside the window, as long as
    /// the far root is not the nearer of the two; and where none is accepted,
    /// the ray misses the sphere or neither root lies inside the window.
    pub proof fn accepted_is_nearest(self, t_min: Scalar, t_max: Scalar)
        requires
            !self.far.lt_spec(self.near),
        ensures
            match self.accepted(t_min, t_max) {
                Some(t) => {
                    &&& self.crossing()
                    &&& t == self.near || t == self.far
                    &&& t.strictly_between(t_min, t_max)
                    &&& self.near.strictly_between(t_min, t_max) ==> !self.near.lt_spec(t)
                    &&& self.far.strictly_between(t_min, t_max) ==> !self.far.lt_spec(t)
                },
                None => self.crossing() ==> {
                    &&& !self.near.strictly_between(t_min, t_max)
                    &&& !self.far.strictly_between(t_min, t_max)
                },
            },
    {
    }

    /// Narrowing the window from above never brings a farther root in: what
    /// is accepted in the narrower window is what was accepted in the wider
    /// one, if that still lies inside, and nothing otherwise.
    pub proof fn accepted_under_narrowing(self, t_min: Scalar, t_max: Scalar, narrower: Scalar)
        requires
            !self.far.lt_spec(self.near),
            !t_max.lt_spec(narrower),
            !t_max.is_nan_spec(),
        ensures
            self.accepted(t_min, narrower) == match self.accepted(t_min, t_max) {
                Some(t) => if t.lt_spec(narrower) {
                    Some(t)
                } else {
                    None
                },
                None => None,
            },
    {
    }
}

} // verus!
