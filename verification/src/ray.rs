//! Rays: an origin and a direction.

use crate::vec3::Vec3;
use vstd::prelude::*;

verus! {

/// A half-line: the points `origin + t * direction` for `t >= 0`.
/// The direction need not have unit length.
#[derive(Clone, Copy, Debug)]
pub struct Ray {
    pub a: Vec3,
    pub b: Vec3,
}

impl Ray {
    pub fn new(a: Vec3, b: Vec3) -> (r: Ray)
        ensures
            r == (Ray { a, b }),
    {
        Ray { a, b }
    }

    pub fn origin(&self) -> (r: Vec3)
        ensures
            r == self.a,
    {
        self.a
    }

    pub fn direction(&self) -> (r: Vec3)
        ensures
            r == self.b,
    {
        self.b
    }
}

} // verus!
