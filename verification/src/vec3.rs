//! Three scalars: a point, a direction or an RGB colour.

use crate::scalar::Scalar;
use vstd::prelude::*;

verus! {

/// Three scalars, used alike as a point, a direction and an RGB colour.
#[derive(Clone, Copy, Debug)]
pub struct Vec3 {
    pub e: [Scalar; 3],
}

impl Vec3 {
    /// The components as a sequence of length 3.
    pub open spec fn view(self) -> Seq<Scalar> {
        self.e@
    }

    /// The vector with the sign bit of every component flipped.
    pub open spec fn negated(self) -> Vec3 {
        Vec3 { e: [self.e[0].neg_spec(), self.e[1].neg_spec(), self.e[2].neg_spec()] }
    }

    /// Component by component, the IEEE 754 `==`.
    pub open spec fn same_value(self, other: Vec3) -> bool {
        &&& self.e[0].same_value(other.e[0])
        &&& self.e[1].same_value(other.e[1])
        &&& self.e[2].same_value(other.e[2])
    }

    pub fn new(e0: Scalar, e1: Scalar, e2: Scalar) -> (r: Vec3)
        ensures
            r == (Vec3 { e: [e0, e1, e2] }),
            r@ == seq![e0, e1, e2],
    {
        Vec3 { e: [e0, e1, e2] }
    }

    pub fn x(&self) -> (r: Scalar)
        ensures
            r == self@[0],
    {
        self.e[0]
    }

    pub fn y(&self) -> (r: Scalar)
        ensures
            r == self@[1],
    {
        self.e[1]
    }

    pub fn z(&self) -> (r: Scalar)
        ensures
            r == self@[2],
    {
        self.e[2]
    }

    /// The first component, read as the red channel.
    pub fn r(&self) -> (r: Scalar)
        ensures
            r == self@[0],
    {
        self.e[0]
    }

    /// The second component, read as the green channel.
    pub fn g(&self) -> (r: Scalar)
        ensures
            r == self@[1],
    {
        self.e[1]
    }

    /// The third component, read as the blue channel.
    pub fn b(&self) -> (r: Scalar)
        ensures
            r == self@[2],
    {
        self.e[2]
    }

    /// Writes one component and leaves the other two as they were.
    pub fn set(&mut self, index: usize, value: Scalar)
        requires
            index < 3,
        ensures
            final(self)@ == old(self)@.update(index as int, value),
    {
        self.e[index] = value;
    }
}

impl PartialEq for Vec3 {
    /// Two vectors are equal when their components are, as IEEE 754 compares
    /// them: a vector with a NaN in it equals nothing, itself included.
    fn eq(&self, other: &Vec3) -> (r: bool) {
        self.e[0] == other.e[0] && self.e[1] == other.e[1] && self.e[2] == other.e[2]
    }
}

impl vstd::std_specs::cmp::PartialEqSpecImpl for Vec3 {
    open spec fn obeys_eq_spec() -> bool {
        true
    }

    open spec fn eq_spec(&self, other: &Vec3) -> bool {
        self.same_value(*other)
    }
}

impl std::ops::Neg for Vec3 {
    type Output = Vec3;

    fn neg(self) -> (r: Vec3) {
        Vec3::new(self.e[0].negate(), self.e[1].negate(), self.e[2].negate())
    }
}

impl vstd::std_specs::ops::NegSpecImpl for Vec3 {
    open spec fn obeys_neg_spec() -> bool {
        true
    }

    open spec fn neg_req(self) -> bool {
        true
    }

    open spec fn neg_spec(self) -> Vec3 {
        self.negated()
    }
}

impl std::ops::Index<usize> for Vec3 {
    type Output = Scalar;

    fn index(&self, index: usize) -> (r: &Scalar)
        ensures
            *r == self@[index as int],
    {
        &self.e[index]
    }
}

impl vstd::std_specs::core::IndexSpecImpl<usize> for Vec3 {
    open spec fn index_req(&self, index: &usize) -> bool {
        *index < 3
    }
}

} // verus!
