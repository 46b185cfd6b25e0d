//! Rays: half-lines given by an origin and a direction.
use vstd::prelude::*;
use crate::scalar::Scalar;
use crate::vec3::{Point3, Vec3};

verus! {

/// The points `origin + t * direction`. The direction need not have unit
/// length.
#[derive(Clone, Copy, PartialEq, Eq, Structural, Debug)]
pub struct Ray {
    pub direction: Vec3,
    pub origin: Point3,
}

impl Ray {
    /// The point of the ray at parameter `t`.
    pub open spec fn at_spec(self, t: Scalar) -> Point3 {
        self.origin.add_spec(self.direction.scale_spec(t))
    }

    pub fn new(direction: Vec3, origin: Vec3) -> (r: Ray)
        ensures
            r.direction == direction,
            r.origin == origin,
    {
        Ray { direction, origin }
    }

    /// The point of the ray at parameter `t`, which may be any scalar.
    pub fn at(&self, t: Scalar) -> (p: Point3)
        ensures
            p == self.at_spec(t),
    {
        self.origin.add(self.direction.scale(t))
    }
}

} // verus!
