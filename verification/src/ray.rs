//! A ray: where it starts and where it heads.

use vstd::prelude::*;
use crate::vec3::Vec3;

verus! {

/// An origin and a direction. The direction need not have length one.
#[derive(Clone, Copy, Debug, PartialEq, Eq, Structural)]
pub struct Ray {
    pub origin: Vec3,
    pub direction: Vec3,
}

impl Ray {
    pub fn new(origin: Vec3, direction: Vec3) -> (r: Ray)
        ensures
            r.origin == origin,
            r.direction == direction,
    {
        Ray { origin, direction }
    }

    pub fn origin(&self) -> (o: Vec3)
        ensures
            o == self.origin,
    {
        self.origin
    }

    pub fn direction(&self) -> (d: Vec3)
        ensures
            d == self.direction,
    {
        self.direction
    }
}

} // verus!
