//! Three scalars: a point, a direction or a colour.

use vstd::prelude::*;
use crate::scalar::Scalar;

verus! {

/// Three single-precision components. The same type serves as a point, as
/// a direction and as a red-green-blue colour.
#[derive(Clone, Copy, Debug, PartialEq, Eq, Structural)]
pub struct Vec3 {
    pub x: Scalar,
    pub y: Scalar,
    pub z: Scalar,
}

impl Vec3 {
    pub fn new(x: Scalar, y: Scalar, z: Scalar) -> (v: Vec3)
        ensures
            v.x == x,
            v.y == y,
            v.z == z,
    {
        Vec3 { x, y, z }
    }

    /// The opposite vector: every component with its sign bit flipped.
    pub fn neg(self) -> (v: Vec3)
        ensures
            v.x.magnitude() == self.x.magnitude() && v.x.sign() != self.x.sign(),
            v.y.magnitude() == self.y.magnitude() && v.y.sign() != self.y.sign(),
            v.z.magnitude() == self.z.magnitude() && v.z.sign() != self.z.sign(),
    {
        Vec3 { x: self.x.neg(), y: self.y.neg(), z: self.z.neg() }
    }
}

} // verus!
