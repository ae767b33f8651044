//! How far a path of bounces goes.

use vstd::prelude::*;
use crate::hitable::{all_wf, closest, hit, is_nearest, Quadratic};
use crate::scalar::Scalar;

verus! {

/// The depth from which a ray that hits a surface bounces no more.
pub const MAX_DEPTH: i32 = 50;

/// The pattern of 0.001, below which a hit is taken for the surface that
/// the ray has just left.
pub const T_MIN_BITS: u32 = 0x3a83_126f;

/// The pattern of the largest finite value.
pub const T_MAX_BITS: u32 = 0x7f7f_ffff;

/// What becomes of a ray.
#[derive(Clone, Copy, Debug, PartialEq, Eq, Structural)]
pub enum Shade {
    /// The ray meets nothing: it has the colour of the sky.
    Sky,
    /// The ray meets a surface too deep in its path: it is black.
    Black,
    /// The ray meets the surface at `index` at parameter `t`. If that
    /// surface's material scatters it, the scattered ray goes on at
    /// `depth`; if not, the ray is black.
    Scatter { index: usize, t: Scalar, depth: i32 },
}

/// The number of bounces that a ray at `depth` may still make.
pub open spec fn bounces_left(depth: i32) -> nat {
    if depth < MAX_DEPTH {
        (MAX_DEPTH - depth) as nat
    } else {
        0
    }
}

/// What becomes of a ray at `depth` whose nearest hit is `nearest`.
pub open spec fn shade(nearest: Option<(int, Scalar)>, depth: i32) -> Shade {
    match nearest {
        None => Shade::Sky,
        Some((i, t)) => if depth < MAX_DEPTH {
            Shade::Scatter { index: i as usize, t, depth: (depth + 1) as i32 }
        } else {
            Shade::Black
        },
    }
}

/// What becomes of a ray at `depth` in a world of surfaces, each given by
/// the quadratic of the ray against it. Hits count from 0.001 on.
///
/// A ray that goes on does so one level deeper, so that a path from depth
/// zero bounces fifty times at most.
pub fn color(world: &[Quadratic], depth: i32) -> (s: Shade)
    ensures
        s == shade(
            closest(world@, Scalar { bits: T_MIN_BITS }, Scalar { bits: T_MAX_BITS }),
            depth,
        ),
        all_wf(world@) ==> is_nearest(
            world@,
            Scalar { bits: T_MIN_BITS },
            Scalar { bits: T_MAX_BITS },
            closest(world@, Scalar { bits: T_MIN_BITS }, Scalar { bits: T_MAX_BITS }),
        ),
        depth >= MAX_DEPTH ==> !(s is Scatter),
        s matches Shade::Scatter { depth: next, .. } ==> bounces_left(next) < bounces_left(depth),
{
    match hit(world, Scalar::from_bits(T_MIN_BITS), Scalar::from_bits(T_MAX_BITS)) {
        None => Shade::Sky,
        Some(h) => if depth < MAX_DEPTH {
            Shade::Scatter { index: h.index, t: h.t, depth: depth + 1 }
        } else {
            Shade::Black
        },
    }
}

} // verus!
