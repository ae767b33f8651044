//! What a surface does with a ray that meets it: scatter or absorb.

use vstd::prelude::*;
use crate::ray::Ray;
use crate::scalar::{Scalar, ONE_BITS};
use crate::vec3::Vec3;

verus! {

/// How a ray leaves a surface: the colour that the bounce is multiplied by
/// and the ray that goes on, or none where the surface absorbs the ray.
pub type ScatterResult = Option<(Vec3, Ray)>;

/// A diffuse surface. It scatters every ray.
#[derive(Clone, Copy, Debug, PartialEq, Eq)]
pub struct Lambertian {
    albedo: Vec3,
}

/// A mirroring surface. It scatters a ray that leaves on the outer side and
/// absorbs any other. Its fuzz, which blurs the mirror image, never lies
/// below zero or above one.
#[derive(Clone, Copy, Debug, PartialEq, Eq)]
pub struct Metal {
    albedo: Vec3,
    fuzz: Scalar,
}

/// The material of a surface.
#[derive(Clone, Copy, Debug, PartialEq, Eq)]
pub enum Material {
    Lambertian(Lambertian),
    Metal(Metal),
}

impl Lambertian {
    /// The share of light, per colour channel, that the surface gives back.
    pub closed spec fn spec_albedo(&self) -> Vec3 {
        self.albedo
    }

    pub fn new(albedo: Vec3) -> (m: Lambertian)
        ensures
            m.spec_albedo() == albedo,
    {
        Lambertian { albedo }
    }

    #[verifier::when_used_as_spec(spec_albedo)]
    pub fn albedo(&self) -> (a: Vec3)
        ensures
            a == self.spec_albedo(),
    {
        self.albedo
    }

    /// Scatters along `scattered`, attenuated by the albedo.
    pub fn scatter(&self, scattered: Ray) -> (res: ScatterResult)
        ensures
            res == Some((self.spec_albedo(), scattered)),
    {
        Some((self.albedo, scattered))
    }
}

impl Metal {
    #[verifier::type_invariant]
    spec fn fuzz_in_range(self) -> bool {
        Metal::spec_clamp(self.fuzz) == self.fuzz
    }

    /// The share of light, per colour channel, that the surface gives back.
    pub closed spec fn spec_albedo(&self) -> Vec3 {
        self.albedo
    }

    /// How far the mirror image is blurred.
    pub closed spec fn spec_fuzz(&self) -> Scalar {
        self.fuzz
    }

    /// A fuzz brought into the range from zero to one: zero for a fuzz
    /// below zero, one for a fuzz above one, and else the fuzz itself.
    pub open spec fn spec_clamp(fuzz: Scalar) -> Scalar {
        if fuzz.spec_lt(Scalar { bits: 0 }) {
            Scalar { bits: 0 }
        } else if fuzz.spec_gt(Scalar { bits: ONE_BITS }) {
            Scalar { bits: ONE_BITS }
        } else {
            fuzz
        }
    }

    pub fn new(albedo: Vec3, fuzz: Scalar) -> (m: Metal)
        ensures
            m.spec_albedo() == albedo,
            m.spec_fuzz() == Metal::spec_clamp(fuzz),
    {
        let fuzz = if fuzz.lt(Scalar::zero()) {
            Scalar::zero()
        } else if fuzz.gt(Scalar::one()) {
            Scalar::one()
        } else {
            fuzz
        };
        Metal { albedo, fuzz }
    }

    #[verifier::when_used_as_spec(spec_albedo)]
    pub fn albedo(&self) -> (a: Vec3)
        ensures
            a == self.spec_albedo(),
    {
        self.albedo
    }

    #[verifier::when_used_as_spec(spec_fuzz)]
    pub fn fuzz(&self) -> (f: Scalar)
        ensures
            f == self.spec_fuzz(),
            !f.spec_lt(Scalar { bits: 0 }),
            !f.spec_gt(Scalar { bits: ONE_BITS }),
    {
        proof {
            use_type_invariant(self);
        }
        self.fuzz
    }

    /// Scatters along `scattered`, attenuated by the albedo, if that ray
    /// leaves the surface on its outer side: `facing`, the dot product of
    /// the ray's direction with the surface normal, is greater than zero.
    pub fn scatter(&self, scattered: Ray, facing: Scalar) -> (res: ScatterResult)
        ensures
            res == (if facing.spec_gt(Scalar { bits: 0 }) {
                Some((self.spec_albedo(), scattered))
            } else {
                None
            }),
    {
        if facing.gt(Scalar::zero()) {
            Some((self.albedo, scattered))
        } else {
            None
        }
    }
}

impl Material {
    /// The share of light, per colour channel, that the surface gives back.
    pub open spec fn spec_albedo(self) -> Vec3 {
        match self {
            Material::Lambertian(m) => m.spec_albedo(),
            Material::Metal(m) => m.spec_albedo(),
        }
    }

    /// Whether the material scatters a ray whose direction has the dot
    /// product `facing` with the surface normal.
    pub open spec fn scatters(self, facing: Scalar) -> bool {
        self is Lambertian || facing.spec_gt(Scalar { bits: 0 })
    }

    /// Scatters along `scattered`, attenuated by the albedo, or absorbs.
    pub fn scatter(&self, scattered: Ray, facing: Scalar) -> (res: ScatterResult)
        ensures
            res == (if self.scatters(facing) {
                Some((self.spec_albedo(), scattered))
            } else {
                None
            }),
    {
        match self {
            Material::Lambertian(m) => m.scatter(scattered),
            Material::Metal(m) => m.scatter(scattered, facing),
        }
    }
}

/// Keeps a point that lies inside the unit sphere: `squared_length`, the
/// point's dot product with itself, is not one or more.
pub fn in_unit_sphere(p: Vec3, squared_length: Scalar) -> (res: Option<Vec3>)
    ensures
        res == (if squared_length.spec_ge(Scalar { bits: ONE_BITS }) {
            None
        } else {
            Some(p)
        }),
{
    if squared_length.ge(Scalar::one()) {
        None
    } else {
        Some(p)
    }
}

} // verus!
