use ray_tracer::ray::Ray;
use ray_tracer::scalar::Scalar;
use ray_tracer::vec3::Vec3;

fn s(x: f32) -> Scalar {
    Scalar::from_bits(x.to_bits())
}

#[test]
fn vector_holds_its_three_components() {
    let v = Vec3::new(s(1.0), s(-2.5), s(0.001));
    assert_eq!(v.x, s(1.0));
    assert_eq!(v.y, s(-2.5));
    assert_eq!(v.z, s(0.001));
    assert_eq!(v, Vec3 { x: s(1.0), y: s(-2.5), z: s(0.001) });
}

#[test]
fn opposite_vector_has_every_sign_flipped() {
    let v = Vec3::new(s(1.0), s(-2.5), s(0.0));
    assert_eq!(v.neg(), Vec3::new(s(-1.0), s(2.5), s(-0.0)));
    assert_eq!(v.neg().neg(), v);
    let w = Vec3::new(s(f32::INFINITY), s(f32::NAN), s(-1.0e-45)).neg();
    assert_eq!(w.x, s(f32::NEG_INFINITY));
    assert!(w.y.is_nan());
    assert_eq!(w.y.to_bits(), (-f32::NAN).to_bits());
    assert_eq!(w.z, s(1.0e-45));
}

#[test]
fn ray_holds_origin_and_direction() {
    let o = Vec3::new(s(0.0), s(0.0), s(0.0));
    let d = Vec3::new(s(-2.0), s(-1.0), s(-1.0));
    let r = Ray::new(o, d);
    assert_eq!(r.origin(), o);
    assert_eq!(r.direction(), d);
    assert_eq!(r, Ray { origin: o, direction: d });
}
