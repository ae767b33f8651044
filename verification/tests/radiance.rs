use ray_tracer::hitable::Quadratic;
use ray_tracer::radiance::{color, Shade, MAX_DEPTH, T_MAX_BITS, T_MIN_BITS};
use ray_tracer::scalar::Scalar;

fn s(x: f32) -> Scalar {
    Scalar::from_bits(x.to_bits())
}

fn q(d: f32, near: f32, far: f32) -> Quadratic {
    Quadratic::new(s(d), s(near), s(far))
}

#[test]
fn window_and_depth_constants() {
    assert_eq!(T_MIN_BITS, 0.001f32.to_bits());
    assert_eq!(T_MAX_BITS, f32::MAX.to_bits());
    assert_eq!(MAX_DEPTH, 50);
}

#[test]
fn ray_that_meets_nothing_sees_the_sky() {
    assert_eq!(color(&Vec::new(), 0), Shade::Sky);
    assert_eq!(color(&vec![q(-1.0, 1.0, 2.0)], 0), Shade::Sky);
    assert_eq!(color(&vec![q(1.0, -2.0, -1.0)], 0), Shade::Sky);
    assert_eq!(color(&vec![q(1.0, -2.0, -1.0)], 50), Shade::Sky);
    assert_eq!(color(&vec![q(1.0, -2.0, -1.0)], 1000), Shade::Sky);
}

#[test]
fn ray_that_meets_a_surface_goes_on_one_level_deeper() {
    let world = vec![q(1.0, 4.0, 5.0), q(1.0, 2.0, 3.0)];
    assert_eq!(
        color(&world, 0),
        Shade::Scatter { index: 1, t: s(2.0), depth: 1 }
    );
    assert_eq!(
        color(&world, 17),
        Shade::Scatter { index: 1, t: s(2.0), depth: 18 }
    );
    assert_eq!(
        color(&world, 49),
        Shade::Scatter { index: 1, t: s(2.0), depth: 50 }
    );
    assert_eq!(
        color(&world, -3),
        Shade::Scatter { index: 1, t: s(2.0), depth: -2 }
    );
    assert_eq!(
        color(&world, i32::MIN),
        Shade::Scatter { index: 1, t: s(2.0), depth: i32::MIN + 1 }
    );
}

#[test]
fn ray_at_the_depth_cap_is_black_where_it_hits() {
    let world = vec![q(1.0, 4.0, 5.0), q(1.0, 2.0, 3.0)];
    assert_eq!(color(&world, 50), Shade::Black);
    assert_eq!(color(&world, 51), Shade::Black);
    assert_eq!(color(&world, i32::MAX), Shade::Black);
}

#[test]
fn hit_closer_than_a_thousandth_is_passed_over() {
    assert_eq!(
        color(&vec![q(1.0, 0.0005, 3.0)], 0),
        Shade::Scatter { index: 0, t: s(3.0), depth: 1 }
    );
    assert_eq!(
        color(&vec![q(1.0, 0.001, 3.0)], 0),
        Shade::Scatter { index: 0, t: s(3.0), depth: 1 }
    );
    assert_eq!(
        color(&vec![q(1.0, 0.0010000002, 3.0)], 0),
        Shade::Scatter { index: 0, t: s(0.0010000002), depth: 1 }
    );
    assert_eq!(color(&vec![q(1.0, 0.0, 0.0005)], 0), Shade::Sky);
}

#[test]
fn hit_at_the_largest_value_or_beyond_is_passed_over() {
    assert_eq!(color(&vec![q(1.0, f32::MAX, f32::INFINITY)], 0), Shade::Sky);
    assert_eq!(
        color(&vec![q(1.0, 3.4028233e38, f32::INFINITY)], 0),
        Shade::Scatter { index: 0, t: s(3.4028233e38), depth: 1 }
    );
}

#[test]
fn path_in_a_closed_world_bounces_fifty_times() {
    let world = vec![q(1.0, 1.0, 2.0)];
    let mut depth = 0;
    let mut bounces = 0;
    let last = loop {
        match color(&world, depth) {
            Shade::Scatter { depth: next, .. } => {
                bounces += 1;
                depth = next;
            }
            other => break other,
        }
    };
    assert_eq!(bounces, 50);
    assert_eq!(last, Shade::Black);
}
