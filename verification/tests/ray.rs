use raytracerust::ray::Ray;
use raytracerust::scalar::Scalar;
use raytracerust::vec3::{Point3, Vec3};

/// The scalar nearest to `x`.
fn s(x: f32) -> Scalar {
    Scalar { raw: (x as f64 * 4294967296.0).round() as i64 }
}

#[test]
fn construction_1() {
    let origin = Point3::from((s(0.), s(0.), s(0.)));
    let direction = Vec3(s(1.), s(1.), s(1.));
    let arg = s(50f32);
    let expected = (s(50f32), s(50f32), s(50f32));

    let input = Ray { direction, origin };

    assert_eq!(input.at(arg), Point3::from(expected));
}

#[test]
fn new_keeps_direction_and_origin() {
    let r = Ray::new(Vec3(s(1.), s(2.), s(3.)), Vec3(s(4.), s(5.), s(6.)));
    assert_eq!(r.direction, Vec3(s(1.), s(2.), s(3.)));
    assert_eq!(r.origin, Vec3(s(4.), s(5.), s(6.)));
}

#[test]
fn at_takes_any_parameter() {
    let r = Ray::new(Vec3(s(1.), s(-2.), s(0.5)), Vec3(s(4.), s(5.), s(6.)));
    assert_eq!(r.at(s(0.)), r.origin);
    assert_eq!(r.at(s(-2.)), Vec3(s(2.), s(9.), s(5.)));
    assert_eq!(r.at(s(0.5)), Vec3(s(4.5), s(4.), s(6.25)));
}
