use raytracerust::color::Color;
use raytracerust::hittable::Hittable;
use raytracerust::material::Lambertian;
use raytracerust::ray::Ray;
use raytracerust::scalar::{Scalar, ONE_RAW};
use raytracerust::sphere::Sphere;
use raytracerust::vec3::Vec3;

/// The scalar nearest to `x`.
fn s(x: f32) -> Scalar {
    Scalar { raw: (x as f64 * 4294967296.0).round() as i64 }
}

/// The real number that `x` stands for.
fn f(x: Scalar) -> f32 {
    (x.raw as f64 / 4294967296.0) as f32
}

#[test]
fn test_basic_hit() {
    let origin = Vec3(s(0.), s(0.), s(0.));
    let ray = Ray::new(Vec3(s(1.), s(1.), s(1.)), origin);

    let sphere = Sphere::from((s(5.), s(5.), s(5.), s(0.5)));

    assert!(sphere.hit(&ray, &(s(0f32)..s(100f32))).is_some());
}

#[test]
fn test_range_miss() {
    let origin = Vec3(s(0.), s(0.), s(0.));
    let ray = Ray::new(Vec3(s(1.), s(1.), s(1.)), origin);

    let sphere = Sphere::from((s(5.), s(5.), s(5.), s(0.5)));

    assert!(sphere.hit(&ray, &(s(0f32)..s(1f32))).is_none());
}

#[test]
fn test_range_miss_2() {
    let origin = Vec3(s(0.), s(0.), s(0.));
    let ray = Ray::new(Vec3(s(1.), s(1.), s(1.)), origin);

    let sphere = Sphere::from((s(-5.), s(-5.), s(-5.), s(0.5)));

    assert!(sphere.hit(&ray, &(s(0f32)..s(1f32))).is_none());
}

#[test]
fn hit_record_of_the_basic_hit() {
    let origin = Vec3(s(0.), s(0.), s(0.));
    let ray = Ray::new(Vec3(s(1.), s(1.), s(1.)), origin);
    let sphere = Sphere::from((s(5.), s(5.), s(5.), s(0.5)));

    let hit = sphere.hit(&ray, &(s(0f32)..s(100f32))).unwrap();
    assert_eq!(hit.t.raw, 20234986217);
    assert_eq!(hit.p, Vec3(hit.t, hit.t, hit.t));
    assert_eq!(
        hit.normal,
        Vec3(Scalar { raw: -2479700526 }, Scalar { raw: -2479700526 }, Scalar { raw: -2479700526 })
    );
    assert!(hit.front_face);
    assert_eq!(hit.material.albedo, Color::black());
}

#[test]
fn a_ray_aimed_at_the_centre_from_outside_hits_the_front() {
    let centers = [
        Vec3(s(0.), s(0.), s(-1.)),
        Vec3(s(3.), s(-4.), s(12.)),
        Vec3(s(-100.), s(200.), s(50.)),
    ];
    let origin = Vec3(s(0.5), s(0.25), s(2.));
    for center in centers {
        let sphere = Sphere::new(center, s(0.5), Lambertian::new(Color::black()));
        let ray = Ray::new(center - origin, origin);
        let hit = sphere.hit(&ray, &(s(0.)..Scalar::max_value())).unwrap();
        assert!(hit.t.raw > 0);
        assert!(hit.t.raw < ONE_RAW);
        assert!(hit.front_face);
        assert!(hit.normal.dot(&ray.direction).raw < 0);
        assert!((f(hit.normal.magnitude()) - 1.).abs() < 0.00001);
    }
}

#[test]
fn a_small_sphere_far_away_is_hit_in_front() {
    let center = Vec3(s(300.), s(-400.), s(1200.));
    let origin = Vec3(s(0.), s(0.), s(0.));
    let sphere = Sphere::new(center, Scalar { raw: 0x200_0000 }, Lambertian::new(Color::black()));
    let ray = Ray::new(center - origin, origin);
    let hit = sphere.hit(&ray, &(s(0.)..Scalar::max_value())).unwrap();
    assert!(0 < hit.t.raw && hit.t.raw < ONE_RAW);
    assert!(hit.front_face);
    assert!(hit.normal.dot(&ray.direction).raw < 0);
}

#[test]
fn a_short_direction_crosses_where_a_long_one_does() {
    let sphere = Sphere::new(Vec3(s(0.), s(0.), s(-3.)), s(1.), Lambertian::new(Color::black()));
    let origin = Vec3(s(0.), s(0.), s(0.));
    let short = Ray::new(Vec3(s(0.), s(0.), Scalar { raw: -98304 }), origin);
    let hit = sphere.hit(&short, &(s(0.001)..Scalar::max_value())).unwrap();
    assert_eq!(hit.t.raw, 375299968947541);
    assert!((f(hit.t) - 87381.33).abs() < 0.01);
    assert_eq!(hit.p, Vec3(s(0.), s(0.), Scalar { raw: -8589934591 }));
    assert_eq!(hit.normal, Vec3(s(0.), s(0.), Scalar { raw: 4294967297 }));
    assert!(hit.front_face);

    let unit = Ray::new(Vec3(s(0.), s(0.), s(-1.)), origin);
    let hit = sphere.hit(&unit, &(s(0.001)..Scalar::max_value())).unwrap();
    assert_eq!(hit.t, s(2.));
    assert_eq!(hit.p, Vec3(s(0.), s(0.), s(-2.)));
    assert_eq!(hit.normal, Vec3(s(0.), s(0.), s(1.)));

    let long = Ray::new(Vec3(s(0.), s(0.), s(-1000000.)), origin);
    let hit = sphere.hit(&long, &(Scalar { raw: 0 }..Scalar::max_value())).unwrap();
    assert_eq!(hit.t.raw, 8589);
    assert!(hit.front_face);
}

#[test]
fn a_large_sphere_far_away_is_crossed_where_it_is() {
    let center = Vec3(s(-301.75), s(-305.), s(26.5));
    let sphere = Sphere::new(center, s(251.5), Lambertian::new(Color::black()));
    let origin = Vec3(s(0.), s(0.), s(0.));
    let ray = Ray::new(center, origin);
    let hit = sphere.hit(&ray, &(s(0.001)..Scalar::max_value())).unwrap();
    assert!((f(hit.t) - 0.41492689).abs() < 0.0000001);
    assert!(hit.front_face);
    assert!((f(hit.normal.magnitude()) - 1.).abs() < 0.00000001);
    assert!((f(hit.p.sub(center).magnitude()) - 251.5).abs() < 0.0000001);

    let far = Vec3(s(30000.), s(-40000.), s(120000.));
    let big = Sphere::new(far, s(100000.), Lambertian::new(Color::black()));
    let hit = big.hit(&Ray::new(far, origin), &(s(0.001)..Scalar::max_value())).unwrap();
    assert!((f(hit.t) - (1. - 100000. / 130000.)).abs() < 0.0000001);
    assert!((f(hit.normal.magnitude()) - 1.).abs() < 0.00000001);
}

#[test]
fn a_ray_from_inside_hits_the_back() {
    let sphere = Sphere::new(Vec3(s(0.), s(0.), s(0.)), s(2.), Lambertian::new(Color::black()));
    let ray = Ray::new(Vec3(s(1.), s(0.), s(0.)), Vec3(s(0.), s(0.), s(0.)));
    let hit = sphere.hit(&ray, &(s(0.001)..Scalar::max_value())).unwrap();
    assert_eq!(hit.t, s(2.));
    assert_eq!(hit.p, Vec3(s(2.), s(0.), s(0.)));
    assert!(!hit.front_face);
    assert_eq!(hit.normal, Vec3(s(-1.), s(0.), s(0.)));
}

#[test]
fn the_ends_of_the_interval_are_not_hit() {
    let sphere = Sphere::new(Vec3(s(0.), s(0.), s(0.)), s(2.), Lambertian::new(Color::black()));
    let ray = Ray::new(Vec3(s(1.), s(0.), s(0.)), Vec3(s(-4.), s(0.), s(0.)));
    assert_eq!(sphere.hit(&ray, &(s(0.)..s(10.))).unwrap().t, s(2.));
    assert_eq!(sphere.hit(&ray, &(s(2.)..s(10.))).unwrap().t, s(6.));
    assert!(sphere.hit(&ray, &(s(2.)..s(6.))).is_none());
    assert!(sphere.hit(&ray, &(s(0.)..s(2.))).is_none());
}

#[test]
fn a_ray_that_passes_by_misses() {
    let sphere = Sphere::new(Vec3(s(0.), s(0.), s(0.)), s(1.), Lambertian::new(Color::black()));
    let ray = Ray::new(Vec3(s(1.), s(0.), s(0.)), Vec3(s(-4.), s(1.5), s(0.)));
    assert!(sphere.hit(&ray, &(s(0.)..Scalar::max_value())).is_none());
}

#[test]
fn a_ray_without_direction_hits_nothing() {
    let sphere = Sphere::new(Vec3(s(0.), s(0.), s(0.)), s(1.), Lambertian::new(Color::black()));
    let ray = Ray::new(Vec3(s(0.), s(0.), s(0.)), Vec3(s(0.), s(0.), s(0.)));
    assert!(sphere.hit(&ray, &(s(-10.)..s(10.))).is_none());
}

/// The length of a vector of raw values, in raw units.
fn length(v: Vec3) -> f64 {
    let (x, y, z) = (v.0.raw as f64, v.1.raw as f64, v.2.raw as f64);
    (x * x + y * y + z * z).sqrt()
}

#[test]
fn every_multiple_of_the_way_to_the_centre_hits_the_front() {
    let cases = [
        (Vec3(s(0.), s(0.), s(-3.)), 1., Vec3(s(0.), s(0.), s(0.))),
        (Vec3(s(3.), s(-4.), s(12.)), 0.5, Vec3(s(0.5), s(0.25), s(2.))),
        (Vec3(s(-301.75), s(-305.), s(26.5)), 251.5, Vec3(s(0.), s(0.), s(0.))),
        (Vec3(s(0.011), s(-0.0099), s(-0.0015)), 0.0036, Vec3(s(0.0082), s(-0.0067), s(-0.001))),
        (Vec3(s(1.), s(1.), s(1.)), 0.000001, Vec3(s(1.), s(1.), s(1.001))),
        (Vec3(s(1000.), s(-100.5), s(-1.)), 100., Vec3(s(13.), s(2.), s(3.))),
    ];
    for (center, radius, origin) in cases {
        let sphere = Sphere::new(center, s(radius), Lambertian::new(Color::black()));
        let way = center - origin;
        let exact = [way, way * 3usize, way * 7usize, way * 1000usize];
        let rounded = [way * s(0.001), way * s(0.5), way * s(1000.), way.normalize()];
        for (k, direction) in exact.iter().chain(rounded.iter()).enumerate() {
            let ray = Ray::new(*direction, origin);
            let hit = sphere.hit(&ray, &(Scalar { raw: 0 }..Scalar::max_value())).unwrap();
            assert!(hit.t.raw > 0);
            assert!(hit.front_face);
            assert!(hit.normal.dot(&ray.direction).raw < 0);
            // the point lies on the sphere, and the normal has unit length
            let step = length(*direction) / 4294967296.0;
            let off = length(hit.p - center) - sphere.radius.raw as f64;
            assert!(off.abs() <= 4. + step);
            let tolerance = (6. + step) / sphere.radius.raw as f64;
            assert!((length(hit.normal) / 4294967296.0 - 1.).abs() <= tolerance + 0.000000001);
            // the hit comes no later than the centre
            let found = hit.t.raw as f64 / 4294967296.0;
            let nearest = (length(way) - sphere.radius.raw as f64) / length(*direction);
            assert!(found >= nearest * 0.999999999 - 1. / length(*direction) - 0.000000001);
            assert!(found <= length(way) / length(*direction) * 1.000000001);
            if k < 4 {
                // an exact multiple: the nearer crossing, and a normal that
                // points back to the origin of the ray
                assert!((found - nearest).abs() <= 0.000000001 * nearest + 0.000000001);
                let back = (origin - center).normalize();
                for i in 0..3 {
                    let gap = (hit.normal.get(i).raw - back.get(i).raw) as f64 / 4294967296.0;
                    assert!(gap.abs() <= 2. * tolerance + 0.000000001);
                }
            }
        }
    }
}

#[test]
fn a_ray_that_touches_is_met_and_one_that_passes_is_not() {
    let sphere = Sphere::new(Vec3(s(0.), s(0.), s(-5.)), s(3.), Lambertian::new(Color::black()));
    let origin = Vec3(s(0.), s(0.), s(0.));
    let search = s(0.001)..Scalar::max_value();
    let touching = Ray::new(Vec3(s(3.), s(0.), s(-4.)), origin);
    assert_eq!(sphere.hit(&touching, &search).unwrap().t.raw, 3435973836);
    let inside = Ray::new(Vec3(Scalar { raw: 3 * ONE_RAW - 1 }, s(0.), s(-4.)), origin);
    assert!((f(sphere.hit(&inside, &search).unwrap().t) - 0.8).abs() < 0.0001);
    let outside = Ray::new(Vec3(Scalar { raw: 3 * ONE_RAW + 1 }, s(0.), s(-4.)), origin);
    assert!(sphere.hit(&outside, &search).is_none());
}
