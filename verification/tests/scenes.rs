use raytracerust::color::Color;
use raytracerust::material::AnyMaterial;
use raytracerust::sampler::Sampler;
use raytracerust::scalar::{Scalar, ONE_RAW};
use raytracerust::scenes::{
    cell_center, cover_camera, is_clear, make_basic_world, make_random_world, make_wide_angle_world,
    small_material,
};
use raytracerust::vec3::Vec3;

/// The scalar nearest to `x`.
fn s(x: f64) -> Scalar {
    Scalar { raw: (x * 4294967296.0).round() as i64 }
}

/// The real number that `x` stands for.
fn f(x: Scalar) -> f64 {
    x.raw as f64 / 4294967296.0
}

fn close(x: Scalar, y: f64) -> bool {
    (f(x) - y).abs() < 0.000000001
}

fn close_to(v: Vec3, x: f64, y: f64, z: f64) -> bool {
    close(v.0, x) && close(v.1, y) && close(v.2, z)
}

#[test]
fn the_basic_world_has_five_spheres() {
    let world = make_basic_world();
    assert_eq!(world.len(), 5);
    let spheres = &world.objects;
    assert!(close_to(spheres[0].center, 0., 0., -1.2));
    assert!(close(spheres[0].radius, 0.5));
    assert!(close_to(spheres[1].center, -0.9, -0.25, -1.));
    assert!(close(spheres[1].radius, 0.5));
    assert_eq!(spheres[2].center, spheres[1].center);
    assert!(close(spheres[2].radius, 0.4));
    assert!(close_to(spheres[3].center, 1., 0., -1.));
    assert!(close_to(spheres[4].center, 1., -100.5, -1.));
    assert_eq!(spheres[4].radius, s(100.));
    match &spheres[0].material {
        AnyMaterial::Lambertian(m) => assert!(close_to(m.albedo.0, 0.1, 0.2, 0.5)),
        _ => panic!("the first sphere is diffuse"),
    }
    match (&spheres[1].material, &spheres[2].material) {
        (AnyMaterial::Dielectric(outer), AnyMaterial::Dielectric(inner)) => {
            assert_eq!(outer.refractive_index, s(1.5));
            assert!(close(inner.refractive_index, 1. / 1.5));
            assert_eq!(outer.attenuation, Color::white());
        }
        _ => panic!("the second and the third sphere are of glass"),
    }
    match &spheres[3].material {
        AnyMaterial::Metal(m) => {
            assert!(close_to(m.albedo.0, 0.8, 0.6, 0.2));
            assert_eq!(m.fuzz, s(1.));
        }
        _ => panic!("the fourth sphere is of metal"),
    }
}

#[test]
fn the_wide_angle_world_has_two_spheres_that_touch() {
    let world = make_wide_angle_world();
    assert_eq!(world.len(), 2);
    let r = std::f64::consts::FRAC_PI_4.cos();
    assert!(close_to(world.objects[0].center, -r, 0., -1.));
    assert!(close_to(world.objects[1].center, r, 0., -1.));
    assert!(close(world.objects[0].radius, r));
    assert!(close(world.objects[1].radius, r));
    assert_eq!(world.objects[0].center.0.raw, -world.objects[0].radius.raw);
}

#[test]
fn the_random_world_has_a_floor_small_spheres_and_three_landmarks() {
    for seed in [1, 2, 3] {
        let world = make_random_world(&mut Sampler::from_seed(seed));
        let n = world.len();
        assert!(400 <= n && n <= 488);
        let spheres = &world.objects;
        assert!(close_to(spheres[0].center, 0., -1000.5, 0.));
        assert_eq!(spheres[0].radius, s(1000.));
        assert_eq!(spheres[n - 3].center, Vec3(s(-4.), s(1.), s(0.)));
        assert_eq!(spheres[n - 2].center, Vec3(s(4.), s(1.), s(0.)));
        assert_eq!(spheres[n - 1].center, Vec3(s(0.), s(1.), s(0.)));
        let (mut diffuse, mut metal, mut glass) = (0, 0, 0);
        for small in &spheres[1..n - 3] {
            assert!(close(small.radius, 0.2));
            assert_eq!(small.center.1, small.radius);
            assert!(-11. <= f(small.center.0) && f(small.center.0) < 10.9);
            assert!(-11. <= f(small.center.2) && f(small.center.2) < 10.9);
            assert!(is_clear(small.center));
            match &small.material {
                AnyMaterial::Lambertian(m) => {
                    diffuse += 1;
                    for i in 0..3 {
                        assert!(0 <= m.albedo.get(i).raw && m.albedo.get(i).raw < ONE_RAW);
                    }
                }
                AnyMaterial::Metal(m) => {
                    metal += 1;
                    for i in 0..3 {
                        assert!(s(0.5).raw <= m.albedo.get(i).raw && m.albedo.get(i).raw < ONE_RAW);
                    }
                    assert!(0 <= m.fuzz.raw && m.fuzz.raw < s(0.5).raw);
                }
                AnyMaterial::Dielectric(m) => {
                    glass += 1;
                    assert_eq!(m.refractive_index, s(1.5));
                }
            }
        }
        assert!(diffuse > metal && metal > glass && glass > 0);
    }
}

#[test]
fn one_seed_gives_one_random_world() {
    let a = make_random_world(&mut Sampler::from_seed(5));
    let b = make_random_world(&mut Sampler::from_seed(5));
    let c = make_random_world(&mut Sampler::from_seed(6));
    assert_eq!(a.len(), b.len());
    for i in 0..a.len() {
        assert_eq!(a.objects[i].center, b.objects[i].center);
    }
    assert!(a.len() != c.len() || (0..a.len()).any(|i| a.objects[i].center != c.objects[i].center));
}

#[test]
fn small_spheres_lie_in_their_cells() {
    assert_eq!(cell_center(-11, 10, s(0.), s(0.)), Vec3(s(-11.), Scalar::from_ratio(1, 5), s(10.)));
    let moved = cell_center(3, -2, s(0.5), s(1.));
    assert!(close_to(moved, 3.45, 0.2, -1.1));
    assert!(!is_clear(cell_center(4, 0, s(0.), s(0.))));
    assert!(!is_clear(cell_center(3, 0, s(0.5), s(0.5))));
    assert!(is_clear(cell_center(3, 0, s(0.), s(0.))));
    assert!(is_clear(cell_center(-11, -11, s(0.), s(0.))));
}

#[test]
fn the_draw_selects_the_kind_of_material() {
    let mut rng = Sampler::from_seed(1);
    for _ in 0..50 {
        assert!(matches!(small_material(s(0.), &mut rng), AnyMaterial::Lambertian(_)));
        assert!(matches!(small_material(s(0.79), &mut rng), AnyMaterial::Lambertian(_)));
        assert!(matches!(small_material(s(0.81), &mut rng), AnyMaterial::Metal(_)));
        assert!(matches!(small_material(s(0.94), &mut rng), AnyMaterial::Metal(_)));
        assert!(matches!(small_material(s(0.96), &mut rng), AnyMaterial::Dielectric(_)));
    }
}

#[test]
fn the_cover_camera() {
    let builder = cover_camera();
    assert_eq!(builder.aspect_ratio, s(1.25));
    assert_eq!(builder.image_width, 1200);
    assert_eq!(builder.samples_per_pixel, 500);
    assert_eq!(builder.reflection_depth, 50);
    assert!(close(builder.half_fov_tan, (10f64).to_radians().tan()));
    assert!(close(builder.half_defocus_tan, (0.3f64).to_radians().tan()));
    assert_eq!(builder.look_from, Vec3(s(13.), s(2.), s(3.)));
    assert_eq!(builder.look_to, Vec3(s(0.), s(0.), s(0.)));
    assert_eq!(builder.vup, Vec3(s(0.), s(1.), s(0.)));
    assert_eq!(builder.focus_distance, s(10.));
    assert!(builder.is_buildable());
    let camera = builder.build();
    assert_eq!(camera.image_height, 960);
    assert!(camera.lens_dimensions.is_some());
}
