use raytracerust::camera::{Camera, CameraBuilder};
use raytracerust::color::{Color, Pixel};
use raytracerust::hittable::HittableList;
use raytracerust::material::{AnyMaterial, Dielectric, Lambertian, Metal};
use raytracerust::ppm::encode;
use raytracerust::ray::Ray;
use raytracerust::sampler::Sampler;
use raytracerust::scalar::Scalar;
use raytracerust::sphere::Sphere;
use raytracerust::vec3::Vec3;

/// The scalar nearest to `x`.
fn s(x: f64) -> Scalar {
    Scalar { raw: (x * 4294967296.0).round() as i64 }
}

fn v(x: f64, y: f64, z: f64) -> Vec3 {
    Vec3(s(x), s(y), s(z))
}

fn raw(x: i64, y: i64, z: i64) -> Vec3 {
    Vec3(Scalar { raw: x }, Scalar { raw: y }, Scalar { raw: z })
}

/// A camera for an image of four by three pixels with one sample each.
fn small_camera() -> Camera {
    let mut builder = Camera::builder();
    builder.aspect_ratio = Scalar::from_ratio(4, 3);
    builder.image_width = 4;
    builder.samples_per_pixel = 1;
    builder.reflection_depth = 10;
    assert!(builder.is_buildable());
    builder.build()
}

/// One sphere above a sphere that stands for the ground.
fn small_world() -> HittableList<Sphere<AnyMaterial>> {
    let mut world = HittableList::default();
    world.push(Sphere::new(
        v(0., 0., -1.2),
        s(0.5),
        AnyMaterial::Lambertian(Lambertian::new(Color::new(s(0.1), s(0.2), s(0.5)))),
    ));
    world.push(Sphere::new(
        v(0., -100.5, -1.),
        s(100.),
        AnyMaterial::Lambertian(Lambertian::new(Color::new(s(0.8), s(0.8), s(0.)))),
    ));
    world
}

fn empty_world() -> HittableList<Sphere<AnyMaterial>> {
    HittableList::default()
}

#[test]
fn default_configuration() {
    let builder = CameraBuilder::default();
    assert_eq!(builder.aspect_ratio, Scalar::from_ratio(16, 9));
    assert_eq!(builder.image_width, 1200);
    assert_eq!(builder.samples_per_pixel, 100);
    assert_eq!(builder.reflection_depth, 50);
    assert_eq!(builder.half_fov_tan, s(1.));
    assert_eq!(builder.look_from, v(0., 0., 0.));
    assert_eq!(builder.look_to, v(0., 0., -1.));
    assert_eq!(builder.vup, v(0., 1., 0.));
    assert_eq!(builder.half_defocus_tan, s(0.));
    assert_eq!(builder.focus_distance, s(10.));
    assert_eq!(builder.sky, Color::new(Scalar { raw: 2576980377 }, s(0.5), s(1.)));
    assert_eq!(Camera::builder().image_width, 1200);
}

#[test]
fn image_height_is_rounded_and_at_least_one() {
    let mut builder = CameraBuilder::default();
    assert_eq!(builder.image_height(), 675);
    builder.image_width = 400;
    assert_eq!(builder.image_height(), 225);
    builder.image_width = 1;
    assert_eq!(builder.image_height(), 1);
    builder.aspect_ratio = s(100.);
    assert_eq!(builder.image_height(), 1);
    builder.image_width = 4;
    builder.aspect_ratio = Scalar::from_ratio(4, 3);
    assert_eq!(builder.image_height(), 3);
    builder.image_width = 10;
    builder.aspect_ratio = s(4.);
    assert_eq!(builder.image_height(), 3);
    builder.aspect_ratio = s(-2.);
    assert_eq!(builder.image_height(), 1);
}

#[test]
fn camera_of_the_default_configuration() {
    let mut builder = CameraBuilder::default();
    builder.image_width = 400;
    let camera = builder.build();
    assert_eq!(camera.image_width, 400);
    assert_eq!(camera.image_height, 225);
    assert_eq!(camera.samples_per_pixel, 100);
    assert_eq!(camera.reflection_depth, 50);
    assert_eq!(camera.pixel_sample_scale.raw, 42949672);
    assert_eq!(camera.center, v(0., 0., 0.));
    assert_eq!(camera.pixel00, raw(-76164086715, 42758785525, -42949672960));
    assert_eq!(camera.pixel_delta_u, raw(381774870, 0, 0));
    assert_eq!(camera.pixel_delta_v, raw(0, -381774870, 0));
    assert_eq!(camera.lens_dimensions, None);
    assert_eq!(camera.sky, Color::new(Scalar { raw: 2576980377 }, s(0.5), s(1.)));
}

#[test]
fn camera_with_a_lens() {
    let mut builder = CameraBuilder::default();
    builder.aspect_ratio = s(1.25);
    builder.image_width = 1200;
    builder.samples_per_pixel = 500;
    builder.half_fov_tan = s(0.17632698);
    builder.look_from = v(13., 2., 3.);
    builder.look_to = v(0., 0., 0.);
    builder.half_defocus_tan = s(0.0052360);
    let camera = builder.build();
    assert_eq!(camera.image_height, 960);
    assert_eq!(camera.pixel_sample_scale.raw, 8589934);
    assert_eq!(camera.center, v(13., 2., 3.));
    assert_eq!(camera.pixel00, raw(11227546999, 9704351832, 12298155678));
    assert_eq!(camera.pixel_delta_u, raw(3547714, 0, -15373428));
    assert_eq!(camera.pixel_delta_v, raw(2279108, -15603129, 525948));
    assert_eq!(
        camera.lens_dimensions,
        Some((raw(50567415, 0, -219125467), raw(-32485320, 222399502, -7496612)))
    );
    let r = camera.ray_through(10, 20, v(0.25, -0.5, 0.), v(0.5, -0.25, 0.));
    assert_eq!(r.origin, raw(55867979885, 8534334717, 12777213308));
    assert_eq!(r.direction, raw(-44559626212, 865756100, -626379281));
}

#[test]
fn a_camera_needs_a_direction_and_an_upright() {
    let mut builder = CameraBuilder::default();
    assert!(builder.is_buildable());
    builder.look_to = builder.look_from;
    assert!(!builder.is_buildable());
    builder.look_to = v(0., 5., 0.);
    assert!(!builder.is_buildable());
    builder.vup = v(0., 0., 1.);
    assert!(builder.is_buildable());
}

#[test]
fn rays_through_the_corners() {
    let mut builder = CameraBuilder::default();
    builder.image_width = 400;
    let camera = builder.build();
    let zero = v(0., 0., 0.);
    let first = camera.ray_through(0, 0, zero, zero);
    assert_eq!(first.origin, zero);
    assert_eq!(first.direction, raw(-76164086715, 42758785525, -42949672960));
    let last = camera.ray_through(399, 224, v(0.25, -0.5, 0.), zero);
    assert_eq!(last.origin, zero);
    assert_eq!(last.direction, raw(76259530132, -42567897920, -42949672960));
}

#[test]
fn random_rays_stay_in_their_pixel() {
    let mut builder = CameraBuilder::default();
    builder.image_width = 400;
    let camera = builder.build();
    let mut rng = Sampler::from_seed(21);
    let zero = v(0., 0., 0.);
    let low = camera.ray_through(7, 9, v(-0.5, 0.5, 0.), zero).direction;
    let high = camera.ray_through(7, 9, v(0.5, -0.5, 0.), zero).direction;
    for _ in 0..200 {
        let r = camera.get_ray(7, 9, &mut rng);
        assert_eq!(r.origin, zero);
        assert!(low.0.raw <= r.direction.0.raw && r.direction.0.raw <= high.0.raw);
        assert!(low.1.raw <= r.direction.1.raw && r.direction.1.raw <= high.1.raw);
        assert_eq!(r.direction.2, low.2);
        let o = Camera::sample_square(&mut rng);
        assert!(s(-0.5).raw <= o.0.raw && o.0.raw < s(0.5).raw);
        assert!(s(-0.5).raw <= o.1.raw && o.1.raw < s(0.5).raw);
        assert_eq!(o.2.raw, 0);
    }
}

#[test]
fn rays_of_a_lens_start_on_the_lens() {
    let mut builder = CameraBuilder::default();
    builder.image_width = 400;
    builder.half_defocus_tan = s(0.0625);
    builder.focus_distance = s(8.);
    let camera = builder.build();
    let (lens_u, lens_v) = camera.lens_dimensions.unwrap();
    assert_eq!(lens_u, v(0.5, 0., 0.));
    assert_eq!(lens_v, v(0., 0.5, 0.));
    let mut rng = Sampler::from_seed(22);
    let mut off_centre = false;
    for _ in 0..100 {
        let r = camera.get_ray(7, 9, &mut rng);
        assert!(r.origin.magnitude().raw <= s(0.5).raw);
        assert_eq!(r.origin.2.raw, 0);
        if r.origin != camera.center {
            off_centre = true;
        }
    }
    assert!(off_centre);
}

#[test]
fn background_is_white_below_and_sky_above() {
    let camera = small_camera();
    let origin = v(0., 0., 0.);
    assert_eq!(camera.background(&Ray::new(v(0., 1., 0.), origin)), camera.sky);
    assert_eq!(camera.background(&Ray::new(v(0., -1., 0.), origin)), Color::white());
    assert_eq!(
        camera.background(&Ray::new(v(1., 0., 0.), origin)),
        Color::new(Scalar { raw: 3435973836 }, s(0.75), s(1.))
    );
    assert_eq!(
        camera.background(&Ray::new(v(1., 2., -2.), origin)),
        Color::new(Scalar { raw: 2863311530 }, Scalar { raw: 2505397589 }, s(1.))
    );
    assert_eq!(
        camera.background(&Ray::new(origin, origin)),
        Color::new(Scalar { raw: 3435973836 }, s(0.75), s(1.))
    );
}

#[test]
fn no_light_comes_back_after_no_bounce() {
    let camera = small_camera();
    let mut rng = Sampler::from_seed(1);
    let r = Ray::new(v(0., 0., -1.), v(0., 0., 0.));
    assert_eq!(camera.ray_color(r, 0, &small_world(), &mut rng), Color::black());
    assert_eq!(camera.ray_color(r, 0, &empty_world(), &mut rng), Color::black());
}

#[test]
fn a_ray_that_misses_brings_the_background() {
    let camera = small_camera();
    let mut rng = Sampler::from_seed(1);
    let up = Ray::new(v(0., 1., 0.), v(0., 0., 0.));
    assert_eq!(camera.ray_color(up, 10, &small_world(), &mut rng), camera.sky);
    let away = Ray::new(v(1., 2., -2.), v(0., 0., 0.));
    assert_eq!(camera.ray_color(away, 10, &empty_world(), &mut rng), camera.background(&away));
}

#[test]
fn light_is_attenuated_at_every_bounce() {
    let camera = small_camera();
    let mut rng = Sampler::from_seed(1);
    let mut world = HittableList::default();
    world.push(Sphere::new(
        v(0., 0., -2.),
        s(0.5),
        AnyMaterial::Lambertian(Lambertian::new(Color::new(s(0.5), s(0.25), s(0.)))),
    ));
    let r = Ray::new(v(0., 0., -1.), v(0., 0., 0.));
    for _ in 0..50 {
        let c = camera.ray_color(r, 1, &world, &mut rng);
        assert_eq!(c, Color::black());
        let c = camera.ray_color(r, 10, &world, &mut rng);
        assert!(0 <= c.0.0.raw && c.0.0.raw <= s(0.5).raw);
        assert!(0 <= c.0.1.raw && c.0.1.raw <= s(0.25).raw);
        assert_eq!(c.0.2.raw, 0);
    }
}

#[test]
fn an_absorbed_ray_brings_black() {
    let camera = small_camera();
    let mut rng = Sampler::from_seed(1);
    let mut world = HittableList::default();
    world.push(Sphere::new(
        v(0., 0., -2.),
        s(0.5),
        AnyMaterial::Metal(Metal::new(Color::new(s(1.), s(1.), s(1.)), s(0.))),
    ));
    let graze = Ray::new(v(0., 0.5, -2.), v(0., 0., 0.));
    let hit_or_sky = camera.ray_color(graze, 10, &world, &mut rng);
    assert!(hit_or_sky == Color::black() || hit_or_sky.0.2 == s(1.));
    let inside = Ray::new(v(0., 0., -1.), v(0., 0., -2.));
    let c = camera.ray_color(inside, 3, &world, &mut rng);
    assert!(0 <= c.0.0.raw && c.0.0.raw <= s(1.).raw);
}

#[test]
fn glass_lets_the_background_through() {
    let camera = small_camera();
    let mut rng = Sampler::from_seed(1);
    let mut world = HittableList::default();
    world.push(Sphere::new(v(0., 0., -2.), s(0.5), AnyMaterial::Dielectric(Dielectric::new(s(1.5)))));
    let r = Ray::new(v(0., 0., -1.), v(0., 0., 0.));
    for _ in 0..20 {
        let c = camera.ray_color(r, 50, &world, &mut rng);
        assert_eq!(c.0.2, s(1.));
    }
}

#[test]
fn rendering_with_one_seed_gives_one_image() {
    let camera = small_camera();
    let world = small_world();
    let first = camera.render(&world, 7);
    let second = camera.render(&world, 7);
    assert_eq!(first, second);
    assert_eq!(camera.render_pixels(&world, 7), camera.render_pixels(&world, 7));
    let mut differs = false;
    for seed in 8..20 {
        if camera.render(&world, seed) != first {
            differs = true;
        }
    }
    assert!(differs);
}

#[test]
fn an_image_has_a_header_and_one_line_for_each_pixel() {
    let camera = small_camera();
    for text in [camera.render(&small_world(), 1), camera.render(&empty_world(), 1)] {
        let lines: Vec<&str> = text.lines().collect();
        assert!(text.ends_with('\n'));
        assert_eq!(lines.len(), 3 + 4 * 3);
        assert_eq!(lines[0], "P3");
        assert_eq!(lines[1], "4 3");
        assert_eq!(lines[2], "255");
        for line in &lines[3..] {
            let channels: Vec<u8> = line.split(' ').map(|c| c.parse().unwrap()).collect();
            assert_eq!(channels.len(), 3);
        }
    }
}

#[test]
fn an_empty_scene_shows_the_background() {
    let camera = small_camera();
    let world = empty_world();
    let pixels = camera.render_pixels(&world, 3);
    assert_eq!(pixels.len(), 12);
    for j in 0..3 {
        for i in 0..4 {
            let px = pixels[j * 4 + i];
            assert_eq!(px.b, 255);
            assert!(198 <= px.r && px.r <= 255);
            assert!(181 <= px.g && px.g <= 255);
            let mut rng = Sampler::from_seed(Camera::row_seed(3, j));
            for _ in 0..i {
                camera.get_ray(i, j, &mut rng);
            }
            let r = camera.get_ray(i, j, &mut rng);
            assert_eq!(px, camera.background(&r).to_pixel());
        }
    }
    assert!(pixels[0].r < pixels[8].r);
}

#[test]
fn an_image_is_made_of_its_rows() {
    let camera = small_camera();
    let world = small_world();
    let pixels = camera.render_pixels(&world, 11);
    let mut rows: Vec<Pixel> = Vec::new();
    for j in (0..3).rev() {
        let mut rng = Sampler::from_seed(Camera::row_seed(11, j));
        let row = camera.render_row(&world, j, &mut rng);
        assert_eq!(row.len(), 4);
        assert_eq!(row[..], pixels[j * 4..j * 4 + 4]);
        rows.splice(0..0, row);
    }
    assert_eq!(rows, pixels);
    assert_eq!(camera.render(&world, 11), encode(4, 3, &pixels));
}

#[test]
fn a_pixel_is_the_mean_of_its_samples() {
    let mut builder = Camera::builder();
    builder.aspect_ratio = Scalar::from_ratio(4, 3);
    builder.image_width = 4;
    builder.samples_per_pixel = 16;
    let camera = builder.build();
    let world = empty_world();
    let mut rng = Sampler::from_seed(5);
    let px = camera.render_pixel(&world, 1, 2, &mut rng);
    let mut rng = Sampler::from_seed(5);
    let mut sum = Color::black();
    for _ in 0..16 {
        let r = camera.get_ray(1, 2, &mut rng);
        sum += camera.background(&r);
    }
    assert_eq!(px, (sum * camera.pixel_sample_scale).to_pixel());
    assert_eq!(camera.pixel_sample_scale, s(0.0625));
}

#[test]
fn without_samples_the_image_is_black() {
    let mut builder = Camera::builder();
    builder.aspect_ratio = Scalar::from_ratio(4, 3);
    builder.image_width = 4;
    builder.samples_per_pixel = 0;
    let camera = builder.build();
    let pixels = camera.render_pixels(&small_world(), 1);
    assert_eq!(pixels, vec![Pixel { r: 0, g: 0, b: 0 }; 12]);
}

#[test]
fn row_seeds_wrap_around() {
    assert_eq!(Camera::row_seed(5, 0), 5);
    assert_eq!(Camera::row_seed(5, 7), 12);
    assert_eq!(Camera::row_seed(u64::MAX, 1), 0);
    assert_eq!(Camera::row_seed(u64::MAX, 3), 2);
}

#[test]
fn a_scene_of_all_materials_through_a_lens() {
    let mut builder = Camera::builder();
    builder.aspect_ratio = Scalar::from_ratio(4, 3);
    builder.image_width = 24;
    builder.samples_per_pixel = 4;
    builder.reflection_depth = 8;
    builder.look_from = v(3., 1., 2.);
    builder.look_to = v(0., 0., -1.);
    builder.half_fov_tan = s(0.36397);
    builder.half_defocus_tan = s(0.05);
    builder.focus_distance = s(3.4);
    assert!(builder.is_buildable());
    let camera = builder.build();
    assert_eq!(camera.image_height, 18);

    let mut world = HittableList::default();
    world.push(Sphere::new(
        v(0., -100.5, -1.),
        s(100.),
        AnyMaterial::Lambertian(Lambertian::new(Color::new(s(0.8), s(0.8), s(0.)))),
    ));
    world.push(Sphere::new(
        v(0., 0., -1.2),
        s(0.5),
        AnyMaterial::Lambertian(Lambertian::new(Color::new(s(0.1), s(0.2), s(0.5)))),
    ));
    world.push(Sphere::new(v(-1., 0., -1.), s(0.5), AnyMaterial::Dielectric(Dielectric::new(s(1.5)))));
    world.push(Sphere::new(
        v(-1., 0., -1.),
        s(0.4),
        AnyMaterial::Dielectric(Dielectric::new(s(1. / 1.5))),
    ));
    world.push(Sphere::new(
        v(1., 0., -1.),
        s(0.5),
        AnyMaterial::Metal(Metal::new(Color::new(s(0.8), s(0.6), s(0.2)), s(1.))),
    ));

    let text = camera.render(&world, 2024);
    assert_eq!(text, camera.render(&world, 2024));
    let lines: Vec<&str> = text.lines().collect();
    assert_eq!(lines.len(), 3 + 24 * 18);
    assert_eq!(lines[1], "24 18");
    let mut seen = std::collections::HashSet::new();
    for line in &lines[3..] {
        let channels: Vec<u8> = line.split(' ').map(|c| c.parse().unwrap()).collect();
        assert_eq!(channels.len(), 3);
        seen.insert(channels);
    }
    assert!(seen.len() > 50);
}

#[test]
fn the_background_of_a_short_ray_lies_between_white_and_sky() {
    let camera = small_camera();
    let origin = v(0., 0., 0.);
    let directions = [
        raw(98304, 0, 0),
        raw(1, 1, 1),
        raw(0, -1, 0),
        raw(0, 3, -4),
        raw(-70000, 65536, 1),
        raw(i64::MAX, i64::MIN, 5),
    ];
    for direction in directions {
        let c = camera.background(&Ray::new(direction, origin));
        assert!(camera.sky.get(0).raw <= c.get(0).raw && c.get(0).raw <= s(1.).raw);
        assert!(camera.sky.get(1).raw <= c.get(1).raw && c.get(1).raw <= s(1.).raw);
        assert_eq!(c.get(2), s(1.));
    }
    assert_eq!(camera.background(&Ray::new(raw(0, -1, 0), origin)), Color::white());
    assert_eq!(camera.background(&Ray::new(raw(0, 1, 0), origin)), camera.sky);
    assert_eq!(
        camera.background(&Ray::new(raw(98304, 0, 0), origin)),
        camera.background(&Ray::new(v(1., 0., 0.), origin))
    );
}
