use raytracerust::color::Color;
use raytracerust::hittable::HitRecord;
use raytracerust::material::{reflectance, AnyMaterial, Dielectric, Lambertian, Material, Metal};
use raytracerust::ray::Ray;
use raytracerust::sampler::Sampler;
use raytracerust::scalar::Scalar;
use raytracerust::vec3::Vec3;

/// The scalar nearest to `x`.
fn s(x: f64) -> Scalar {
    Scalar { raw: (x * 4294967296.0).round() as i64 }
}

fn v(x: f64, y: f64, z: f64) -> Vec3 {
    Vec3(s(x), s(y), s(z))
}

fn raw(x: i64, y: i64, z: i64) -> Vec3 {
    Vec3(Scalar { raw: x }, Scalar { raw: y }, Scalar { raw: z })
}

/// A hit in the point `(1, 2, 3)` of a surface whose normal points up.
fn floor_hit<M>(material: &M, front_face: bool) -> HitRecord<'_, M> {
    HitRecord { p: v(1., 2., 3.), normal: v(0., 1., 0.), t: s(2.), front_face, material }
}

#[test]
fn lambertian_scatters_about_the_normal() {
    let material = Lambertian::new(Color::new(s(0.1), s(0.2), s(0.5)));
    let hit = floor_hit(&material, true);
    let r_in = Ray::new(v(1., -1., 0.), v(0., 3., 3.));

    let (attenuation, scattered) = material.scatter_with(&r_in, &hit, v(1., 0., 0.), s(0.)).unwrap();
    assert_eq!(attenuation, Color::new(s(0.1), s(0.2), s(0.5)));
    assert_eq!(scattered.origin, v(1., 2., 3.));
    assert_eq!(scattered.direction, v(1., 1., 0.));
}

#[test]
fn lambertian_falls_back_to_the_normal() {
    let material = Lambertian::new(Color::new(s(0.1), s(0.2), s(0.5)));
    let hit = floor_hit(&material, true);
    let r_in = Ray::new(v(1., -1., 0.), v(0., 3., 3.));

    let (_, scattered) = material.scatter_with(&r_in, &hit, v(0., -1., 0.), s(0.)).unwrap();
    assert_eq!(scattered.direction, v(0., 1., 0.));
}

#[test]
fn lambertian_never_absorbs() {
    let material = Lambertian::new(Color::new(s(0.1), s(0.2), s(0.5)));
    let hit = floor_hit(&material, true);
    let r_in = Ray::new(v(1., -1., 0.), v(0., 3., 3.));
    let mut rng = Sampler::from_seed(3);
    for _ in 0..100 {
        let (attenuation, scattered) = material.scatter(&r_in, &hit, &mut rng).unwrap();
        assert_eq!(attenuation, Color::new(s(0.1), s(0.2), s(0.5)));
        assert_eq!(scattered.origin, v(1., 2., 3.));
        assert!(scattered.direction.magnitude().raw <= s(2.0001).raw);
        assert!(scattered.direction.magnitude().raw > 0);
    }
}

#[test]
fn metal_keeps_its_fuzz_between_zero_and_one() {
    let albedo = Color::new(s(0.8), s(0.6), s(0.2));
    assert_eq!(Metal::new(albedo, s(0.3)).fuzz, s(0.3));
    assert_eq!(Metal::new(albedo, s(1.)).fuzz, s(1.));
    assert_eq!(Metal::new(albedo, s(5.)).fuzz, s(1.));
    assert_eq!(Metal::new(albedo, s(-1.)).fuzz, s(0.));
    assert_eq!(Metal::new(albedo, s(0.3)).albedo, albedo);
}

#[test]
fn metal_reflects_and_blurs() {
    let material = Metal::new(Color::new(s(0.8), s(0.6), s(0.2)), s(0.5));
    let hit = floor_hit(&material, true);
    let r_in = Ray::new(v(1., -1., 0.), v(0., 3., 3.));

    let (attenuation, scattered) = material.scatter_with(&r_in, &hit, v(0., 1., 0.), s(0.)).unwrap();
    assert_eq!(attenuation, Color::new(s(0.8), s(0.6), s(0.2)));
    assert_eq!(scattered.origin, v(1., 2., 3.));
    assert_eq!(scattered.direction, v(1., 1.5, 0.));
}

#[test]
fn metal_absorbs_what_would_enter_the_surface() {
    let material = Metal::new(Color::new(s(0.8), s(0.6), s(0.2)), s(1.));
    let hit = floor_hit(&material, true);
    let r_in = Ray::new(v(1., -1., 0.), v(0., 3., 3.));

    assert!(material.scatter_with(&r_in, &hit, v(0., -1., 0.), s(0.)).is_none());
    assert!(material.scatter_with(&r_in, &hit, v(0., -2., 0.), s(0.)).is_none());
    assert!(material.scatter_with(&r_in, &hit, v(0., -0.5, 0.), s(0.)).is_some());
}

#[test]
fn metal_reflects_about_a_slanted_normal() {
    let material = Metal::new(Color::new(s(0.8), s(0.6), s(0.2)), s(0.));
    let normal = v(1., 2., -2.).normalize();
    let hit = HitRecord { p: v(1., 2., 3.), normal, t: s(2.), front_face: true, material: &material };
    let r_in = Ray::new(v(0.3, -0.7, 0.2), v(0., 3., 3.));

    let (_, scattered) = material.scatter_with(&r_in, &hit, v(0., 0., 0.), s(0.)).unwrap();
    assert_eq!(scattered.direction, raw(2720145953, -143165579, -2004318069));
}

#[test]
fn schlick_reflectance() {
    assert_eq!(reflectance(s(1.), s(1.5)).raw, 171798691);
    assert_eq!(reflectance(s(0.), s(1.5)), s(1.));
    assert_eq!(reflectance(s(0.5), s(1.5)).raw, 300647709);
}

#[test]
fn dielectric_attenuates_nothing() {
    let material = Dielectric::new(s(1.5));
    assert_eq!(material.refractive_index, s(1.5));
    assert_eq!(material.attenuation, Color::new(s(1.), s(1.), s(1.)));
}

#[test]
fn dielectric_refracts_below_the_threshold_and_reflects_above() {
    let material = Dielectric::new(s(1.5));
    let hit = floor_hit(&material, true);
    let r_in = Ray::new(v(0., -1., 0.), v(1., 3., 3.));

    let (attenuation, refracted) = material.scatter_with(&r_in, &hit, v(1., 0., 0.), s(0.5)).unwrap();
    assert_eq!(attenuation, Color::new(s(1.), s(1.), s(1.)));
    assert_eq!(refracted.origin, v(1., 2., 3.));
    assert_eq!(refracted.direction, v(0., -1., 0.));

    let (_, reflected) = material.scatter_with(&r_in, &hit, v(1., 0., 0.), s(-0.5)).unwrap();
    assert_eq!(reflected.direction, v(0., 1., 0.));
}

#[test]
fn dielectric_bends_an_oblique_ray() {
    let material = Dielectric::new(s(1.5));
    let hit = floor_hit(&material, true);
    let r_in = Ray::new(v(1., -1., 0.), v(0., 3., 3.));

    let (_, refracted) = material.scatter_with(&r_in, &hit, v(1., 0., 0.), s(0.99)).unwrap();
    assert_eq!(refracted.direction, raw(2024666999, -3787805119, 0));
}

#[test]
fn dielectric_reflects_where_it_cannot_refract() {
    let material = Dielectric::new(s(1.5));
    let hit = floor_hit(&material, false);
    let r_in = Ray::new(v(1., -0.1, 0.), v(0., 3., 3.));

    let (_, reflected) = material.scatter_with(&r_in, &hit, v(1., 0., 0.), s(0.99)).unwrap();
    assert_eq!(reflected.direction, raw(4273652190, 427365219, 0));
}

#[test]
fn dielectric_never_absorbs() {
    let material = Dielectric::new(s(1.5));
    let hit = floor_hit(&material, true);
    let r_in = Ray::new(v(1., -1., 0.), v(0., 3., 3.));
    let mut rng = Sampler::from_seed(5);
    let mut reflected = 0;
    let mut refracted = 0;
    for _ in 0..200 {
        let (attenuation, scattered) = material.scatter(&r_in, &hit, &mut rng).unwrap();
        assert_eq!(attenuation, Color::new(s(1.), s(1.), s(1.)));
        if scattered.direction.1.raw > 0 {
            reflected += 1;
        } else {
            assert_eq!(scattered.direction, raw(2024666999, -3787805119, 0));
            refracted += 1;
        }
    }
    assert!(reflected > 0);
    assert!(refracted > 0);
}

#[test]
fn any_material_does_what_the_material_inside_does() {
    let albedo = Color::new(s(0.8), s(0.6), s(0.2));
    let r_in = Ray::new(v(1., -1., 0.), v(0., 3., 3.));

    let diffuse = AnyMaterial::Lambertian(Lambertian::new(albedo));
    let hit = floor_hit(&diffuse, true);
    let (attenuation, scattered) = diffuse.scatter_with(&r_in, &hit, v(1., 0., 0.), s(0.)).unwrap();
    assert_eq!(attenuation, albedo);
    assert_eq!(scattered.direction, v(1., 1., 0.));

    let metal = AnyMaterial::Metal(Metal::new(albedo, s(0.5)));
    let hit = floor_hit(&metal, true);
    let (_, scattered) = metal.scatter_with(&r_in, &hit, v(0., 1., 0.), s(0.)).unwrap();
    assert_eq!(scattered.direction, v(1., 1.5, 0.));
    assert!(metal.scatter_with(&r_in, &hit, v(0., -2., 0.), s(0.)).is_none());

    let glass = AnyMaterial::Dielectric(Dielectric::new(s(1.5)));
    let hit = floor_hit(&glass, true);
    let (attenuation, scattered) = glass.scatter_with(&r_in, &hit, v(1., 0., 0.), s(0.99)).unwrap();
    assert_eq!(attenuation, Color::new(s(1.), s(1.), s(1.)));
    assert_eq!(scattered.direction, raw(2024666999, -3787805119, 0));

    let mut rng = Sampler::from_seed(9);
    let hit = floor_hit(&diffuse, true);
    let (attenuation, _) = diffuse.scatter(&r_in, &hit, &mut rng).unwrap();
    assert_eq!(attenuation, albedo);
}

#[test]
fn lambertian_adds_the_random_direction_wherever_the_normal_points() {
    let material = Lambertian::new(Color::new(s(0.1), s(0.2), s(0.5)));
    let hit = HitRecord { p: v(1., 2., 3.), normal: v(0., -1., 0.), t: s(2.), front_face: true, material: &material };
    let r_in = Ray::new(v(1., 1., 0.), v(0., 1., 3.));

    let (_, scattered) = material.scatter_with(&r_in, &hit, v(-0.6, -0.8, 0.), s(0.)).unwrap();
    assert_eq!(scattered.direction, v(0., -1., 0.) + v(-0.6, -0.8, 0.));
    assert!(!scattered.direction.near_zero());

    let (_, scattered) = material.scatter_with(&r_in, &hit, v(0., 1., 0.), s(0.)).unwrap();
    assert_eq!(scattered.direction, v(0., -1., 0.));

    let almost = Vec3(Scalar { raw: -428 }, Scalar { raw: 4294967296 + 428 }, Scalar { raw: 0 });
    let (_, scattered) = material.scatter_with(&r_in, &hit, almost, s(0.)).unwrap();
    assert_eq!(scattered.direction, v(0., -1., 0.));

    let apart = Vec3(Scalar { raw: -429 }, Scalar { raw: 4294967296 }, Scalar { raw: 0 });
    let (_, scattered) = material.scatter_with(&r_in, &hit, apart, s(0.)).unwrap();
    assert_eq!(scattered.direction, raw(-429, 0, 0));
}
