//! Scenes and a camera to try the renderer on.
use vstd::prelude::*;
use crate::camera::{Camera, CameraBuilder};
use crate::color::Color;
use crate::hittable::HittableList;
use crate::material::{AnyMaterial, Dielectric, Lambertian, Metal};
use crate::sampler::Sampler;
use crate::scalar::{Scalar, ONE_RAW};
use crate::sphere::Sphere;
use crate::vec3::{Point3, Vec3};

verus! {

/// Raw units of the tangent of ten degrees, rounded to the nearest: half of
/// a field of view of twenty degrees.
pub const TAN_10_DEGREES_RAW: i64 = 757318616;

/// Raw units of the tangent of three tenths of a degree, rounded to the
/// nearest: half of a lens angle of six tenths of a degree.
pub const TAN_03_DEGREES_RAW: i64 = 22488602;

/// Raw units of the cosine of 45 degrees, rounded to the nearest.
pub const COS_45_DEGREES_RAW: i64 = 3037000500;

/// The rows and columns of small spheres in the random scene run from
/// `-GRID` up to, but not including, `GRID`.
pub const GRID: i32 = 11;

/// The quotient of two integers as a scalar.
pub open spec fn ratio(num: int, den: int) -> Scalar {
    Scalar::of_ratio(num, den)
}

/// A diffuse material of the colour `(r, g, b) / 10`.
pub open spec fn matte_spec(r: int, g: int, b: int) -> AnyMaterial {
    AnyMaterial::Lambertian(Lambertian { albedo: Color(Vec3(ratio(r, 10), ratio(g, 10), ratio(b, 10))) })
}

/// Glass with the refractive index `num / den`.
pub open spec fn glass_spec(num: int, den: int) -> AnyMaterial {
    AnyMaterial::Dielectric(
        Dielectric { refractive_index: ratio(num, den), attenuation: Color::white_spec() },
    )
}

/// The scene of five spheres: a blue ball between a hollow glass ball and a
/// ball of rough gold, on a yellow-green ground.
pub open spec fn basic_world_spec() -> Seq<Sphere<AnyMaterial>> {
    seq![
        Sphere {
            center: Vec3(ratio(0, 1), ratio(0, 1), ratio(-12, 10)),
            radius: ratio(1, 2),
            material: matte_spec(1, 2, 5),
        },
        Sphere {
            center: Vec3(ratio(-9, 10), ratio(-1, 4), ratio(-1, 1)),
            radius: ratio(1, 2),
            material: glass_spec(3, 2),
        },
        Sphere {
            center: Vec3(ratio(-9, 10), ratio(-1, 4), ratio(-1, 1)),
            radius: ratio(4, 10),
            material: glass_spec(2, 3),
        },
        Sphere {
            center: Vec3(ratio(1, 1), ratio(0, 1), ratio(-1, 1)),
            radius: ratio(1, 2),
            material: AnyMaterial::Metal(
                Metal {
                    albedo: Color(Vec3(ratio(8, 10), ratio(6, 10), ratio(2, 10))),
                    fuzz: ratio(1, 1),
                },
            ),
        },
        Sphere {
            center: Vec3(ratio(1, 1), ratio(-201, 2), ratio(-1, 1)),
            radius: ratio(100, 1),
            material: matte_spec(8, 8, 0),
        },
    ]
}

/// The scene of two spheres that touch, a blue one on the left and a red one
/// on the right, for a camera with a wide angle.
pub open spec fn wide_angle_world_spec() -> Seq<Sphere<AnyMaterial>> {
    seq![
        Sphere {
            center: Vec3(Scalar { raw: (-COS_45_DEGREES_RAW) as i64 }, ratio(0, 1), ratio(-1, 1)),
            radius: Scalar { raw: COS_45_DEGREES_RAW },
            material: matte_spec(0, 0, 10),
        },
        Sphere {
            center: Vec3(Scalar { raw: COS_45_DEGREES_RAW }, ratio(0, 1), ratio(-1, 1)),
            radius: Scalar { raw: COS_45_DEGREES_RAW },
            material: matte_spec(10, 0, 0),
        },
    ]
}

/// The ground of the random scene.
pub open spec fn floor_spec() -> Sphere<AnyMaterial> {
    Sphere {
        center: Vec3(ratio(0, 1), ratio(-2001, 2), ratio(0, 1)),
        radius: ratio(1000, 1),
        material: matte_spec(8, 8, 0),
    }
}

/// The three large spheres of the random scene: a brown diffuse one, a
/// polished metal one and a glass one.
pub open spec fn landmarks_spec() -> Seq<Sphere<AnyMaterial>> {
    seq![
        Sphere {
            center: Vec3(ratio(-4, 1), ratio(1, 1), ratio(0, 1)),
            radius: ratio(1, 1),
            material: matte_spec(4, 2, 1),
        },
        Sphere {
            center: Vec3(ratio(4, 1), ratio(1, 1), ratio(0, 1)),
            radius: ratio(1, 1),
            material: AnyMaterial::Metal(
                Metal {
                    albedo: Color(Vec3(ratio(7, 10), ratio(6, 10), ratio(5, 10))),
                    fuzz: ratio(0, 1),
                },
            ),
        },
        Sphere {
            center: Vec3(ratio(0, 1), ratio(1, 1), ratio(0, 1)),
            radius: ratio(1, 1),
            material: glass_spec(3, 2),
        },
    ]
}

/// The centre of the small sphere in row `a` and column `b` of the random
/// scene, moved by `dx` and `dz` times nine tenths from the corner of its
/// cell: small spheres lie on the ground.
pub open spec fn cell_center_spec(a: int, b: int, dx: Scalar, dz: Scalar) -> Point3 {
    Vec3(
        Scalar::of_int(a).add_spec(ratio(9, 10).mul_spec(dx)),
        ratio(1, 5),
        Scalar::of_int(b).add_spec(ratio(9, 10).mul_spec(dz)),
    )
}

/// A small sphere keeps clear of the large metal sphere: its centre is more
/// than nine tenths away from `(4, 0.2, 0)`.
pub open spec fn is_clear_spec(center: Point3) -> bool {
    center.sub_spec(Vec3(ratio(4, 1), ratio(1, 5), ratio(0, 1))).magnitude_spec().raw > ratio(
        9,
        10,
    ).raw
}

/// Every channel of the colour lies in `[low, high)`.
pub open spec fn channels_within(c: Color, low: Scalar, high: Scalar) -> bool {
    c.0.within(low, high)
}

/// `m` is a possible material of a small sphere for the draw `choice` from
/// `[0, 1)`: diffuse below 0.8, with channels that are products of two draws
/// from `[0, 1)`; metal below 0.95, with channels from `[0.5, 1)` and a fuzz
/// from `[0, 0.5)`; glass of index 1.5 from there on.
pub open spec fn is_small_material(choice: Scalar, m: AnyMaterial) -> bool {
    if choice.raw < ratio(8, 10).raw {
        m matches AnyMaterial::Lambertian(l) && is_product_of_draws(
            l.albedo.0.0,
        ) && is_product_of_draws(l.albedo.0.1) && is_product_of_draws(
            l.albedo.0.2,
        )
    } else if choice.raw < ratio(95, 100).raw {
        m matches AnyMaterial::Metal(l) && channels_within(l.albedo, ratio(1, 2), ratio(1, 1))
            && 0 <= l.fuzz.raw < ratio(1, 2).raw
    } else {
        m == glass_spec(3, 2)
    }
}

/// `s` is a possible small sphere of the random scene: it has the radius
/// one fifth, lies on the ground in one of the cells, keeps clear of the
/// large metal sphere, and has a material that a draw allows.
pub open spec fn is_small_sphere(s: Sphere<AnyMaterial>) -> bool {
    &&& s.radius == ratio(1, 5)
    &&& is_clear_spec(s.center)
    &&& exists|a: int, b: int, dx: Scalar, dz: Scalar|
        -GRID <= a < GRID && -GRID <= b < GRID && 0 <= dx.raw < ONE_RAW && 0 <= dz.raw < ONE_RAW
            && s.center == #[trigger] cell_center_spec(a, b, dx, dz)
    &&& exists|choice: Scalar| 0 <= choice.raw < ONE_RAW && #[trigger] is_small_material(choice, s.material)
}

/// `world` is a possible random scene: the ground, then small spheres, then
/// the three large spheres.
pub open spec fn is_random_world(world: Seq<Sphere<AnyMaterial>>) -> bool {
    &&& 4 <= world.len() <= 4 + 4 * (GRID * GRID)
    &&& world[0] == floor_spec()
    &&& world.subrange(world.len() - 3, world.len() as int) == landmarks_spec()
    &&& forall|i: int| 1 <= i < world.len() - 3 ==> is_small_sphere(#[trigger] world[i])
}

fn matte(r: i32, g: i32, b: i32) -> (m: AnyMaterial)
    ensures
        m == matte_spec(r as int, g as int, b as int),
{
    AnyMaterial::Lambertian(
        Lambertian::new(
            Color::new(Scalar::from_ratio(r, 10), Scalar::from_ratio(g, 10), Scalar::from_ratio(b, 10)),
        ),
    )
}

fn glass(num: i32, den: i32) -> (m: AnyMaterial)
    ensures
        m == glass_spec(num as int, den as int),
{
    AnyMaterial::Dielectric(Dielectric::new(Scalar::from_ratio(num, den)))
}

fn whole(n: i32) -> (r: Scalar)
    ensures
        r == ratio(n as int, 1),
{
    Scalar::from_ratio(n, 1)
}

/// The scene of five spheres.
pub fn make_basic_world() -> (world: HittableList<Sphere<AnyMaterial>>)
    ensures
        world.objects@ == basic_world_spec(),
{
    let mut world = HittableList::default();

    let material_ground = matte(8, 8, 0);
    let material_center = matte(1, 2, 5);
    let material_glass = glass(3, 2);
    let air_pocket = glass(2, 3);
    let material_right = AnyMaterial::Metal(
        Metal {
            albedo: Color::new(
                Scalar::from_ratio(8, 10),
                Scalar::from_ratio(6, 10),
                Scalar::from_ratio(2, 10),
            ),
            fuzz: whole(1),
        },
    );

    let half = Scalar::from_ratio(1, 2);
    let left = Vec3::new(Scalar::from_ratio(-9, 10), Scalar::from_ratio(-1, 4), whole(-1));
    let sphere_1 = Sphere::new(
        Vec3::new(whole(0), whole(0), Scalar::from_ratio(-12, 10)),
        half,
        material_center,
    );
    let sphere_3 = Sphere::new(left, half, material_glass);
    let sphere_3_inner = Sphere::new(left, Scalar::from_ratio(4, 10), air_pocket);
    let sphere_4 = Sphere::new(Vec3::new(whole(1), whole(0), whole(-1)), half, material_right);

    world.push(sphere_1);
    world.push(sphere_3);
    world.push(sphere_3_inner);
    world.push(sphere_4);
    world.push(
        Sphere::new(
            Vec3::new(whole(1), Scalar::from_ratio(-201, 2), whole(-1)),
            whole(100),
            material_ground,
        ),
    );
    assert(world.objects@ =~= basic_world_spec());
    world
}

/// The scene of two spheres that touch.
pub fn make_wide_angle_world() -> (world: HittableList<Sphere<AnyMaterial>>)
    ensures
        world.objects@ == wide_angle_world_spec(),
{
    let mut world = HittableList::default();

    let r = Scalar { raw: COS_45_DEGREES_RAW };

    let material_left = matte(0, 0, 10);
    let material_right = matte(10, 0, 0);

    world.push(Sphere::new(Vec3::new(r.neg(), whole(0), whole(-1)), r, material_left));
    world.push(Sphere::new(Vec3::new(r, whole(0), whole(-1)), r, material_right));
    assert(world.objects@ =~= wide_angle_world_spec());
    world
}

/// The centre of a small sphere in its cell.
pub fn cell_center(a: i32, b: i32, dx: Scalar, dz: Scalar) -> (center: Point3)
    ensures
        center == cell_center_spec(a as int, b as int, dx, dz),
{
    let nine_tenths = Scalar::from_ratio(9, 10);
    Vec3::new(
        Scalar::from_int(a).add(nine_tenths.mul(dx)),
        Scalar::from_ratio(1, 5),
        Scalar::from_int(b).add(nine_tenths.mul(dz)),
    )
}

/// Whether a small sphere about `center` keeps clear of the large metal
/// sphere.
pub fn is_clear(center: Point3) -> (clear: bool)
    ensures
        clear == is_clear_spec(center),
{
    let landmark = Vec3::new(whole(4), Scalar::from_ratio(1, 5), whole(0));
    center.sub(landmark).magnitude().raw > Scalar::from_ratio(9, 10).raw
}

/// A random material of a small sphere, of the kind that `choice` selects.
pub fn small_material(choice: Scalar, rng: &mut Sampler) -> (m: AnyMaterial)
    ensures
        is_small_material(choice, m),
{
    let zero = whole(0);
    let half = Scalar::from_ratio(1, 2);
    let one = whole(1);
    if choice.raw < Scalar::from_ratio(8, 10).raw {
        let r = product_of_draws(rng);
        let g = product_of_draws(rng);
        let b = product_of_draws(rng);
        AnyMaterial::Lambertian(Lambertian::new(Color::new(r, g, b)))
    } else if choice.raw < Scalar::from_ratio(95, 100).raw {
        let albedo = Color::new(rng.uniform(half, one), rng.uniform(half, one), rng.uniform(half, one));
        let fuzz = rng.uniform(zero, half);
        AnyMaterial::Metal(Metal::new(albedo, fuzz))
    } else {
        glass(3, 2)
    }
}

/// The product of two draws from `[0, 1)`, which lies in `[0, 1)` again.
fn product_of_draws(rng: &mut Sampler) -> (p: Scalar)
    ensures
        is_product_of_draws(p),
        0 <= p.raw < ONE_RAW,
{
    let x = rng.uniform(whole(0), whole(1));
    let y = rng.uniform(whole(0), whole(1));
    let p = x.mul(y);
    proof {
        assert(p == x.mul_spec(y));
        product_of_draws_is_a_fraction(p);
    }
    p
}

/// `p` is a possible product of two draws from `[0, 1)`.
pub open spec fn is_product_of_draws(p: Scalar) -> bool {
    exists|x: Scalar, y: Scalar|
        0 <= x.raw < ONE_RAW && 0 <= y.raw < ONE_RAW && p == #[trigger] x.mul_spec(y)
}

/// A product of two scalars of `[0, 1)` lies in `[0, 1)` again.
pub proof fn product_of_draws_is_a_fraction(p: Scalar)
    requires
        is_product_of_draws(p),
    ensures
        0 <= p.raw < ONE_RAW,
{
    let (x, y) = choose|x: Scalar, y: Scalar|
        0 <= x.raw < ONE_RAW && 0 <= y.raw < ONE_RAW && p == #[trigger] x.mul_spec(y);
    assert(0 <= x.raw * y.raw < ONE_RAW * ONE_RAW) by (nonlinear_arith)
        requires
            0 <= x.raw < ONE_RAW,
            0 <= y.raw < ONE_RAW,
    ;
    assert((x.raw * y.raw) / (ONE_RAW as int) < ONE_RAW) by (nonlinear_arith)
        requires
            0 <= x.raw * y.raw < ONE_RAW * ONE_RAW,
            ONE_RAW > 0,
    ;
}

/// The scene of the ground, up to 484 small spheres of random place and
/// material, and three large spheres.
pub fn make_random_world(rng: &mut Sampler) -> (world: HittableList<Sphere<AnyMaterial>>)
    ensures
        is_random_world(world.objects@),
{
    let mut world = HittableList::default();

    let floor = Sphere::new(
        Vec3::new(whole(0), Scalar::from_ratio(-2001, 2), whole(0)),
        whole(1000),
        matte(8, 8, 0),
    );
    world.push(floor);

    let ball_rad = Scalar::from_ratio(1, 5);
    let mut a: i32 = -GRID;
    while a < GRID
        invariant
            -GRID <= a <= GRID,
            1 <= world.objects@.len() <= 1 + 22 * (a + GRID),
            world.objects@[0] == floor_spec(),
            forall|i: int| 1 <= i < world.objects@.len() ==> is_small_sphere(#[trigger] world.objects@[i]),
            ball_rad == ratio(1, 5),
        decreases GRID - a,
    {
        let mut b: i32 = -GRID;
        while b < GRID
            invariant
                -GRID <= a < GRID,
                -GRID <= b <= GRID,
                1 <= world.objects@.len() <= 1 + 22 * (a + GRID) + (b + GRID),
                world.objects@[0] == floor_spec(),
                forall|i: int|
                    1 <= i < world.objects@.len() ==> is_small_sphere(#[trigger] world.objects@[i]),
                ball_rad == ratio(1, 5),
            decreases GRID - b,
        {
            let rand_mat = rng.uniform(whole(0), whole(1));
            let dx = rng.uniform(whole(0), whole(1));
            let dz = rng.uniform(whole(0), whole(1));
            let center = cell_center(a, b, dx, dz);

            if is_clear(center) {
                let material = small_material(rand_mat, rng);
                let small = Sphere::new(center, ball_rad, material);
                assert(is_small_sphere(small)) by {
                    assert(small.center == cell_center_spec(a as int, b as int, dx, dz));
                    assert(is_small_material(rand_mat, small.material));
                }
                world.push(small);
            }
            b = b + 1;
        }
        a = a + 1;
    }
    let ghost small = world.objects@;
    let one = whole(1);
    world.push(Sphere::new(Vec3::new(whole(-4), one, whole(0)), one, matte(4, 2, 1)));
    world.push(
        Sphere::new(
            Vec3::new(whole(4), one, whole(0)),
            one,
            AnyMaterial::Metal(
                Metal {
                    albedo: Color::new(
                        Scalar::from_ratio(7, 10),
                        Scalar::from_ratio(6, 10),
                        Scalar::from_ratio(5, 10),
                    ),
                    fuzz: whole(0),
                },
            ),
        ),
    );
    world.push(Sphere::new(Vec3::new(whole(0), one, whole(0)), one, glass(3, 2)));
    proof {
        let all = world.objects@;
        assert(all.subrange(all.len() - 3, all.len() as int) =~= landmarks_spec());
        assert forall|i: int| 1 <= i < all.len() - 3 implies is_small_sphere(#[trigger] all[i]) by {
            assert(all[i] == small[i]);
        }
    }
    world
}

/// The configuration of the camera that looks at the random scene from
/// `(13, 2, 3)`: an image of 1200 by 960 pixels with 500 samples each, a
/// field of view of 20 degrees, and a lens angle of 0.6 degrees in focus at
/// the distance 10.
pub open spec fn cover_camera_spec() -> CameraBuilder {
    CameraBuilder {
        aspect_ratio: ratio(5, 4),
        image_width: 1200,
        samples_per_pixel: 500,
        reflection_depth: 50,
        half_fov_tan: Scalar { raw: TAN_10_DEGREES_RAW },
        look_from: Vec3(ratio(13, 1), ratio(2, 1), ratio(3, 1)),
        look_to: Vec3(ratio(0, 1), ratio(0, 1), ratio(0, 1)),
        vup: Vec3(ratio(0, 1), ratio(1, 1), ratio(0, 1)),
        half_defocus_tan: Scalar { raw: TAN_03_DEGREES_RAW },
        focus_distance: ratio(10, 1),
        sky: CameraBuilder::default_spec().sky,
    }
}

/// The configuration of the camera that looks at the random scene.
pub fn cover_camera() -> (builder: CameraBuilder)
    ensures
        builder == cover_camera_spec(),
{
    let mut camera_builder = Camera::builder();
    camera_builder.aspect_ratio = Scalar::from_ratio(5, 4);
    camera_builder.image_width = 1200;
    camera_builder.samples_per_pixel = 500;
    camera_builder.reflection_depth = 50;
    camera_builder.half_fov_tan = Scalar { raw: TAN_10_DEGREES_RAW };
    camera_builder.look_from = Vec3::new(whole(13), whole(2), whole(3));
    camera_builder.look_to = Vec3::new(whole(0), whole(0), whole(0));
    camera_builder.vup = Vec3::new(whole(0), whole(1), whole(0));
    camera_builder.half_defocus_tan = Scalar { raw: TAN_03_DEGREES_RAW };
    camera_builder.focus_distance = whole(10);
    camera_builder
}

} // verus!
