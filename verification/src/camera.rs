//! The camera: from its configuration to the rays through each pixel, the
//! light that comes back along them, and the rendered image.
use vstd::prelude::*;
use core::ops::Range;
use crate::color::{sum_spec, Color, Pixel};
use crate::hittable::{Hittable, HittableList};
use crate::material::{is_draw, Material};
use crate::ppm::{encode, image_line_count, image_text, line_count};
use crate::ray::Ray;
use crate::sampler::Sampler;
use crate::scalar::{Scalar, MAX_RAW, ONE_RAW};
use crate::vec3::{Point3, Vec3};

verus! {

/// Raw units of the lower end of every search for a hit: 0.001, rounded
/// down. A ray that leaves a surface does not hit it again right there.
pub const T_MIN_RAW: i64 = 4294967;

/// Raw units of one half.
pub const HALF_RAW: i64 = 0x8000_0000;

/// `o` is a possible offset of a sample from the centre of its pixel: less
/// than half a pixel to either side in both directions of the image.
pub open spec fn is_offset(o: Vec3) -> bool {
    &&& -HALF_RAW <= o.0.raw < HALF_RAW
    &&& -HALF_RAW <= o.1.raw < HALF_RAW
    &&& o.2.raw == 0
}

/// The interval over which rays are tested against the scene: from 0.001
/// without an upper end.
pub open spec fn search_interval() -> Range<Scalar> {
    Scalar { raw: T_MIN_RAW }..Scalar { raw: MAX_RAW }
}

/// The colour of the background behind the ray `r`: white blended with
/// `sky` by `a = (y + 1) / 2`, where `y` is the height of the direction of
/// the ray after normalizing.
pub open spec fn background_spec(sky: Color, r: Ray) -> Color {
    let a = blend_spec(r);
    Color::white_spec().scale_spec(Scalar::of_int(1).sub_spec(a)).add_spec(sky.scale_spec(a))
}

/// The share of the sky in the background behind the ray `r`:
/// `a = (y + 1) / 2`, where `y` is the height of the direction of the ray
/// after normalizing.
pub open spec fn blend_spec(r: Ray) -> Scalar {
    Scalar::of_ratio(1, 2).mul_spec(r.direction.unit_vector_spec().1.add_spec(Scalar::of_int(1)))
}

/// The share of the sky in the background lies between zero and one,
/// whatever the direction of the ray.
pub proof fn blend_is_a_share(r: Ray)
    ensures
        0 <= blend_spec(r).raw <= ONE_RAW,
{
    let d = r.direction;
    let y = d.unit_vector_spec().1.raw as int;
    assert(-ONE_RAW <= y <= ONE_RAW) by {
        if d.magnitude_spec().raw == 0 {
            let q = d.sum_of_squares();
            assert(d.0.raw * d.0.raw >= 0 && d.1.raw * d.1.raw >= 0 && d.2.raw * d.2.raw >= 0)
                by (nonlinear_arith);
            crate::scalar::root_exists(q);
            assert(q == 0) by (nonlinear_arith)
                requires
                    q < (crate::scalar::root(q) + 1) * (crate::scalar::root(q) + 1),
                    crate::scalar::root(q) == 0,
                    q >= 0,
            ;
            assert(d.1.raw == 0) by (nonlinear_arith)
                requires
                    d.1.raw * d.1.raw <= 0,
            ;
        } else {
            d.normalize_is_bounded();
        }
    }
    let half = Scalar::of_ratio(1, 2);
    assert(half.raw == 0x8000_0000);
    let sum = y + ONE_RAW;
    assert(0 <= half.raw * sum <= 0x8000_0000 * (2 * ONE_RAW)) by (nonlinear_arith)
        requires
            half.raw == 0x8000_0000,
            0 <= sum <= 2 * ONE_RAW,
    ;
    crate::scalar::quotient_monotone(0, half.raw * sum, ONE_RAW as int);
    crate::scalar::quotient_monotone(half.raw * sum, 0x8000_0000 * (2 * ONE_RAW), ONE_RAW as int);
}

/// `c` is a possible colour of the light that comes back along the ray `r`
/// when no more than `depth` bounces are followed. After no bounce it is
/// black. A ray that misses the scene brings the background. A ray that hits
/// is scattered by the material with some random direction and threshold: if
/// it is absorbed it brings black, else the attenuation times a possible
/// colour of the scattered ray with one bounce fewer.
pub open spec fn is_radiance<W: Hittable>(world: &W, sky: Color, r: Ray, depth: nat, c: Color) -> bool
    decreases depth,
{
    if depth == 0 {
        c == Color::black_spec()
    } else {
        match world.hit_spec(r, search_interval()) {
            None => c == background_spec(sky, r),
            Some(h) => exists|unit: Vec3, draw: Scalar, rest: Color|
                unit.is_unit_sample() && is_draw(draw) && #[trigger] follows(
                    h.material.scatter_spec(r, h, unit, draw),
                    rest,
                    c,
                ) && (h.material.scatter_spec(r, h, unit, draw) matches Some(next)
                    ==> is_radiance(world, sky, next.1, (depth - 1) as nat, rest)),
        }
    }
}

/// `c` is the colour that a ray brings which was scattered with the outcome
/// `outcome`, where the scattered ray brings `rest`: black if it was
/// absorbed, else the attenuation times `rest`.
pub open spec fn follows(outcome: Option<(Color, Ray)>, rest: Color, c: Color) -> bool {
    match outcome {
        None => c == Color::black_spec(),
        Some((attenuation, scattered)) => c == attenuation.mul_spec(rest),
    }
}

/// A scene without surfaces shows the background and nothing else: the light
/// that comes back along a ray is the background colour behind that ray, as
/// long as at least one bounce is followed.
pub proof fn empty_scene_shows_background<H: Hittable>(
    world: &HittableList<H>,
    sky: Color,
    r: Ray,
    depth: nat,
    c: Color,
)
    requires
        world.objects@.len() == 0,
        depth > 0,
    ensures
        is_radiance(world, sky, r, depth, c) <==> c == background_spec(sky, r),
{
    assert(world.hit_spec(r, search_interval()) is None);
}

/// The configuration of a camera.
pub struct CameraBuilder {
    /// Width over height of the image.
    pub aspect_ratio: Scalar,
    /// Width of the image in pixels.
    pub image_width: usize,
    /// Rays traced for each pixel.
    pub samples_per_pixel: usize,
    /// The longest chain of bounces that is followed.
    pub reflection_depth: usize,
    /// The tangent of half the vertical field of view.
    pub half_fov_tan: Scalar,
    /// Where the camera stands.
    pub look_from: Point3,
    /// The point that the camera looks at.
    pub look_to: Point3,
    /// The direction that appears upright in the image.
    pub vup: Vec3,
    /// The tangent of half the angle under which the lens is seen from the
    /// point in focus. A value that is not positive gives a pinhole camera.
    pub half_defocus_tan: Scalar,
    /// The distance from the camera to the plane in perfect focus.
    pub focus_distance: Scalar,
    /// The colour of the background straight above; toward straight below
    /// the background fades to white.
    pub sky: Color,
}

/// A camera that is ready to render: what the configuration says, with all
/// that follows from it worked out once.
pub struct Camera {
    pub image_width: usize,
    pub samples_per_pixel: usize,
    pub reflection_depth: usize,
    pub image_height: usize,
    /// The centre of the pixel in the upper left corner.
    pub pixel00: Vec3,
    /// From one pixel to its neighbour on the right.
    pub pixel_delta_u: Vec3,
    /// From one pixel to its neighbour below.
    pub pixel_delta_v: Vec3,
    pub center: Vec3,
    /// One over the number of samples per pixel.
    pub pixel_sample_scale: Scalar,
    /// The two radii that span the lens, or nothing for a pinhole camera.
    pub lens_dimensions: Option<(Vec3, Vec3)>,
    pub sky: Color,
}

impl Default for CameraBuilder {
    fn default() -> (r: Self)
        ensures
            r == CameraBuilder::default_spec(),
    {
        CameraBuilder {
            aspect_ratio: Scalar::from_ratio(16, 9),
            image_width: 1200,
            samples_per_pixel: 100,
            reflection_depth: 50,
            half_fov_tan: Scalar::from_int(1),
            look_from: Vec3::new(Scalar::from_int(0), Scalar::from_int(0), Scalar::from_int(0)),
            look_to: Vec3::new(Scalar::from_int(0), Scalar::from_int(0), Scalar::from_int(-1)),
            vup: Vec3::new(Scalar::from_int(0), Scalar::from_int(1), Scalar::from_int(0)),
            half_defocus_tan: Scalar::from_int(0),
            focus_distance: Scalar::from_int(10),
            sky: Color::new(Scalar::from_ratio(6, 10), Scalar::from_ratio(5, 10), Scalar::from_int(1)),
        }
    }
}

impl CameraBuilder {
    /// The configuration that every camera starts from: an image of 1200
    /// pixels at 16:9 with 100 samples per pixel and up to 50 bounces, seen
    /// from the origin along the negative z axis with a field of view of 90
    /// degrees through a pinhole, in focus at the distance 10, under a sky
    /// of `(0.6, 0.5, 1)`.
    pub open spec fn default_spec() -> CameraBuilder {
        CameraBuilder {
            aspect_ratio: Scalar::of_ratio(16, 9),
            image_width: 1200,
            samples_per_pixel: 100,
            reflection_depth: 50,
            half_fov_tan: Scalar::of_int(1),
            look_from: Vec3(Scalar::of_int(0), Scalar::of_int(0), Scalar::of_int(0)),
            look_to: Vec3(Scalar::of_int(0), Scalar::of_int(0), Scalar::of_int(-1)),
            vup: Vec3(Scalar::of_int(0), Scalar::of_int(1), Scalar::of_int(0)),
            half_defocus_tan: Scalar::of_int(0),
            focus_distance: Scalar::of_int(10),
            sky: Color(Vec3(Scalar::of_ratio(6, 10), Scalar::of_ratio(5, 10), Scalar::of_int(1))),
        }
    }

    /// The height of the image in pixels: the width divided by the aspect
    /// ratio and rounded to the nearest integer, but at least one.
    pub open spec fn image_height_spec(&self) -> int {
        let rounded = Scalar::of_int(self.image_width as int).div_spec(self.aspect_ratio).add_spec(
            Scalar::of_ratio(1, 2),
        ).trunc_spec();
        if rounded < 1 {
            1
        } else {
            rounded
        }
    }

    /// The unit vector from the point looked at to the camera.
    pub open spec fn w_spec(&self) -> Vec3 {
        self.look_from.sub_spec(self.look_to).normalize_spec()
    }

    /// The unit vector that points to the right in the image.
    pub open spec fn u_spec(&self) -> Vec3 {
        self.vup.cross_spec(self.w_spec()).normalize_spec()
    }

    /// The unit vector that points up in the image.
    pub open spec fn v_spec(&self) -> Vec3 {
        self.w_spec().cross_spec(self.u_spec())
    }

    /// The camera has a viewing direction and an upright: it does not stand
    /// in the point it looks at, and `vup` does not lie along its line of
    /// sight.
    pub open spec fn has_basis(&self) -> bool {
        &&& self.look_from.sub_spec(self.look_to).magnitude_spec().raw != 0
        &&& self.vup.cross_spec(self.w_spec()).magnitude_spec().raw != 0
    }

    /// The height of the viewport in the plane of focus:
    /// `2 tan(fov / 2) focus_distance`.
    pub open spec fn viewport_height_spec(&self) -> Scalar {
        Scalar::of_int(2).mul_spec(self.half_fov_tan).mul_spec(self.focus_distance)
    }

    /// The width of the viewport: its height times the width of the image
    /// over the height of the image.
    pub open spec fn viewport_width_spec(&self) -> Scalar {
        self.viewport_height_spec().mul_spec(
            Scalar::of_int(self.image_width as int).div_spec(
                Scalar::of_int(self.image_height_spec()),
            ),
        )
    }

    /// The viewport's upper edge, from left to right.
    pub open spec fn viewport_u_spec(&self) -> Vec3 {
        self.u_spec().scale_spec(self.viewport_width_spec())
    }

    /// The viewport's left edge, from top to bottom.
    pub open spec fn viewport_v_spec(&self) -> Vec3 {
        self.v_spec().neg_spec().scale_spec(self.viewport_height_spec())
    }

    pub open spec fn pixel_delta_u_spec(&self) -> Vec3 {
        self.viewport_u_spec().div_spec(Scalar::of_int(self.image_width as int))
    }

    pub open spec fn pixel_delta_v_spec(&self) -> Vec3 {
        self.viewport_v_spec().div_spec(Scalar::of_int(self.image_height_spec()))
    }

    /// The centre of the upper left pixel: the upper left corner of the
    /// viewport, which lies at the focus distance in front of the camera,
    /// moved by half a pixel to the right and half a pixel down.
    pub open spec fn pixel00_spec(&self) -> Vec3 {
        let two = Scalar::of_int(2);
        let upper_left = self.look_from.sub_spec(self.w_spec().scale_spec(self.focus_distance)).sub_spec(
            self.viewport_u_spec().div_spec(two),
        ).sub_spec(self.viewport_v_spec().div_spec(two));
        upper_left.add_spec(
            self.pixel_delta_u_spec().add_spec(self.pixel_delta_v_spec()).scale_spec(
                Scalar::of_ratio(1, 2),
            ),
        )
    }

    /// The radii that span the lens, which has the radius
    /// `focus_distance tan(defocus / 2)`; nothing where that tangent is not
    /// positive.
    pub open spec fn lens_spec(&self) -> Option<(Vec3, Vec3)> {
        if self.half_defocus_tan.raw > 0 {
            let radius = self.focus_distance.mul_spec(self.half_defocus_tan);
            Some((self.u_spec().scale_spec(radius), self.v_spec().scale_spec(radius)))
        } else {
            None
        }
    }

    /// The camera that the configuration describes.
    pub open spec fn build_spec(&self) -> Camera {
        Camera {
            image_width: self.image_width,
            samples_per_pixel: self.samples_per_pixel,
            reflection_depth: self.reflection_depth,
            image_height: self.image_height_spec() as usize,
            pixel00: self.pixel00_spec(),
            pixel_delta_u: self.pixel_delta_u_spec(),
            pixel_delta_v: self.pixel_delta_v_spec(),
            center: self.look_from,
            pixel_sample_scale: Scalar::of_int(1).div_spec(
                Scalar::of_int(self.samples_per_pixel as int),
            ),
            lens_dimensions: self.lens_spec(),
            sky: self.sky,
        }
    }

    /// The height of the image in pixels.
    pub fn image_height(&self) -> (h: usize)
        ensures
            h == self.image_height_spec(),
            1 <= h <= 0x7fff_ffff,
    {
        let rounded = Scalar::from_usize(self.image_width).div(self.aspect_ratio).add(
            Scalar::from_ratio(1, 2),
        ).trunc();
        if rounded < 1 {
            1
        } else {
            assert(rounded <= 0x7fff_ffff) by {
                vstd::arithmetic::div_mod::lemma_div_is_ordered(
                    Scalar::of_int(self.image_width as int).div_spec(self.aspect_ratio).add_spec(
                        Scalar::of_ratio(1, 2),
                    ).raw as int,
                    0x7fff_ffff_ffff_ffff,
                    ONE_RAW as int,
                );
            }
            rounded as usize
        }
    }

    /// Whether the camera has a viewing direction and an upright, so that it
    /// can be built.
    pub fn is_buildable(&self) -> (ok: bool)
        ensures
            ok == self.has_basis(),
    {
        let toward = self.look_from.sub(self.look_to);
        if toward.magnitude().raw == 0 {
            return false;
        }
        let w = toward.normalize();
        self.vup.cross(&w).magnitude().raw != 0
    }

    /// Works out the camera. A configuration without a viewing direction or
    /// an upright is not accepted.
    pub fn build(self) -> (camera: Camera)
        requires
            self.has_basis(),
        ensures
            camera == self.build_spec(),
            camera.image_height >= 1,
    {
        let image_height = self.image_height();
        let pixel_sample_scale = Scalar::from_int(1).div(Scalar::from_usize(self.samples_per_pixel));
        let center = self.look_from;

        let h = self.half_fov_tan;

        let viewport_height = Scalar::from_int(2).mul(h).mul(self.focus_distance);
        let viewport_width = viewport_height.mul(
            Scalar::from_usize(self.image_width).div(Scalar::from_usize(image_height)),
        );

        let w = center.sub(self.look_to).normalize();
        let u = self.vup.cross(&w).normalize();
        let v = w.cross(&u);

        let viewport_u = u.scale(viewport_width);
        let viewport_v = v.neg().scale(viewport_height);

        let pixel_delta_u = viewport_u.div(Scalar::from_usize(self.image_width));
        let pixel_delta_v = viewport_v.div(Scalar::from_usize(image_height));

        let two = Scalar::from_int(2);
        let viewport_upper_left = center.sub(w.scale(self.focus_distance)).sub(
            viewport_u.div(two),
        ).sub(viewport_v.div(two));
        let pixel00 = viewport_upper_left.add(
            pixel_delta_u.add(pixel_delta_v).scale(Scalar::from_ratio(1, 2)),
        );

        let lens_dimensions = if self.half_defocus_tan.raw > 0 {
            let defocus_radius = self.focus_distance.mul(self.half_defocus_tan);
            let lens_u = u.scale(defocus_radius);
            let lens_v = v.scale(defocus_radius);
            Some((lens_u, lens_v))
        } else {
            None
        };

        Camera {
            image_width: self.image_width,
            samples_per_pixel: self.samples_per_pixel,
            image_height,
            pixel00,
            pixel_delta_u,
            pixel_delta_v,
            center,
            pixel_sample_scale,
            reflection_depth: self.reflection_depth,
            lens_dimensions,
            sky: self.sky,
        }
    }
}

impl Camera {
    /// The ray through the pixel in column `i` and row `j`, at the offset
    /// `offset` from its centre, from the point `lens` of the unit disk that
    /// stands for the lens. The ray starts on the lens, or in the centre of
    /// the camera where there is no lens, and runs through the sample point.
    pub open spec fn ray_spec(&self, i: usize, j: usize, offset: Vec3, lens: Vec3) -> Ray {
        let sample = self.pixel00.add_spec(
            self.pixel_delta_u.scale_spec(Scalar::of_int(i as int).add_spec(offset.0)),
        ).add_spec(self.pixel_delta_v.scale_spec(Scalar::of_int(j as int).add_spec(offset.1)));
        let origin = match self.lens_dimensions {
            None => self.center,
            Some((lens_u, lens_v)) => self.center.add_spec(lens_u.scale_spec(lens.0)).add_spec(
                lens_v.scale_spec(lens.1),
            ),
        };
        Ray { direction: sample.sub_spec(origin), origin }
    }

    /// `c` is a possible colour of one sample of the pixel in column `i` and
    /// row `j`.
    pub open spec fn is_sample<W: Hittable>(&self, world: &W, i: usize, j: usize, c: Color) -> bool {
        exists|offset: Vec3, lens: Vec3|
            is_offset(offset) && lens.in_unit_disk() && is_radiance(
                world,
                self.sky,
                #[trigger] self.ray_spec(i, j, offset, lens),
                self.reflection_depth as nat,
                c,
            )
    }

    /// The pixel that a sequence of samples gives: their sum, multiplied by
    /// one over the number of samples per pixel, and encoded.
    pub open spec fn pixel_of(&self, samples: Seq<Color>) -> Pixel {
        sum_spec(samples).scale_spec(self.pixel_sample_scale).pixel_spec()
    }

    /// `px` is a possible value of the pixel in column `i` and row `j`: what
    /// `samples_per_pixel` possible samples of it give.
    pub open spec fn is_pixel<W: Hittable>(&self, world: &W, i: usize, j: usize, px: Pixel) -> bool {
        exists|samples: Seq<Color>|
            samples.len() == self.samples_per_pixel && (forall|k: int|
                0 <= k < samples.len() ==> self.is_sample(world, i, j, #[trigger] samples[k])) && px
                == #[trigger] self.pixel_of(samples)
    }

    /// `pixels` is a possible image: one possible pixel for each place, row
    /// after row from the top, each row from the left, so that the pixel in
    /// column `i` and row `j` stands at `j * image_width + i`.
    pub open spec fn is_image<W: Hittable>(&self, world: &W, pixels: Seq<Pixel>) -> bool {
        &&& pixels.len() == self.image_width * self.image_height
        &&& forall|k: int|
            0 <= k < pixels.len() ==> self.is_pixel(
                world,
                (k % (self.image_width as int)) as usize,
                (k / (self.image_width as int)) as usize,
                #[trigger] pixels[k],
            )
    }

    /// The ray through a pixel for a given offset and point of the lens.
    pub fn ray_through(&self, i: usize, j: usize, offset: Vec3, lens: Vec3) -> (r: Ray)
        ensures
            r == self.ray_spec(i, j, offset, lens),
    {
        let pixel_center = self.pixel00.add(
            self.pixel_delta_u.scale(Scalar::from_usize(i).add(offset.0)),
        ).add(self.pixel_delta_v.scale(Scalar::from_usize(j).add(offset.1)));
        let ray_orig = match self.lens_dimensions {
            None => self.center,
            Some((lens_u, lens_v)) => self.center.add(lens_u.scale(lens.0)).add(
                lens_v.scale(lens.1),
            ),
        };
        let raydir = pixel_center.sub(ray_orig);
        Ray::new(raydir, ray_orig)
    }

    /// A random offset from the centre of a pixel.
    pub fn sample_square(rng: &mut Sampler) -> (o: Vec3)
        ensures
            is_offset(o),
    {
        let x = rng.uniform(Scalar { raw: -HALF_RAW }, Scalar { raw: HALF_RAW });
        let y = rng.uniform(Scalar { raw: -HALF_RAW }, Scalar { raw: HALF_RAW });
        Vec3(x, y, Scalar::zero())
    }

    /// A ray through a random point of the pixel in column `i` and row `j`,
    /// from a random point of the lens.
    pub fn get_ray(&self, i: usize, j: usize, rng: &mut Sampler) -> (r: Ray)
        ensures
            exists|offset: Vec3, lens: Vec3|
                is_offset(offset) && lens.in_unit_disk() && r == #[trigger] self.ray_spec(
                    i,
                    j,
                    offset,
                    lens,
                ),
    {
        let offset = Camera::sample_square(rng);
        let lens = match self.lens_dimensions {
            None => Vec3(Scalar::zero(), Scalar::zero(), Scalar::zero()),
            Some(_) => Vec3::random_in_unit_disk(rng),
        };
        self.ray_through(i, j, offset, lens)
    }

    /// The colour of the background behind a ray.
    pub fn background(&self, r: &Ray) -> (c: Color)
        ensures
            c == background_spec(self.sky, *r),
    {
        let unit_dir = r.direction.unit_vector();
        let a = Scalar::from_ratio(1, 2).mul(unit_dir.1.add(Scalar::from_int(1)));
        Color::white().scale(Scalar::from_int(1).sub(a)).add(self.sky.scale(a))
    }

    /// The colour of the light that comes back along the ray `r`, following
    /// no more than `depth` bounces.
    pub fn ray_color<W: Hittable>(&self, r: Ray, depth: usize, world: &W, rng: &mut Sampler) -> (c:
        Color)
        ensures
            is_radiance(world, self.sky, r, depth as nat, c),
        decreases depth,
    {
        if depth == 0 {
            return Color::black();
        }
        let interval = Range { start: Scalar { raw: T_MIN_RAW }, end: Scalar::max_value() };
        match world.hit(&r, &interval) {
            Some(t) => {
                let outcome = t.material.scatter(&r, &t, rng);
                match outcome {
                    Some((attenuation, scattered)) => {
                        let rest = self.ray_color(scattered, depth - 1, world, rng);
                        let c = attenuation.mul(rest);
                        assert(follows(outcome, rest, c));
                        c
                    },
                    None => {
                        let c = Color::black();
                        assert(follows(outcome, c, c));
                        c
                    },
                }
            },
            None => self.background(&r),
        }
    }

    /// The pixel in column `i` and row `j`: the mean of `samples_per_pixel`
    /// samples, encoded.
    pub fn render_pixel<W: Hittable>(&self, world: &W, i: usize, j: usize, rng: &mut Sampler) -> (px:
        Pixel)
        ensures
            self.is_pixel(world, i, j, px),
    {
        let mut pixel = Color::black();
        let ghost mut samples: Seq<Color> = Seq::empty();
        let mut n: usize = 0;
        while n < self.samples_per_pixel
            invariant
                n <= self.samples_per_pixel,
                samples.len() == n,
                pixel == sum_spec(samples),
                forall|k: int|
                    0 <= k < samples.len() ==> self.is_sample(world, i, j, #[trigger] samples[k]),
            decreases self.samples_per_pixel - n,
        {
            let r = self.get_ray(i, j, rng);
            let c = self.ray_color(r, self.reflection_depth, world, rng);
            proof {
                assert(self.is_sample(world, i, j, c));
                assert(samples.push(c).drop_last() =~= samples);
                samples = samples.push(c);
            }
            pixel = pixel.add(c);
            n = n + 1;
        }
        let px = pixel.scale(self.pixel_sample_scale).to_pixel();
        assert(px == self.pixel_of(samples));
        px
    }

    /// The pixels of row `j`, from the left.
    pub fn render_row<W: Hittable>(&self, world: &W, j: usize, rng: &mut Sampler) -> (row: Vec<
        Pixel,
    >)
        ensures
            row@.len() == self.image_width,
            forall|i: usize| i < self.image_width ==> self.is_pixel(world, i, j, #[trigger] row@[i as int]),
    {
        let mut row: Vec<Pixel> = Vec::new();
        let mut i: usize = 0;
        while i < self.image_width
            invariant
                i <= self.image_width,
                row@.len() == i,
                forall|k: usize| k < i ==> self.is_pixel(world, k, j, #[trigger] row@[k as int]),
            decreases self.image_width - i,
        {
            let px = self.render_pixel(world, i, j, rng);
            row.push(px);
            i = i + 1;
        }
        row
    }

    /// The seed of the random stream of row `j`. Every row has a stream of
    /// its own, so that a row comes out the same in whatever order, or on
    /// whatever thread, the rows are rendered.
    pub fn row_seed(seed: u64, j: usize) -> (s: u64)
        ensures
            s == (seed + j) % 0x1_0000_0000_0000_0000,
    {
        ((seed as u128 + j as u128) % 0x1_0000_0000_0000_0000) as u64
    }

    /// The pixels of the image, row after row from the top, each row from
    /// the left.
    pub fn render_pixels<W: Hittable>(&self, world: &W, seed: u64) -> (pixels: Vec<Pixel>)
        requires
            self.image_width * self.image_height <= usize::MAX,
        ensures
            self.is_image(world, pixels@),
    {
        let mut pixels: Vec<Pixel> = Vec::new();
        let mut j: usize = 0;
        while j < self.image_height
            invariant
                j <= self.image_height,
                pixels@.len() == j * self.image_width,
                forall|k: int|
                    0 <= k < pixels@.len() ==> self.is_pixel(
                        world,
                        (k % (self.image_width as int)) as usize,
                        (k / (self.image_width as int)) as usize,
                        #[trigger] pixels@[k],
                    ),
            decreases self.image_height - j,
        {
            let mut rng = Sampler::from_seed(Camera::row_seed(seed, j));
            let mut row = self.render_row(world, j, &mut rng);
            let ghost before = pixels@;
            let ghost fresh = row@;
            pixels.append(&mut row);
            proof {
                let w = self.image_width as int;
                assert((j + 1) * w == j * w + w) by (nonlinear_arith);
                assert forall|k: int| 0 <= k < pixels@.len() implies self.is_pixel(
                    world,
                    (k % w) as usize,
                    (k / w) as usize,
                    #[trigger] pixels@[k],
                ) by {
                    if k < j * w {
                        assert(pixels@[k] == before[k]);
                    } else {
                        let i = k - j * w;
                        vstd::arithmetic::div_mod::lemma_fundamental_div_mod_converse(
                            k,
                            w,
                            j as int,
                            i,
                        );
                        assert(pixels@[k] == fresh[i]);
                        assert(self.is_pixel(world, i as usize, j, fresh[i as usize as int]));
                    }
                }
            }
            j = j + 1;
        }
        proof {
            assert(self.image_height * self.image_width == self.image_width * self.image_height)
                by (nonlinear_arith);
        }
        pixels
    }

    /// Renders the scene and writes the image as text. The rows are
    /// rendered from the top, each with the random stream that `seed` gives
    /// it.
    pub fn render<W: Hittable>(&self, world: &W, seed: u64) -> (out: String)
        requires
            self.image_width * self.image_height <= usize::MAX,
        ensures
            exists|pixels: Seq<Pixel>|
                self.is_image(world, pixels) && out@ == #[trigger] image_text(
                    self.image_width as nat,
                    self.image_height as nat,
                    pixels,
                ),
            line_count(out@) == 3 + self.image_width * self.image_height,
    {
        let pixels = self.render_pixels(world, seed);
        proof {
            image_line_count(self.image_width as nat, self.image_height as nat, pixels@);
        }
        encode(self.image_width, self.image_height, &pixels)
    }

    /// The default configuration, to be changed field by field.
    pub fn builder() -> (b: CameraBuilder)
        ensures
            b == CameraBuilder::default_spec(),
    {
        CameraBuilder::default()
    }
}

} // verus!
