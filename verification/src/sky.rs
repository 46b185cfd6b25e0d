//! What an empty scene shows: the sky, and nothing darker.
use vstd::prelude::*;
use crate::camera::{background_spec, blend_is_a_share, blend_spec, empty_scene_shows_background, Camera};
use crate::color::{channel_spec, sum_spec, Color, Pixel, CHANNEL_MAX_RAW};
use crate::hittable::{Hittable, HittableList};
use crate::ray::Ray;
use crate::scalar::{is_root, quotient, root, root_exists, Scalar, ONE_RAW};

verus! {

/// The largest number of samples per pixel for which the mean of the samples
/// is known to lose less than one level of a channel: two to the 24.
pub const MEAN_SAMPLES: usize = 0x100_0000;

/// The quotient of a multiple of one by one.
proof fn whole_quotient(x: int)
    ensures
        quotient(ONE_RAW * x, ONE_RAW as int) == x,
{
    if x >= 0 {
        assert(ONE_RAW * x >= 0) by (nonlinear_arith)
            requires
                x >= 0,
        ;
        vstd::arithmetic::div_mod::lemma_div_multiples_vanish(x, ONE_RAW as int);
    } else {
        assert(-(ONE_RAW * x) == ONE_RAW * (-x)) by (nonlinear_arith);
        assert(ONE_RAW * x < 0) by (nonlinear_arith)
            requires
                x < 0,
        ;
        vstd::arithmetic::div_mod::lemma_div_multiples_vanish(-x, ONE_RAW as int);
    }
}

/// Under a sky whose blue is one, the background is blue all over: white
/// and sky are blended by shares that add up to one.
pub proof fn background_is_blue(sky: Color, r: Ray)
    requires
        sky.0.2.raw == ONE_RAW,
    ensures
        background_spec(sky, r).0.2.raw == ONE_RAW,
{
    blend_is_a_share(r);
    let a = blend_spec(r).raw as int;
    whole_quotient(ONE_RAW - a);
    whole_quotient(a);
}

/// The blue of a sum of colours that are blue all over is as many times one
/// as there are colours, for no more than `MEAN_SAMPLES` of them.
pub proof fn sum_of_blue(samples: Seq<Color>)
    requires
        samples.len() <= MEAN_SAMPLES,
        forall|k: int| 0 <= k < samples.len() ==> (#[trigger] samples[k]).0.2.raw == ONE_RAW,
    ensures
        sum_spec(samples).0.2.raw == samples.len() * ONE_RAW,
    decreases samples.len(),
{
    if samples.len() > 0 {
        let front = samples.drop_last();
        assert forall|k: int| 0 <= k < front.len() implies (#[trigger] front[k]).0.2.raw
            == ONE_RAW by {
            assert(front[k] == samples[k]);
        }
        sum_of_blue(front);
        assert(samples.len() * ONE_RAW == front.len() * ONE_RAW + ONE_RAW) by (nonlinear_arith)
            requires
                samples.len() == front.len() + 1,
        ;
        assert(samples.len() * ONE_RAW <= 0x100_0000 * 0x1_0000_0000) by (nonlinear_arith)
            requires
                samples.len() <= 0x100_0000,
                ONE_RAW == 0x1_0000_0000,
        ;
    }
}

/// The mean of `n` ones is within `n` raw units of one: `n` times one,
/// multiplied by one over `n`.
pub proof fn mean_of_ones(total: Scalar, n: int)
    requires
        1 <= n <= MEAN_SAMPLES,
        total.raw == n * ONE_RAW,
    ensures
        ONE_RAW - n < total.mul_spec(Scalar::of_int(1).div_spec(Scalar::of_int(n))).raw <= ONE_RAW,
{
    let s = ONE_RAW as int;
    assert(s == 0x1_0000_0000);
    assert(1 * s <= n * s <= 0x100_0000 * s) by (nonlinear_arith)
        requires
            1 <= n <= 0x100_0000,
            s > 0,
    ;
    let f = s / n;
    vstd::arithmetic::div_mod::lemma_fundamental_div_mod(s, n);
    vstd::arithmetic::div_mod::lemma_mod_bound(s, n);
    vstd::arithmetic::div_mod::lemma_div_pos_is_pos(s, n);
    // one over n
    assert((s * s) / (n * s) == f) by {
        let rem = s % n;
        assert(s * s == f * (n * s) + rem * s) by (nonlinear_arith)
            requires
                s == n * f + rem,
        ;
        assert(0 <= rem * s < n * s) by (nonlinear_arith)
            requires
                0 <= rem < n,
                s > 0,
        ;
        vstd::arithmetic::div_mod::lemma_fundamental_div_mod_converse(s * s, n * s, f, rem * s);
    }
    assert(s * s >= 0) by (nonlinear_arith);
    assert(0 <= f <= s) by (nonlinear_arith)
        requires
            s == n * f + s % n,
            0 <= s % n,
            n >= 1,
            f >= 0,
    ;
    assert(Scalar::of_int(1).raw == s);
    assert(Scalar::of_int(n).raw == n * s);
    assert(Scalar::of_int(1).div_spec(Scalar::of_int(n)).raw == f);
    // n times one, times one over n
    assert((n * s) * f == s * (n * f)) by (nonlinear_arith);
    whole_quotient(n * f);
    assert(0 <= n * f <= s) by (nonlinear_arith)
        requires
            s == n * f + s % n,
            0 <= s % n,
            n >= 1,
            f >= 0,
    ;
}

/// A channel that lies within 2^-8 of one, and not above it, is encoded as
/// 255.
pub proof fn bright_channel(x: Scalar)
    requires
        ONE_RAW - MEAN_SAMPLES <= x.raw <= ONE_RAW,
    ensures
        channel_spec(x) == 255,
{
    let s = ONE_RAW as int;
    assert(s == 0x1_0000_0000);
    let n = x.raw * s;
    assert(0xff00_0000int * 0xff00_0000 <= n <= s * s) by (nonlinear_arith)
        requires
            n == x.raw * s,
            0xff00_0000 <= x.raw <= s,
            s == 0x1_0000_0000,
    ;
    root_exists(n);
    let g = root(n);
    assert(0xff00_0000 <= g <= s) by (nonlinear_arith)
        requires
            g * g <= n,
            n < (g + 1) * (g + 1),
            0xff00_0000int * 0xff00_0000 <= n,
            n <= s * s,
            g >= 0,
            s == 0x1_0000_0000,
    ;
    let c = if g > CHANNEL_MAX_RAW {
        CHANNEL_MAX_RAW as int
    } else {
        g
    };
    assert((256 * s) * c == s * (256 * c)) by (nonlinear_arith);
    whole_quotient(256 * c);
}

/// An empty scene shows the sky in every pixel. Under a sky whose blue is
/// one, with at least one bounce followed and with no more than
/// `MEAN_SAMPLES` samples per pixel, the blue byte of every possible pixel
/// is 255: no pixel is black.
pub proof fn empty_scene_is_blue<H: Hittable>(
    camera: &Camera,
    world: &HittableList<H>,
    i: usize,
    j: usize,
    px: Pixel,
)
    requires
        world.objects@.len() == 0,
        camera.reflection_depth >= 1,
        1 <= camera.samples_per_pixel <= MEAN_SAMPLES,
        camera.pixel_sample_scale == Scalar::of_int(1).div_spec(
            Scalar::of_int(camera.samples_per_pixel as int),
        ),
        camera.sky.0.2.raw == ONE_RAW,
        camera.is_pixel(world, i, j, px),
    ensures
        px.b == 255,
{
    let samples = choose|samples: Seq<Color>|
        samples.len() == camera.samples_per_pixel && (forall|k: int|
            0 <= k < samples.len() ==> camera.is_sample(world, i, j, #[trigger] samples[k])) && px
            == #[trigger] camera.pixel_of(samples);
    assert forall|k: int| 0 <= k < samples.len() implies (#[trigger] samples[k]).0.2.raw
        == ONE_RAW by {
        let c = samples[k];
        assert(camera.is_sample(world, i, j, c));
        let (offset, lens) = choose|offset: crate::vec3::Vec3, lens: crate::vec3::Vec3|
            crate::camera::is_offset(offset) && lens.in_unit_disk() && crate::camera::is_radiance(
                world,
                camera.sky,
                #[trigger] camera.ray_spec(i, j, offset, lens),
                camera.reflection_depth as nat,
                c,
            );
        let r = camera.ray_spec(i, j, offset, lens);
        empty_scene_shows_background(world, camera.sky, r, camera.reflection_depth as nat, c);
        background_is_blue(camera.sky, r);
    }
    sum_of_blue(samples);
    let n = camera.samples_per_pixel as int;
    mean_of_ones(sum_spec(samples).0.2, n);
    let mean = sum_spec(samples).scale_spec(camera.pixel_sample_scale);
    bright_channel(mean.0.2);
}

} // verus!
