//! Colours: linear radiance per channel, and its encoding as a pixel.
use vstd::prelude::*;
use crate::scalar::{Scalar, ONE_RAW};
use crate::text::{decimal, push_decimal};
use crate::vec3::Vec3;

verus! {

/// Raw units of the largest channel value that is encoded as it is: 0.999,
/// rounded down.
pub const CHANNEL_MAX_RAW: i64 = 4290672328;

/// The number of levels of an encoded channel.
pub const CHANNEL_LEVELS: i32 = 256;

/// Linear radiance in the channels red, green and blue, each meant to lie
/// between zero and one.
#[derive(Clone, Copy, PartialEq, Eq, Structural, Debug)]
pub struct Color(pub Vec3);

/// An encoded colour: one byte for each of red, green and blue.
#[derive(Clone, Copy, PartialEq, Eq, Structural, Debug)]
pub struct Pixel {
    pub r: u8,
    pub g: u8,
    pub b: u8,
}

/// Gamma correction with gamma 2: the square root of a positive value, and
/// zero for any other.
pub open spec fn linear_to_gamma_spec(linear: Scalar) -> Scalar {
    if linear.raw > 0 {
        linear.sqrt_spec()
    } else {
        Scalar { raw: 0 }
    }
}

/// The value of `[low, high]` nearest to `val`, for `low <= high`.
pub open spec fn clamp_spec(low: Scalar, high: Scalar, val: Scalar) -> Scalar {
    if val.raw > high.raw {
        high
    } else if val.raw < low.raw {
        low
    } else {
        val
    }
}

/// The byte that encodes a linear channel value: the value is gamma
/// corrected, clamped to `[0, 0.999]`, multiplied by 256 and truncated.
pub open spec fn channel_spec(linear: Scalar) -> int {
    Scalar::of_int(CHANNEL_LEVELS as int).mul_spec(
        clamp_spec(Scalar { raw: 0 }, Scalar { raw: CHANNEL_MAX_RAW }, linear_to_gamma_spec(linear)),
    ).trunc_spec()
}

/// The sum of the colours of `s`, added from the left to black.
pub open spec fn sum_spec(s: Seq<Color>) -> Color
    decreases s.len(),
{
    if s.len() == 0 {
        Color(Vec3(Scalar { raw: 0 }, Scalar { raw: 0 }, Scalar { raw: 0 }))
    } else {
        sum_spec(s.drop_last()).add_spec(s.last())
    }
}

pub fn linear_to_gamma(linear: Scalar) -> (r: Scalar)
    ensures
        r == linear_to_gamma_spec(linear),
        r.raw >= 0,
{
    if linear.raw > 0 {
        linear.sqrt()
    } else {
        Scalar::zero()
    }
}

fn clamp(low: Scalar, high: Scalar, val: Scalar) -> (r: Scalar)
    ensures
        r == clamp_spec(low, high, val),
{
    if val.raw > high.raw {
        high
    } else if val.raw < low.raw {
        low
    } else {
        val
    }
}

/// The byte that encodes a linear channel value.
pub fn channel(linear: Scalar) -> (r: u8)
    ensures
        r == channel_spec(linear),
{
    let c = clamp(Scalar::zero(), Scalar { raw: CHANNEL_MAX_RAW }, linear_to_gamma(linear));
    let scaled = Scalar::from_int(CHANNEL_LEVELS).mul(c);
    assert(0 <= scaled.raw <= 256 * CHANNEL_MAX_RAW) by {
        assert((256 * ONE_RAW) * c.raw == (256 * c.raw) * ONE_RAW) by (nonlinear_arith);
        assert(((256 * c.raw) * ONE_RAW) / (ONE_RAW as int) == 256 * c.raw) by (nonlinear_arith)
            requires
                ONE_RAW > 0,
        ;
    }
    let level = scaled.trunc();
    level as u8
}

impl Pixel {
    /// The text of a pixel: its three bytes as decimal numerals, separated
    /// by single spaces.
    pub open spec fn text(self) -> Seq<char> {
        decimal(self.r as nat) + seq![' '] + decimal(self.g as nat) + seq![' '] + decimal(
            self.b as nat,
        )
    }

    /// Appends the text of the pixel to `out`.
    pub fn push_text(&self, out: &mut String)
        ensures
            final(out)@ == old(out)@ + self.text(),
    {
        push_decimal(out, self.r as usize);
        out.push(' ');
        push_decimal(out, self.g as usize);
        out.push(' ');
        push_decimal(out, self.b as usize);
        assert(out@ =~= old(out)@ + self.text());
    }
}

impl Color {
    pub open spec fn black_spec() -> Color {
        Color(Vec3(Scalar { raw: 0 }, Scalar { raw: 0 }, Scalar { raw: 0 }))
    }

    pub open spec fn white_spec() -> Color {
        Color(Vec3(Scalar { raw: ONE_RAW }, Scalar { raw: ONE_RAW }, Scalar { raw: ONE_RAW }))
    }

    pub open spec fn add_spec(self, rhs: Color) -> Color {
        Color(self.0.add_spec(rhs.0))
    }

    /// Every channel multiplied by `k`.
    pub open spec fn scale_spec(self, k: Scalar) -> Color {
        Color(self.0.scale_spec(k))
    }

    /// The channel-wise product.
    pub open spec fn mul_spec(self, rhs: Color) -> Color {
        Color(self.0.mul_spec(rhs.0))
    }

    /// Every channel divided by `k`.
    pub open spec fn div_spec(self, k: Scalar) -> Color {
        Color(self.0.div_spec(k))
    }

    /// The colour as it is written out: each channel encoded as a byte.
    pub open spec fn pixel_spec(self) -> Pixel {
        Pixel {
            r: channel_spec(self.0.0) as u8,
            g: channel_spec(self.0.1) as u8,
            b: channel_spec(self.0.2) as u8,
        }
    }

    pub fn new(a: Scalar, b: Scalar, c: Scalar) -> (r: Color)
        ensures
            r == Color(Vec3(a, b, c)),
    {
        Color(Vec3(a, b, c))
    }

    pub fn black() -> (r: Color)
        ensures
            r == Color::black_spec(),
    {
        Color::new(Scalar::zero(), Scalar::zero(), Scalar::zero())
    }

    pub fn white() -> (r: Color)
        ensures
            r == Color::white_spec(),
    {
        Color::new(Scalar::one(), Scalar::one(), Scalar::one())
    }

    pub fn from_vec3(value: Vec3) -> (r: Color)
        ensures
            r == Color(value),
    {
        Color(value)
    }

    /// The sum of the colours, added from the left to black.
    pub fn sum(colors: &Vec<Color>) -> (r: Color)
        ensures
            r == sum_spec(colors@),
    {
        let mut total = Color::black();
        let mut i: usize = 0;
        while i < colors.len()
            invariant
                i <= colors.len(),
                total == sum_spec(colors@.take(i as int)),
            decreases colors.len() - i,
        {
            assert(colors@.take(i as int + 1).drop_last() =~= colors@.take(i as int));
            total = total.add(colors[i]);
            i = i + 1;
        }
        assert(colors@.take(i as int) =~= colors@);
        total
    }

    /// The channel with the given index: 0 is red, 1 green, 2 blue.
    pub fn get(&self, index: usize) -> (r: Scalar)
        requires
            index < 3,
        ensures
            r == self.0.index_spec(index as int),
    {
        self.0.get(index)
    }

    /// Replaces the channel with the given index.
    pub fn set(&mut self, index: usize, value: Scalar)
        requires
            index < 3,
        ensures
            final(self).0.index_spec(index as int) == value,
            forall|i: int|
                0 <= i < 3 && i != index ==> final(self).0.index_spec(i) == old(self).0.index_spec(
                    i,
                ),
    {
        let mut v = self.0;
        v.set(index, value);
        self.0 = v;
    }

    pub fn add(self, rhs: Color) -> (r: Color)
        ensures
            r == self.add_spec(rhs),
    {
        Color(self.0.add(rhs.0))
    }

    pub fn scale(self, k: Scalar) -> (r: Color)
        ensures
            r == self.scale_spec(k),
    {
        Color(self.0.scale(k))
    }

    pub fn mul(self, rhs: Color) -> (r: Color)
        ensures
            r == self.mul_spec(rhs),
    {
        Color(self.0.mul(rhs.0))
    }

    pub fn div(self, k: Scalar) -> (r: Color)
        ensures
            r == self.div_spec(k),
    {
        Color(self.0.div(k))
    }

    /// The colour as it is written out: each channel gamma corrected, clamped
    /// to `[0, 0.999]`, multiplied by 256 and truncated to a byte.
    pub fn to_pixel(&self) -> (r: Pixel)
        ensures
            r == self.pixel_spec(),
    {
        Pixel { r: channel(self.0.0), g: channel(self.0.1), b: channel(self.0.2) }
    }

    /// The text of the encoded colour: `r g b` in decimal.
    pub fn to_string(&self) -> (r: String)
        ensures
            r@ == self.pixel_spec().text(),
    {
        let mut out = String::new();
        self.to_pixel().push_text(&mut out);
        out
    }
}

/// The colour whose channels are the components of the vector.
impl From<Vec3> for Color {
    fn from(value: Vec3) -> (r: Color) {
        Color(value)
    }
}

impl vstd::std_specs::convert::FromSpecImpl<Vec3> for Color {
    open spec fn obeys_from_spec() -> bool {
        true
    }

    open spec fn from_spec(value: Vec3) -> Color {
        Color(value)
    }
}

/// The colour of three channels.
impl From<(Scalar, Scalar, Scalar)> for Color {
    fn from(value: (Scalar, Scalar, Scalar)) -> (r: Color) {
        Color(Vec3(value.0, value.1, value.2))
    }
}

impl vstd::std_specs::convert::FromSpecImpl<(Scalar, Scalar, Scalar)> for Color {
    open spec fn obeys_from_spec() -> bool {
        true
    }

    open spec fn from_spec(value: (Scalar, Scalar, Scalar)) -> Color {
        Color(Vec3(value.0, value.1, value.2))
    }
}

/// The colour, every channel multiplied by the scalar.
impl core::ops::Mul<Scalar> for Color {
    type Output = Color;

    fn mul(self, rhs: Scalar) -> (r: Color) {
        Color::scale(self, rhs)
    }
}

impl vstd::std_specs::ops::MulSpecImpl<Scalar> for Color {
    open spec fn obeys_mul_spec() -> bool {
        true
    }

    open spec fn mul_req(self, rhs: Scalar) -> bool {
        true
    }

    open spec fn mul_spec(self, rhs: Scalar) -> Color {
        Color::scale_spec(self, rhs)
    }
}

/// The colour, every channel multiplied by the scalar.
impl core::ops::Mul<Scalar> for &Color {
    type Output = Color;

    fn mul(self, rhs: Scalar) -> (r: Color) {
        Color::scale(*self, rhs)
    }
}

impl vstd::std_specs::ops::MulSpecImpl<Scalar> for &Color {
    open spec fn obeys_mul_spec() -> bool {
        true
    }

    open spec fn mul_req(self, rhs: Scalar) -> bool {
        true
    }

    open spec fn mul_spec(self, rhs: Scalar) -> Color {
        Color::scale_spec(*self, rhs)
    }
}

/// The colour, every channel multiplied by the scalar.
impl core::ops::Mul<Color> for Scalar {
    type Output = Color;

    fn mul(self, rhs: Color) -> (r: Color) {
        Color::scale(rhs, self)
    }
}

impl vstd::std_specs::ops::MulSpecImpl<Color> for Scalar {
    open spec fn obeys_mul_spec() -> bool {
        true
    }

    open spec fn mul_req(self, rhs: Color) -> bool {
        true
    }

    open spec fn mul_spec(self, rhs: Color) -> Color {
        Color::scale_spec(rhs, self)
    }
}

/// The colour, every channel multiplied by the scalar.
impl core::ops::Mul<&Color> for Scalar {
    type Output = Color;

    fn mul(self, rhs: &Color) -> (r: Color) {
        Color::scale(*rhs, self)
    }
}

impl vstd::std_specs::ops::MulSpecImpl<&Color> for Scalar {
    open spec fn obeys_mul_spec() -> bool {
        true
    }

    open spec fn mul_req(self, rhs: &Color) -> bool {
        true
    }

    open spec fn mul_spec(self, rhs: &Color) -> Color {
        Color::scale_spec(*rhs, self)
    }
}

/// The product, channel by channel.
impl core::ops::Mul<Color> for Color {
    type Output = Color;

    fn mul(self, rhs: Color) -> (r: Color) {
        Color::mul(self, rhs)
    }
}

impl vstd::std_specs::ops::MulSpecImpl<Color> for Color {
    open spec fn obeys_mul_spec() -> bool {
        true
    }

    open spec fn mul_req(self, rhs: Color) -> bool {
        true
    }

    open spec fn mul_spec(self, rhs: Color) -> Color {
        Color::mul_spec(self, rhs)
    }
}

/// The sum, channel by channel.
impl core::ops::Add<Color> for Color {
    type Output = Color;

    fn add(self, rhs: Color) -> (r: Color) {
        Color::add(self, rhs)
    }
}

impl vstd::std_specs::ops::AddSpecImpl<Color> for Color {
    open spec fn obeys_add_spec() -> bool {
        true
    }

    open spec fn add_req(self, rhs: Color) -> bool {
        true
    }

    open spec fn add_spec(self, rhs: Color) -> Color {
        Color::add_spec(self, rhs)
    }
}

/// Adds a colour in place.
impl core::ops::AddAssign<Color> for Color {
    fn add_assign(&mut self, rhs: Color)
        ensures
            *final(self) == Color::add_spec(*old(self), rhs),
    {
        *self = Color::add(*self, rhs);
    }
}

/// Divides by a scalar in place.
impl core::ops::DivAssign<Scalar> for Color {
    fn div_assign(&mut self, rhs: Scalar)
        ensures
            *final(self) == Color::div_spec(*old(self), rhs),
    {
        *self = Color::div(*self, rhs);
    }
}

/// Divides by an integer in place.
impl core::ops::DivAssign<usize> for Color {
    fn div_assign(&mut self, rhs: usize)
        ensures
            *final(self) == Color::div_spec(*old(self), Scalar::of_int(rhs as int)),
    {
        *self = Color::div(*self, Scalar::from_usize(rhs));
    }
}

} // verus!
