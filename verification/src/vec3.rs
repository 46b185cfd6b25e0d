//! Three-component vectors, used alike for points, directions and colours.
use vstd::prelude::*;
use crate::sampler::Sampler;
use crate::scalar::{
    integer_root, is_root, magnitude_of, quotient, quotient_magnitude, quotient_nonnegative, root,
    root_exists, root_is, root_monotone, saturate, Scalar, MAX_RAW, ONE_RAW,
};
use crate::text::{push_scalar, scalar_text};

verus! {

/// Raw units of the threshold under which a component counts as near zero:
/// 10^-7, rounded down.
pub const NEAR_ZERO_RAW: i64 = 429;

/// How often rejection sampling draws before it settles for a fixed point.
/// A draw from the cube lands in the ball more than half of the time, so the
/// fixed point is returned less than once in 10^19 calls.
pub const SAMPLE_ATTEMPTS: usize = 64;

/// Raw units of one half: a vector with no component that long counts as
/// short.
pub const SHORT_RAW: i64 = 0x8000_0000;

/// A vector of three scalars.
#[derive(Clone, Copy, PartialEq, Eq, Structural, Debug)]
pub struct Vec3(pub Scalar, pub Scalar, pub Scalar);

/// A position in space.
pub type Point3 = Vec3;

impl Vec3 {
    pub open spec fn add_spec(self, v: Vec3) -> Vec3 {
        Vec3(self.0.add_spec(v.0), self.1.add_spec(v.1), self.2.add_spec(v.2))
    }

    pub open spec fn sub_spec(self, v: Vec3) -> Vec3 {
        Vec3(self.0.sub_spec(v.0), self.1.sub_spec(v.1), self.2.sub_spec(v.2))
    }

    pub open spec fn neg_spec(self) -> Vec3 {
        Vec3(self.0.neg_spec(), self.1.neg_spec(), self.2.neg_spec())
    }

    /// Every component multiplied by `k`.
    pub open spec fn scale_spec(self, k: Scalar) -> Vec3 {
        Vec3(self.0.mul_spec(k), self.1.mul_spec(k), self.2.mul_spec(k))
    }

    /// The component-wise product.
    pub open spec fn mul_spec(self, v: Vec3) -> Vec3 {
        Vec3(self.0.mul_spec(v.0), self.1.mul_spec(v.1), self.2.mul_spec(v.2))
    }

    /// Every component divided by `k`.
    pub open spec fn div_spec(self, k: Scalar) -> Vec3 {
        Vec3(self.0.div_spec(k), self.1.div_spec(k), self.2.div_spec(k))
    }

    /// The dot product: the three products of the components are added up
    /// exactly and rounded once.
    pub open spec fn dot_spec(self, v: Vec3) -> Scalar {
        Scalar::sum_of_products_spec(self.0, v.0, self.1, v.1, self.2, v.2)
    }

    /// The cross product: each component is a difference of two products,
    /// rounded once.
    pub open spec fn cross_spec(self, v: Vec3) -> Vec3 {
        Vec3(
            Scalar::difference_of_products_spec(self.1, v.2, self.2, v.1),
            Scalar::difference_of_products_spec(self.2, v.0, self.0, v.2),
            Scalar::difference_of_products_spec(self.0, v.1, self.1, v.0),
        )
    }

    pub open spec fn magnitude_squared_spec(self) -> Scalar {
        self.dot_spec(self)
    }

    /// The sum of the squares of the three raw components, in full.
    pub open spec fn sum_of_squares(self) -> int {
        self.0.raw * self.0.raw + self.1.raw * self.1.raw + self.2.raw * self.2.raw
    }

    /// The length of the vector: the square root of the sum of the squares
    /// of its components, which is not rounded before the root is taken. The
    /// root is rounded down to a whole raw unit.
    pub open spec fn magnitude_spec(self) -> Scalar {
        Scalar { raw: saturate(root(self.sum_of_squares())) as i64 }
    }

    /// Every component is shorter than one half.
    pub open spec fn is_short(self) -> bool {
        magnitude_of(self.0.raw as int) < SHORT_RAW && magnitude_of(self.1.raw as int) < SHORT_RAW
            && magnitude_of(self.2.raw as int) < SHORT_RAW
    }

    /// The factor by which a vector is stretched before it is normalized,
    /// so that its length is known to 31 bits or more: 2^32 for a short
    /// vector, one for any other.
    pub open spec fn stretch_spec(self) -> int {
        if self.is_short() {
            ONE_RAW as int
        } else {
            1
        }
    }

    /// The length of the stretched vector in raw units, rounded down.
    pub open spec fn stretched_length(self) -> int {
        root(self.stretch_spec() * self.stretch_spec() * self.sum_of_squares())
    }

    /// One component of the normalized vector: the stretched component
    /// divided by the length of the stretched vector.
    pub open spec fn normalize_component(self, x: Scalar) -> Scalar {
        Scalar {
            raw: quotient(x.raw * self.stretch_spec() * ONE_RAW, self.stretched_length()) as i64,
        }
    }

    /// The vector divided by its length. A short vector is stretched by 2^32
    /// first, which changes nothing of its direction and lets the division
    /// work on a length of many digits.
    pub open spec fn normalize_spec(self) -> Vec3 {
        Vec3(
            self.normalize_component(self.0),
            self.normalize_component(self.1),
            self.normalize_component(self.2),
        )
    }

    /// The normalized vector, or the vector itself where its magnitude is zero.
    pub open spec fn unit_vector_spec(self) -> Vec3 {
        if self.magnitude_spec().raw == 0 {
            self
        } else {
            self.normalize_spec()
        }
    }

    /// Every component is nearer to zero than the threshold, on either side.
    pub open spec fn near_zero_spec(self) -> bool {
        &&& -NEAR_ZERO_RAW < self.0.raw < NEAR_ZERO_RAW
        &&& -NEAR_ZERO_RAW < self.1.raw < NEAR_ZERO_RAW
        &&& -NEAR_ZERO_RAW < self.2.raw < NEAR_ZERO_RAW
    }

    /// The mirror image of the vector about the plane with normal `n`:
    /// `v - 2 (v . n) n`.
    pub open spec fn reflect_spec(self, n: Vec3) -> Vec3 {
        self.sub_spec(n.scale_spec(Scalar::of_int(2).mul_spec(self.dot_spec(n))))
    }

    /// The cosine that refraction works with: `min(-v . n, 1)`.
    pub open spec fn cos_theta_spec(self, n: Vec3) -> Scalar {
        self.neg_spec().dot_spec(n).min_spec(Scalar::of_int(1))
    }

    /// The part of the refracted direction that lies in the surface.
    pub open spec fn refract_perpendicular_spec(self, n: Vec3, eta_ratio: Scalar) -> Vec3 {
        self.add_spec(n.scale_spec(self.cos_theta_spec(n))).scale_spec(eta_ratio)
    }

    /// The direction of the vector after it crosses a surface with normal `n`
    /// between media whose refractive indices have the ratio `eta_ratio`, by
    /// Snell's law. Total internal reflection is not detected here.
    pub open spec fn refract_spec(self, n: Vec3, eta_ratio: Scalar) -> Vec3 {
        let perpendicular = self.refract_perpendicular_spec(n, eta_ratio);
        let parallel = n.scale_spec(
            Scalar::of_int(1).sub_spec(
                perpendicular.magnitude_squared_spec(),
            ).abs_spec().sqrt_spec().neg_spec(),
        );
        perpendicular.add_spec(parallel)
    }

    /// The component with the given index.
    pub open spec fn index_spec(self, i: int) -> Scalar {
        if i == 0 {
            self.0
        } else if i == 1 {
            self.1
        } else {
            self.2
        }
    }

    /// Every component lies in `[low, high)`.
    pub open spec fn within(self, low: Scalar, high: Scalar) -> bool {
        &&& low.raw <= self.0.raw < high.raw
        &&& low.raw <= self.1.raw < high.raw
        &&& low.raw <= self.2.raw < high.raw
    }

    /// A point of the cube `[-1, 1)^3` in the closed unit ball: no longer than one.
    pub open spec fn in_unit_ball(self) -> bool {
        &&& self.within(Scalar::of_int(-1), Scalar::of_int(1))
        &&& self.magnitude_squared_spec().raw <= ONE_RAW
    }

    /// A point of the unit ball in the plane `z = 0` that is shorter than one.
    pub open spec fn in_unit_disk(self) -> bool {
        &&& self.in_unit_ball() && self.magnitude_squared_spec().raw < ONE_RAW
        &&& self.2.raw == 0
    }

    /// `self` is what normalizing the ball point `p` gives.
    pub open spec fn is_unit_of(self, p: Vec3) -> bool {
        &&& p.in_unit_ball()
        &&& p.magnitude_spec().raw != 0
        &&& self == p.normalize_spec()
    }

    /// `self` is a possible outcome of `random_unit_vector`: a point of the
    /// unit ball with a magnitude, normalized.
    pub open spec fn is_unit_sample(self) -> bool {
        exists|p: Vec3| self.is_unit_of(p)
    }

    /// The vector `u` where its dot product with `self` is positive, and its
    /// negation elsewhere.
    pub open spec fn toward_spec(self, u: Vec3) -> Vec3 {
        if self.dot_spec(u).raw > 0 {
            u
        } else {
            u.neg_spec()
        }
    }

    /// The squared magnitude of a vector is not negative.
    pub proof fn magnitude_squared_nonnegative(self)
        ensures
            self.magnitude_squared_spec().raw >= 0,
    {
        assert(self.0.raw * self.0.raw >= 0) by (nonlinear_arith);
        assert(self.1.raw * self.1.raw >= 0) by (nonlinear_arith);
        assert(self.2.raw * self.2.raw >= 0) by (nonlinear_arith);
        quotient_nonnegative(
            self.0.raw * self.0.raw + self.1.raw * self.1.raw + self.2.raw * self.2.raw,
            ONE_RAW as int,
        );
    }

    /// Three scalars drawn uniformly from `low` up to, but not including,
    /// `high`. Where no scalar lies between the two, all three are `low`.
    pub fn random_range(rng: &mut Sampler, low: Scalar, high: Scalar) -> (r: Vec3)
        ensures
            low.raw < high.raw ==> r.within(low, high),
            low.raw >= high.raw ==> r == Vec3(low, low, low),
    {
        let a = rng.uniform(low, high);
        let b = rng.uniform(low, high);
        let c = rng.uniform(low, high);
        Vec3(a, b, c)
    }

    /// Three scalars drawn uniformly from `[0, 1)`.
    pub fn random(rng: &mut Sampler) -> (r: Vec3)
        ensures
            r.within(Scalar::of_int(0), Scalar::of_int(1)),
    {
        Vec3::random_range(rng, Scalar::from_int(0), Scalar::from_int(1))
    }

    /// A point drawn uniformly from the closed unit ball, by rejection:
    /// points of the surrounding cube are drawn until one lies in the ball.
    /// After `SAMPLE_ATTEMPTS` draws outside it the centre is returned.
    pub fn random_in_unit_sphere(rng: &mut Sampler) -> (r: Vec3)
        ensures
            r.in_unit_ball(),
    {
        let mut attempt: usize = 0;
        while attempt < SAMPLE_ATTEMPTS
            invariant
                attempt <= SAMPLE_ATTEMPTS,
            decreases SAMPLE_ATTEMPTS - attempt,
        {
            let p = Vec3::random_range(rng, Scalar::from_int(-1), Scalar::from_int(1));
            if p.magnitude_squared().raw <= ONE_RAW {
                return p;
            }
            attempt = attempt + 1;
        }
        Vec3(Scalar::zero(), Scalar::zero(), Scalar::zero())
    }

    /// A point drawn uniformly from the unit disk in the plane `z = 0`, by
    /// rejection, with the centre as the point of last resort.
    pub fn random_in_unit_disk(rng: &mut Sampler) -> (r: Vec3)
        ensures
            r.in_unit_disk(),
    {
        let mut attempt: usize = 0;
        while attempt < SAMPLE_ATTEMPTS
            invariant
                attempt <= SAMPLE_ATTEMPTS,
            decreases SAMPLE_ATTEMPTS - attempt,
        {
            let x = rng.uniform(Scalar::from_int(-1), Scalar::from_int(1));
            let y = rng.uniform(Scalar::from_int(-1), Scalar::from_int(1));
            let p = Vec3(x, y, Scalar::zero());
            if p.magnitude_squared().raw < ONE_RAW {
                return p;
            }
            attempt = attempt + 1;
        }
        Vec3(Scalar::zero(), Scalar::zero(), Scalar::zero())
    }

    /// A direction drawn uniformly: a point of the unit ball, normalized.
    /// Points without a magnitude are drawn again; after `SAMPLE_ATTEMPTS`
    /// of them the point `(1/2, 0, 0)` is normalized instead.
    pub fn random_unit_vector(rng: &mut Sampler) -> (r: Vec3)
        ensures
            r.is_unit_sample(),
    {
        let mut attempt: usize = 0;
        while attempt < SAMPLE_ATTEMPTS
            invariant
                attempt <= SAMPLE_ATTEMPTS,
            decreases SAMPLE_ATTEMPTS - attempt,
        {
            let p = Vec3::random_in_unit_sphere(rng);
            let m = p.magnitude();
            if m.raw != 0 {
                let r = p.normalize();
                assert(r.is_unit_of(p));
                return r;
            }
            attempt = attempt + 1;
        }
        let p = Vec3(Scalar::from_ratio(1, 2), Scalar::zero(), Scalar::zero());
        proof {
            lemma_half_point(p);
        }
        let r = p.normalize();
        assert(r.is_unit_of(p));
        r
    }

    /// The direction `u`, turned around unless it points to the side of
    /// `self`.
    pub fn toward(&self, u: Vec3) -> (r: Vec3)
        ensures
            r == self.toward_spec(u),
    {
        if self.dot(&u).raw > 0 {
            u
        } else {
            u.neg()
        }
    }

    /// A direction drawn uniformly from the half of the unit sphere on the
    /// side of `self`.
    pub fn random_on_hemisphere(&self, rng: &mut Sampler) -> (r: Vec3)
        ensures
            exists|u: Vec3| u.is_unit_sample() && r == self.toward_spec(u),
    {
        let on_unit_sphere = Vec3::random_unit_vector(rng);
        let r = self.toward(on_unit_sphere);
        assert(on_unit_sphere.is_unit_sample() && r == self.toward_spec(on_unit_sphere));
        r
    }

    /// The text of the vector: its three components, separated by single
    /// spaces.
    pub open spec fn text(self) -> Seq<char> {
        scalar_text(self.0.raw as int) + seq![' '] + scalar_text(self.1.raw as int) + seq![' ']
            + scalar_text(self.2.raw as int)
    }

    /// The text of the vector: its three components, separated by single
    /// spaces.
    pub fn to_string(&self) -> (r: String)
        ensures
            r@ == self.text(),
    {
        let mut out = String::new();
        push_scalar(&mut out, self.0);
        out.push(' ');
        push_scalar(&mut out, self.1);
        out.push(' ');
        push_scalar(&mut out, self.2);
        assert(out@ =~= self.text());
        out
    }

    pub fn new(a: Scalar, b: Scalar, c: Scalar) -> (r: Vec3)
        ensures
            r == Vec3(a, b, c),
    {
        Vec3(a, b, c)
    }

    /// The vector whose three components are the integer `value`.
    pub fn from_usize(value: usize) -> (r: Vec3)
        ensures
            r == Vec3(
                Scalar::of_int(value as int),
                Scalar::of_int(value as int),
                Scalar::of_int(value as int),
            ),
    {
        let val = Scalar::from_usize(value);
        Vec3(val, val, val)
    }

    pub fn add(self, v: Vec3) -> (r: Vec3)
        ensures
            r == self.add_spec(v),
    {
        Vec3(self.0.add(v.0), self.1.add(v.1), self.2.add(v.2))
    }

    pub fn sub(self, v: Vec3) -> (r: Vec3)
        ensures
            r == self.sub_spec(v),
    {
        Vec3(self.0.sub(v.0), self.1.sub(v.1), self.2.sub(v.2))
    }

    pub fn neg(self) -> (r: Vec3)
        ensures
            r == self.neg_spec(),
    {
        Vec3(self.0.neg(), self.1.neg(), self.2.neg())
    }

    pub fn scale(self, k: Scalar) -> (r: Vec3)
        ensures
            r == self.scale_spec(k),
    {
        Vec3(self.0.mul(k), self.1.mul(k), self.2.mul(k))
    }

    pub fn mul(self, v: Vec3) -> (r: Vec3)
        ensures
            r == self.mul_spec(v),
    {
        Vec3(self.0.mul(v.0), self.1.mul(v.1), self.2.mul(v.2))
    }

    pub fn div(self, k: Scalar) -> (r: Vec3)
        ensures
            r == self.div_spec(k),
    {
        Vec3(self.0.div(k), self.1.div(k), self.2.div(k))
    }

    /// The component with the given index.
    pub fn get(&self, index: usize) -> (r: Scalar)
        requires
            index < 3,
        ensures
            r == self.index_spec(index as int),
    {
        if index == 0 {
            self.0
        } else if index == 1 {
            self.1
        } else {
            self.2
        }
    }

    /// Replaces the component with the given index.
    pub fn set(&mut self, index: usize, value: Scalar)
        requires
            index < 3,
        ensures
            final(self).index_spec(index as int) == value,
            forall|i: int| 0 <= i < 3 && i != index ==> final(self).index_spec(i) == old(self).index_spec(i),
    {
        if index == 0 {
            self.0 = value;
        } else if index == 1 {
            self.1 = value;
        } else {
            self.2 = value;
        }
    }

    /// The sum of the squares of the components stretched by `k`, which is
    /// one or 2^32 as `stretch_spec` has it.
    fn stretched_squares(&self, k: i128) -> (q: u128)
        requires
            k == self.stretch_spec(),
        ensures
            q == k * k * self.sum_of_squares(),
    {
        let a = wide_square(self.0.raw, k);
        let b = wide_square(self.1.raw, k);
        let c = wide_square(self.2.raw, k);
        assert(k * k * self.sum_of_squares() == k * k * (self.0.raw * self.0.raw) + k * k * (
        self.1.raw * self.1.raw) + k * k * (self.2.raw * self.2.raw)) by (nonlinear_arith)
            requires
                self.sum_of_squares() == self.0.raw * self.0.raw + self.1.raw * self.1.raw
                    + self.2.raw * self.2.raw,
        ;
        a + b + c
    }

    /// The factor by which the vector is stretched before it is normalized.
    fn stretch(&self) -> (k: i128)
        ensures
            k == self.stretch_spec(),
    {
        if is_short_raw(self.0.raw) && is_short_raw(self.1.raw) && is_short_raw(self.2.raw) {
            ONE_RAW as i128
        } else {
            1
        }
    }

    /// The length of the vector, rounded down to a whole raw unit.
    pub fn magnitude(&self) -> (r: Scalar)
        ensures
            r == self.magnitude_spec(),
            r.raw >= 0,
    {
        let a = wide_square(self.0.raw, 1);
        let b = wide_square(self.1.raw, 1);
        let c = wide_square(self.2.raw, 1);
        let m = integer_root(a + b + c);
        proof {
            root_is(self.sum_of_squares(), m as int);
        }
        if m > MAX_RAW as u64 {
            Scalar { raw: MAX_RAW }
        } else {
            Scalar { raw: m as i64 }
        }
    }

    pub fn magnitude_squared(&self) -> (r: Scalar)
        ensures
            r == self.magnitude_squared_spec(),
    {
        self.dot(self)
    }

    pub fn dot(&self, v: &Vec3) -> (r: Scalar)
        ensures
            r == self.dot_spec(*v),
    {
        Scalar::sum_of_products(self.0, v.0, self.1, v.1, self.2, v.2)
    }

    pub fn cross(&self, v: &Vec3) -> (r: Vec3)
        ensures
            r == self.cross_spec(*v),
    {
        Vec3(
            Scalar::difference_of_products(self.1, v.2, self.2, v.1),
            Scalar::difference_of_products(self.2, v.0, self.0, v.2),
            Scalar::difference_of_products(self.0, v.1, self.1, v.0),
        )
    }

    /// The vector divided by its magnitude. A vector whose magnitude is zero
    /// has no direction and is not accepted.
    pub fn normalize(&self) -> (r: Vec3)
        requires
            self.magnitude_spec().raw != 0,
        ensures
            r == self.normalize_spec(),
    {
        let k = self.stretch();
        let q = self.stretched_squares(k);
        let m = integer_root(q);
        proof {
            root_is(q as int, m as int);
            self.normalize_is_bounded();
        }
        Vec3(
            normalized(self.0.raw, k, m),
            normalized(self.1.raw, k, m),
            normalized(self.2.raw, k, m),
        )
    }

    /// A vector that is not the zero vector has a length, stretched, of at
    /// least 2^31 raw units, and no component of the stretched vector is
    /// longer than that length. So no component of the normalized vector is
    /// longer than one.
    pub proof fn normalize_is_bounded(self)
        requires
            self.magnitude_spec().raw != 0,
        ensures
            self.stretched_length() >= SHORT_RAW,
            is_root(
                self.stretch_spec() * self.stretch_spec() * self.sum_of_squares(),
                self.stretched_length(),
            ),
            magnitude_of(self.0.raw * self.stretch_spec()) <= self.stretched_length(),
            magnitude_of(self.1.raw * self.stretch_spec()) <= self.stretched_length(),
            magnitude_of(self.2.raw * self.stretch_spec()) <= self.stretched_length(),
            magnitude_of(
                quotient(self.0.raw * self.stretch_spec() * ONE_RAW, self.stretched_length()),
            ) <= ONE_RAW,
            magnitude_of(
                quotient(self.1.raw * self.stretch_spec() * ONE_RAW, self.stretched_length()),
            ) <= ONE_RAW,
            magnitude_of(
                quotient(self.2.raw * self.stretch_spec() * ONE_RAW, self.stretched_length()),
            ) <= ONE_RAW,
            magnitude_of(self.normalize_spec().0.raw as int) <= ONE_RAW,
            magnitude_of(self.normalize_spec().1.raw as int) <= ONE_RAW,
            magnitude_of(self.normalize_spec().2.raw as int) <= ONE_RAW,
    {
        let k = self.stretch_spec();
        let (x0, x1, x2) = (self.0.raw as int, self.1.raw as int, self.2.raw as int);
        let (w0, w1, w2) = (x0 * k, x1 * k, x2 * k);
        let q = self.sum_of_squares();
        assert(x0 * x0 >= 0 && x1 * x1 >= 0 && x2 * x2 >= 0) by (nonlinear_arith);
        root_exists(q);
        assert(q >= 1) by {
            if q == 0 {
                root_is(0, 0);
            }
        }
        let qw = k * k * q;
        assert(w0 * w0 == k * k * (x0 * x0)) by (nonlinear_arith)
            requires
                w0 == x0 * k,
        ;
        assert(w1 * w1 == k * k * (x1 * x1)) by (nonlinear_arith)
            requires
                w1 == x1 * k,
        ;
        assert(w2 * w2 == k * k * (x2 * x2)) by (nonlinear_arith)
            requires
                w2 == x2 * k,
        ;
        assert(qw == k * k * (x0 * x0) + k * k * (x1 * x1) + k * k * (x2 * x2)) by (nonlinear_arith)
            requires
                qw == k * k * q,
                q == x0 * x0 + x1 * x1 + x2 * x2,
        ;
        assert(w0 * w0 >= 0 && w1 * w1 >= 0 && w2 * w2 >= 0) by (nonlinear_arith);
        root_exists(qw);
        let m = self.stretched_length();
        // the length is at least 2^31
        assert(qw >= 0x8000_0000int * 0x8000_0000int) by {
            if self.is_short() {
                assert(qw >= 0x1_0000_0000int * 0x1_0000_0000int) by (nonlinear_arith)
                    requires
                        qw == k * k * q,
                        k == 0x1_0000_0000int,
                        q >= 1,
                ;
            } else {
                assert(x0 * x0 >= 0x8000_0000int * 0x8000_0000int || x1 * x1 >= 0x8000_0000int
                    * 0x8000_0000int || x2 * x2 >= 0x8000_0000int * 0x8000_0000int)
                    by (nonlinear_arith)
                    requires
                        magnitude_of(x0) >= 0x8000_0000int || magnitude_of(x1) >= 0x8000_0000int
                            || magnitude_of(x2) >= 0x8000_0000int,
                ;
                assert(qw == q) by (nonlinear_arith)
                    requires
                        qw == k * k * q,
                        k == 1,
                ;
            }
        }
        assert(is_root(0x8000_0000int * 0x8000_0000int, 0x8000_0000int)) by (nonlinear_arith);
        root_monotone(0x8000_0000int * 0x8000_0000int, 0x8000_0000int, qw, m);
        // no component is longer than the length
        let m1 = m + 1;
        assert(magnitude_of(w0) < m1) by (nonlinear_arith)
            requires
                w0 * w0 <= qw,
                qw < m1 * m1,
                m1 > 0,
                magnitude_of(w0) == w0 || magnitude_of(w0) == -w0,
                magnitude_of(w0) >= 0,
        ;
        assert(magnitude_of(w1) < m1) by (nonlinear_arith)
            requires
                w1 * w1 <= qw,
                qw < m1 * m1,
                m1 > 0,
                magnitude_of(w1) == w1 || magnitude_of(w1) == -w1,
                magnitude_of(w1) >= 0,
        ;
        assert(magnitude_of(w2) < m1) by (nonlinear_arith)
            requires
                w2 * w2 <= qw,
                qw < m1 * m1,
                m1 > 0,
                magnitude_of(w2) == w2 || magnitude_of(w2) == -w2,
                magnitude_of(w2) >= 0,
        ;
        unit_quotient(w0, m);
        unit_quotient(w1, m);
        unit_quotient(w2, m);
    }

    /// The normalized vector, or the vector itself where its magnitude is zero.
    pub fn unit_vector(&self) -> (r: Vec3)
        ensures
            r == self.unit_vector_spec(),
    {
        let m = self.magnitude();
        if m.raw == 0 {
            *self
        } else {
            self.normalize()
        }
    }

    pub fn near_zero(&self) -> (r: bool)
        ensures
            r == self.near_zero_spec(),
    {
        -NEAR_ZERO_RAW < self.0.raw && self.0.raw < NEAR_ZERO_RAW && -NEAR_ZERO_RAW < self.1.raw
            && self.1.raw < NEAR_ZERO_RAW && -NEAR_ZERO_RAW < self.2.raw && self.2.raw
            < NEAR_ZERO_RAW
    }

    pub fn reflect(&self, normal: &Vec3) -> (r: Vec3)
        ensures
            r == self.reflect_spec(*normal),
    {
        self.sub(normal.scale(Scalar::from_int(2).mul(self.dot(normal))))
    }

    pub fn refract(&self, normal: &Vec3, eta_ratio: Scalar) -> (r: Vec3)
        ensures
            r == self.refract_spec(*normal, eta_ratio),
    {
        let cos_theta = self.neg().dot(normal).min(Scalar::from_int(1));
        let perpendicular = self.add(normal.scale(cos_theta)).scale(eta_ratio);
        let parallel = normal.scale(
            Scalar::from_int(1).sub(perpendicular.magnitude_squared()).abs().sqrt().neg(),
        );
        perpendicular.add(parallel)
    }
}

/// The sum, component by component.
impl core::ops::Add<Vec3> for Vec3 {
    type Output = Vec3;

    fn add(self, rhs: Vec3) -> (r: Vec3) {
        Vec3::add(self, rhs)
    }
}

impl vstd::std_specs::ops::AddSpecImpl<Vec3> for Vec3 {
    open spec fn obeys_add_spec() -> bool {
        true
    }

    open spec fn add_req(self, rhs: Vec3) -> bool {
        true
    }

    open spec fn add_spec(self, rhs: Vec3) -> Vec3 {
        Vec3::add_spec(self, rhs)
    }
}

/// The sum, component by component.
impl core::ops::Add<&Vec3> for Vec3 {
    type Output = Vec3;

    fn add(self, rhs: &Vec3) -> (r: Vec3) {
        Vec3::add(self, *rhs)
    }
}

impl vstd::std_specs::ops::AddSpecImpl<&Vec3> for Vec3 {
    open spec fn obeys_add_spec() -> bool {
        true
    }

    open spec fn add_req(self, rhs: &Vec3) -> bool {
        true
    }

    open spec fn add_spec(self, rhs: &Vec3) -> Vec3 {
        Vec3::add_spec(self, *rhs)
    }
}

/// The sum, component by component.
impl core::ops::Add<Vec3> for &Vec3 {
    type Output = Vec3;

    fn add(self, rhs: Vec3) -> (r: Vec3) {
        Vec3::add(*self, rhs)
    }
}

impl vstd::std_specs::ops::AddSpecImpl<Vec3> for &Vec3 {
    open spec fn obeys_add_spec() -> bool {
        true
    }

    open spec fn add_req(self, rhs: Vec3) -> bool {
        true
    }

    open spec fn add_spec(self, rhs: Vec3) -> Vec3 {
        Vec3::add_spec(*self, rhs)
    }
}

/// The sum, component by component.
impl core::ops::Add<&Vec3> for &Vec3 {
    type Output = Vec3;

    fn add(self, rhs: &Vec3) -> (r: Vec3) {
        Vec3::add(*self, *rhs)
    }
}

impl vstd::std_specs::ops::AddSpecImpl<&Vec3> for &Vec3 {
    open spec fn obeys_add_spec() -> bool {
        true
    }

    open spec fn add_req(self, rhs: &Vec3) -> bool {
        true
    }

    open spec fn add_spec(self, rhs: &Vec3) -> Vec3 {
        Vec3::add_spec(*self, *rhs)
    }
}

/// The difference, component by component.
impl core::ops::Sub<Vec3> for Vec3 {
    type Output = Vec3;

    fn sub(self, rhs: Vec3) -> (r: Vec3) {
        Vec3::sub(self, rhs)
    }
}

impl vstd::std_specs::ops::SubSpecImpl<Vec3> for Vec3 {
    open spec fn obeys_sub_spec() -> bool {
        true
    }

    open spec fn sub_req(self, rhs: Vec3) -> bool {
        true
    }

    open spec fn sub_spec(self, rhs: Vec3) -> Vec3 {
        Vec3::sub_spec(self, rhs)
    }
}

/// The difference, component by component.
impl core::ops::Sub<&Vec3> for Vec3 {
    type Output = Vec3;

    fn sub(self, rhs: &Vec3) -> (r: Vec3) {
        Vec3::sub(self, *rhs)
    }
}

impl vstd::std_specs::ops::SubSpecImpl<&Vec3> for Vec3 {
    open spec fn obeys_sub_spec() -> bool {
        true
    }

    open spec fn sub_req(self, rhs: &Vec3) -> bool {
        true
    }

    open spec fn sub_spec(self, rhs: &Vec3) -> Vec3 {
        Vec3::sub_spec(self, *rhs)
    }
}

/// The difference, component by component.
impl core::ops::Sub<Vec3> for &Vec3 {
    type Output = Vec3;

    fn sub(self, rhs: Vec3) -> (r: Vec3) {
        Vec3::sub(*self, rhs)
    }
}

impl vstd::std_specs::ops::SubSpecImpl<Vec3> for &Vec3 {
    open spec fn obeys_sub_spec() -> bool {
        true
    }

    open spec fn sub_req(self, rhs: Vec3) -> bool {
        true
    }

    open spec fn sub_spec(self, rhs: Vec3) -> Vec3 {
        Vec3::sub_spec(*self, rhs)
    }
}

/// The difference, component by component.
impl core::ops::Sub<&Vec3> for &Vec3 {
    type Output = Vec3;

    fn sub(self, rhs: &Vec3) -> (r: Vec3) {
        Vec3::sub(*self, *rhs)
    }
}

impl vstd::std_specs::ops::SubSpecImpl<&Vec3> for &Vec3 {
    open spec fn obeys_sub_spec() -> bool {
        true
    }

    open spec fn sub_req(self, rhs: &Vec3) -> bool {
        true
    }

    open spec fn sub_spec(self, rhs: &Vec3) -> Vec3 {
        Vec3::sub_spec(*self, *rhs)
    }
}

/// The opposite vector.
impl core::ops::Neg for Vec3 {
    type Output = Vec3;

    fn neg(self) -> (r: Vec3) {
        Vec3::neg(self)
    }
}

impl vstd::std_specs::ops::NegSpecImpl for Vec3 {
    open spec fn obeys_neg_spec() -> bool {
        true
    }

    open spec fn neg_req(self) -> bool {
        true
    }

    open spec fn neg_spec(self) -> Vec3 {
        Vec3::neg_spec(self)
    }
}

/// The opposite vector.
impl core::ops::Neg for &Vec3 {
    type Output = Vec3;

    fn neg(self) -> (r: Vec3) {
        Vec3::neg(*self)
    }
}

impl vstd::std_specs::ops::NegSpecImpl for &Vec3 {
    open spec fn obeys_neg_spec() -> bool {
        true
    }

    open spec fn neg_req(self) -> bool {
        true
    }

    open spec fn neg_spec(self) -> Vec3 {
        Vec3::neg_spec(*self)
    }
}

/// The vector, every component multiplied by the scalar.
impl core::ops::Mul<Scalar> for Vec3 {
    type Output = Vec3;

    fn mul(self, rhs: Scalar) -> (r: Vec3) {
        Vec3::scale(self, rhs)
    }
}

impl vstd::std_specs::ops::MulSpecImpl<Scalar> for Vec3 {
    open spec fn obeys_mul_spec() -> bool {
        true
    }

    open spec fn mul_req(self, rhs: Scalar) -> bool {
        true
    }

    open spec fn mul_spec(self, rhs: Scalar) -> Vec3 {
        Vec3::scale_spec(self, rhs)
    }
}

/// The vector, every component multiplied by the scalar.
impl core::ops::Mul<Scalar> for &Vec3 {
    type Output = Vec3;

    fn mul(self, rhs: Scalar) -> (r: Vec3) {
        Vec3::scale(*self, rhs)
    }
}

impl vstd::std_specs::ops::MulSpecImpl<Scalar> for &Vec3 {
    open spec fn obeys_mul_spec() -> bool {
        true
    }

    open spec fn mul_req(self, rhs: Scalar) -> bool {
        true
    }

    open spec fn mul_spec(self, rhs: Scalar) -> Vec3 {
        Vec3::scale_spec(*self, rhs)
    }
}

/// The vector, every component multiplied by the scalar.
impl core::ops::Mul<Vec3> for Scalar {
    type Output = Vec3;

    fn mul(self, rhs: Vec3) -> (r: Vec3) {
        Vec3::scale(rhs, self)
    }
}

impl vstd::std_specs::ops::MulSpecImpl<Vec3> for Scalar {
    open spec fn obeys_mul_spec() -> bool {
        true
    }

    open spec fn mul_req(self, rhs: Vec3) -> bool {
        true
    }

    open spec fn mul_spec(self, rhs: Vec3) -> Vec3 {
        Vec3::scale_spec(rhs, self)
    }
}

/// The vector, every component multiplied by the scalar.
impl core::ops::Mul<&Vec3> for Scalar {
    type Output = Vec3;

    fn mul(self, rhs: &Vec3) -> (r: Vec3) {
        Vec3::scale(*rhs, self)
    }
}

impl vstd::std_specs::ops::MulSpecImpl<&Vec3> for Scalar {
    open spec fn obeys_mul_spec() -> bool {
        true
    }

    open spec fn mul_req(self, rhs: &Vec3) -> bool {
        true
    }

    open spec fn mul_spec(self, rhs: &Vec3) -> Vec3 {
        Vec3::scale_spec(*rhs, self)
    }
}

/// The vector, every component multiplied by the integer.
impl core::ops::Mul<Vec3> for usize {
    type Output = Vec3;

    fn mul(self, rhs: Vec3) -> (r: Vec3) {
        Vec3::scale(rhs, Scalar::from_usize(self))
    }
}

impl vstd::std_specs::ops::MulSpecImpl<Vec3> for usize {
    open spec fn obeys_mul_spec() -> bool {
        true
    }

    open spec fn mul_req(self, rhs: Vec3) -> bool {
        true
    }

    open spec fn mul_spec(self, rhs: Vec3) -> Vec3 {
        Vec3::scale_spec(rhs, Scalar::of_int(self as int))
    }
}

/// The vector, every component multiplied by the integer.
impl core::ops::Mul<usize> for Vec3 {
    type Output = Vec3;

    fn mul(self, rhs: usize) -> (r: Vec3) {
        Vec3::scale(self, Scalar::from_usize(rhs))
    }
}

impl vstd::std_specs::ops::MulSpecImpl<usize> for Vec3 {
    open spec fn obeys_mul_spec() -> bool {
        true
    }

    open spec fn mul_req(self, rhs: usize) -> bool {
        true
    }

    open spec fn mul_spec(self, rhs: usize) -> Vec3 {
        Vec3::scale_spec(self, Scalar::of_int(rhs as int))
    }
}

/// The product, component by component.
impl core::ops::Mul<Vec3> for Vec3 {
    type Output = Vec3;

    fn mul(self, rhs: Vec3) -> (r: Vec3) {
        Vec3::mul(self, rhs)
    }
}

impl vstd::std_specs::ops::MulSpecImpl<Vec3> for Vec3 {
    open spec fn obeys_mul_spec() -> bool {
        true
    }

    open spec fn mul_req(self, rhs: Vec3) -> bool {
        true
    }

    open spec fn mul_spec(self, rhs: Vec3) -> Vec3 {
        Vec3::mul_spec(self, rhs)
    }
}

/// The vector, every component divided by the scalar.
impl core::ops::Div<Scalar> for Vec3 {
    type Output = Vec3;

    fn div(self, rhs: Scalar) -> (r: Vec3) {
        Vec3::div(self, rhs)
    }
}

impl vstd::std_specs::ops::DivSpecImpl<Scalar> for Vec3 {
    open spec fn obeys_div_spec() -> bool {
        true
    }

    open spec fn div_req(self, rhs: Scalar) -> bool {
        true
    }

    open spec fn div_spec(self, rhs: Scalar) -> Vec3 {
        Vec3::div_spec(self, rhs)
    }
}

/// The vector, every component divided by the scalar.
impl core::ops::Div<Scalar> for &Vec3 {
    type Output = Vec3;

    fn div(self, rhs: Scalar) -> (r: Vec3) {
        Vec3::div(*self, rhs)
    }
}

impl vstd::std_specs::ops::DivSpecImpl<Scalar> for &Vec3 {
    open spec fn obeys_div_spec() -> bool {
        true
    }

    open spec fn div_req(self, rhs: Scalar) -> bool {
        true
    }

    open spec fn div_spec(self, rhs: Scalar) -> Vec3 {
        Vec3::div_spec(*self, rhs)
    }
}

/// The vector, every component divided by the integer.
impl core::ops::Div<usize> for Vec3 {
    type Output = Vec3;

    fn div(self, rhs: usize) -> (r: Vec3) {
        Vec3::div(self, Scalar::from_usize(rhs))
    }
}

impl vstd::std_specs::ops::DivSpecImpl<usize> for Vec3 {
    open spec fn obeys_div_spec() -> bool {
        true
    }

    open spec fn div_req(self, rhs: usize) -> bool {
        true
    }

    open spec fn div_spec(self, rhs: usize) -> Vec3 {
        Vec3::div_spec(self, Scalar::of_int(rhs as int))
    }
}

/// Adds a vector in place.
impl core::ops::AddAssign<Vec3> for Vec3 {
    fn add_assign(&mut self, rhs: Vec3)
        ensures
            *final(self) == Vec3::add_spec(*old(self), rhs),
    {
        *self = Vec3::add(*self, rhs);
    }
}

/// Subtracts a vector in place.
impl core::ops::SubAssign<Vec3> for Vec3 {
    fn sub_assign(&mut self, rhs: Vec3)
        ensures
            *final(self) == Vec3::sub_spec(*old(self), rhs),
    {
        *self = Vec3::sub(*self, rhs);
    }
}

/// Multiplies by a scalar in place.
impl core::ops::MulAssign<Scalar> for Vec3 {
    fn mul_assign(&mut self, rhs: Scalar)
        ensures
            *final(self) == Vec3::scale_spec(*old(self), rhs),
    {
        *self = Vec3::scale(*self, rhs);
    }
}

/// Divides by a scalar in place.
impl core::ops::DivAssign<Scalar> for Vec3 {
    fn div_assign(&mut self, rhs: Scalar)
        ensures
            *final(self) == Vec3::div_spec(*old(self), rhs),
    {
        *self = Vec3::div(*self, rhs);
    }
}

/// Divides by an integer in place.
impl core::ops::DivAssign<usize> for Vec3 {
    fn div_assign(&mut self, rhs: usize)
        ensures
            *final(self) == Vec3::div_spec(*old(self), Scalar::of_int(rhs as int)),
    {
        *self = Vec3::div(*self, Scalar::from_usize(rhs));
    }
}

/// The vector whose three components are the integer.
impl From<usize> for Vec3 {
    fn from(value: usize) -> (r: Vec3) {
        Vec3::from_usize(value)
    }
}

impl vstd::std_specs::convert::FromSpecImpl<usize> for Vec3 {
    open spec fn obeys_from_spec() -> bool {
        true
    }

    open spec fn from_spec(value: usize) -> Vec3 {
        Vec3(Scalar::of_int(value as int), Scalar::of_int(value as int), Scalar::of_int(value as int))
    }
}

/// The vector of three components.
impl From<(Scalar, Scalar, Scalar)> for Vec3 {
    fn from(value: (Scalar, Scalar, Scalar)) -> (r: Vec3) {
        Vec3(value.0, value.1, value.2)
    }
}

impl vstd::std_specs::convert::FromSpecImpl<(Scalar, Scalar, Scalar)> for Vec3 {
    open spec fn obeys_from_spec() -> bool {
        true
    }

    open spec fn from_spec(value: (Scalar, Scalar, Scalar)) -> Vec3 {
        Vec3(value.0, value.1, value.2)
    }
}

/// The point `(1/2, 0, 0)` lies in the unit ball, and its magnitude is one
/// half.
proof fn lemma_half_point(p: Vec3)
    requires
        p == Vec3(Scalar::of_ratio(1, 2), Scalar { raw: 0 }, Scalar { raw: 0 }),
    ensures
        p.in_unit_ball(),
        p.magnitude_spec().raw == 0x8000_0000,
{
    assert(p.0.raw == 0x8000_0000);
    assert(p.magnitude_squared_spec().raw == 0x4000_0000) by {
        assert(0x8000_0000int * 0x8000_0000 == 0x4000_0000_0000_0000);
    }
    assert(p.sum_of_squares() == 0x8000_0000int * 0x8000_0000);
    assert(is_root(0x8000_0000int * 0x8000_0000, 0x8000_0000)) by (nonlinear_arith);
    root_is(0x8000_0000int * 0x8000_0000, 0x8000_0000);
}

/// The magnitude of the raw value `x`.
fn raw_magnitude(x: i64) -> (a: u128)
    ensures
        a == magnitude_of(x as int),
        a <= 0x8000_0000_0000_0000,
{
    if x < 0 {
        (-(x as i128)) as u128
    } else {
        x as u128
    }
}

/// Whether the raw value `x` is shorter than one half.
fn is_short_raw(x: i64) -> (short: bool)
    ensures
        short == (magnitude_of(x as int) < SHORT_RAW),
{
    -SHORT_RAW < x && x < SHORT_RAW
}

/// The square of the raw value `x` stretched by `k`, where `k` is one, or is
/// 2^32 and `x` is short.
fn wide_square(x: i64, k: i128) -> (q: u128)
    requires
        k == 1 || (k == ONE_RAW && magnitude_of(x as int) < SHORT_RAW),
    ensures
        q == k * k * (x * x),
        q <= 0x4000_0000_0000_0000_0000_0000_0000_0000,
{
    let a = raw_magnitude(x);
    let w: u128 = a * (k as u128);
    assert(w * w <= 0x8000_0000_0000_0000 * 0x8000_0000_0000_0000) by (nonlinear_arith)
        requires
            0 <= w <= 0x8000_0000_0000_0000,
    ;
    assert(w * w == k * k * (x * x)) by (nonlinear_arith)
        requires
            w == a * k,
            a == x || a == -x,
    ;
    w * w
}

/// One component of a normalized vector: the raw value `x` stretched by `k`
/// and divided by the length `m`.
fn normalized(x: i64, k: i128, m: u64) -> (y: Scalar)
    requires
        k == 1 || (k == ONE_RAW && magnitude_of(x as int) < SHORT_RAW),
        m >= 1,
        magnitude_of(quotient(x * k * ONE_RAW, m as int)) <= ONE_RAW,
    ensures
        y.raw == quotient(x * k * ONE_RAW, m as int),
{
    let w: i128 = (x as i128) * k;
    let n: i128 = w * (ONE_RAW as i128);
    let y: i128 = n / (m as i128);
    Scalar { raw: y as i64 }
}

/// The quotient of `w` times one by a length that `w` does not exceed is no
/// longer than one.
proof fn unit_quotient(w: int, m: int)
    requires
        m >= 1,
        magnitude_of(w) <= m,
    ensures
        magnitude_of(quotient(w * ONE_RAW, m)) <= ONE_RAW,
{
    quotient_magnitude(w * ONE_RAW, m);
    assert(magnitude_of(w * ONE_RAW) == magnitude_of(w) * ONE_RAW) by (nonlinear_arith)
        requires
            ONE_RAW > 0,
            magnitude_of(w) == w || magnitude_of(w) == -w,
            magnitude_of(w) >= 0,
            magnitude_of(w * ONE_RAW) == w * ONE_RAW || magnitude_of(w * ONE_RAW) == -(w
                * ONE_RAW),
            magnitude_of(w * ONE_RAW) >= 0,
    ;
    assert(magnitude_of(quotient(w * ONE_RAW, m)) <= ONE_RAW) by (nonlinear_arith)
        requires
            magnitude_of(quotient(w * ONE_RAW, m)) * m <= magnitude_of(w) * ONE_RAW,
            magnitude_of(w) <= m,
            m >= 1,
            ONE_RAW > 0,
    ;
}

/// Some vector is a possible outcome of `random_unit_vector`.
pub proof fn unit_samples_exist()
    ensures
        exists|u: Vec3| u.is_unit_sample(),
{
    let p = Vec3(Scalar::of_ratio(1, 2), Scalar { raw: 0 }, Scalar { raw: 0 });
    lemma_half_point(p);
    assert(p.normalize_spec().is_unit_of(p));
    assert(p.normalize_spec().is_unit_sample());
}

} // verus!
