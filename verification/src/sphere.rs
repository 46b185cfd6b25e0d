//! Spheres, and the closed form of their intersection with a ray.
//!
//! The quadratic `a t^2 - 2 half_b t + c = 0` whose roots are the parameters
//! at which a ray meets a sphere is set up and solved in whole raw units:
//! its coefficients and its discriminant are not rounded, the square root of
//! the discriminant is rounded down to one unit of 2^-64, and only each root
//! is rounded to a scalar. So a ray is met where it crosses, however short
//! or long its direction is.
use vstd::prelude::*;
use core::ops::Range;
use crate::hittable::{before, surrounds, HitRecord, Hittable};
use crate::color::Color;
use crate::material::{Lambertian, Material};
use crate::ray::Ray;
use crate::scalar::{
    fits, is_root, magnitude_of, quotient, quotient_magnitude, quotient_monotone,
    quotient_remainder, root, root_exists, root_is, root_monotone, saturate, Scalar, MAX_RAW,
    MIN_RAW, ONE_RAW,
};
use crate::vec3::{Point3, Vec3};
use crate::wide::{two_128, Wide};

verus! {

/// A sphere of one material.
pub struct Sphere<M: Material> {
    pub center: Point3,
    pub radius: Scalar,
    pub material: M,
}

/// The dot product of two vectors in whole raw units, without rounding.
pub open spec fn exact_dot(u: Vec3, v: Vec3) -> int {
    u.0.raw * v.0.raw + u.1.raw * v.1.raw + u.2.raw * v.2.raw
}

/// The number with the given sign and magnitude.
pub open spec fn signed(negative: bool, magnitude: int) -> int {
    if negative {
        -magnitude
    } else {
        magnitude
    }
}

/// A root of the quadratic as a scalar: the numerator, which is in units of
/// 2^-64, over the coefficient `a`, rounded toward zero and saturated.
pub open spec fn root_scalar(numerator: int, a: int) -> Scalar {
    Scalar { raw: saturate(quotient(ONE_RAW * numerator, a)) as i64 }
}

impl<M: Material> Sphere<M> {
    /// From the origin of the ray to the centre of the sphere.
    pub open spec fn oc_spec(&self, r: Ray) -> Vec3 {
        self.center.sub_spec(r.origin)
    }

    /// The squared length of the direction of the ray, in full.
    pub open spec fn a_spec(r: Ray) -> int {
        exact_dot(r.direction, r.direction)
    }

    /// The direction of the ray dotted with the way to the centre, in full.
    pub open spec fn half_b_spec(&self, r: Ray) -> int {
        exact_dot(r.direction, self.oc_spec(r))
    }

    /// The squared distance from the origin of the ray to the centre, less
    /// the squared radius, in full.
    pub open spec fn c_spec(&self, r: Ray) -> int {
        exact_dot(self.oc_spec(r), self.oc_spec(r)) - self.radius.raw * self.radius.raw
    }

    /// The discriminant `half_b^2 - a c`, in full.
    pub open spec fn discriminant_spec(&self, r: Ray) -> int {
        self.half_b_spec(r) * self.half_b_spec(r) - Self::a_spec(r) * self.c_spec(r)
    }

    /// The square root of the discriminant, rounded down to a whole unit.
    pub open spec fn root_spec(&self, r: Ray) -> int {
        root(self.discriminant_spec(r))
    }

    /// The smaller root: `(half_b - sqrt(discriminant)) / a`.
    pub open spec fn near_root_spec(&self, r: Ray) -> Scalar {
        root_scalar(self.half_b_spec(r) - self.root_spec(r), Self::a_spec(r))
    }

    /// The larger root: `(half_b + sqrt(discriminant)) / a`.
    pub open spec fn far_root_spec(&self, r: Ray) -> Scalar {
        root_scalar(self.half_b_spec(r) + self.root_spec(r), Self::a_spec(r))
    }

    /// The parameter at which the ray is taken to hit the sphere: none where
    /// the direction has no length or the discriminant is negative; else the
    /// smaller root if the interval surrounds it; else the larger root if the
    /// interval surrounds that; else none.
    pub open spec fn hit_time_spec(&self, r: Ray, interval: Range<Scalar>) -> Option<Scalar> {
        if Self::a_spec(r) == 0 || self.discriminant_spec(r) < 0 {
            None
        } else if surrounds(interval, self.near_root_spec(r)) {
            Some(self.near_root_spec(r))
        } else if surrounds(interval, self.far_root_spec(r)) {
            Some(self.far_root_spec(r))
        } else {
            None
        }
    }

    /// The outward normal in a point `p`: `(p - center) / radius`.
    pub open spec fn outward_spec(&self, p: Point3) -> Vec3 {
        p.sub_spec(self.center).div_spec(self.radius)
    }

    /// The record of the hit at parameter `t`: the point of the ray there,
    /// and the outward normal in that point.
    pub open spec fn record_spec(&self, r: Ray, t: Scalar) -> HitRecord<M> {
        HitRecord::new_spec(r.at_spec(t), self.outward_spec(r.at_spec(t)), t, r, &self.material)
    }

    pub fn new(center: Point3, radius: Scalar, material: M) -> (s: Self)
        ensures
            s.center == center,
            s.radius == radius,
            s.material == material,
    {
        Sphere { center, radius, material }
    }

    /// The squared length of a direction is not negative.
    pub proof fn a_is_not_negative(r: Ray)
        ensures
            Self::a_spec(r) >= 0,
    {
        let d = r.direction;
        assert(d.0.raw * d.0.raw >= 0 && d.1.raw * d.1.raw >= 0 && d.2.raw * d.2.raw >= 0)
            by (nonlinear_arith);
    }

    /// The smaller root does not exceed the larger one.
    pub proof fn roots_ordered(&self, r: Ray)
        requires
            Self::a_spec(r) != 0,
            self.discriminant_spec(r) >= 0,
        ensures
            self.near_root_spec(r).raw <= self.far_root_spec(r).raw,
    {
        Self::a_is_not_negative(r);
        root_exists(self.discriminant_spec(r));
        let b = self.half_b_spec(r);
        let s = self.root_spec(r);
        assert(ONE_RAW * (b - s) <= ONE_RAW * (b + s)) by (nonlinear_arith)
            requires
                s >= 0,
                ONE_RAW > 0,
        ;
        quotient_monotone(ONE_RAW * (b - s), ONE_RAW * (b + s), Self::a_spec(r));
    }

    /// How far the smaller root is from the exact one. The square root that
    /// it is made of is the integer square root of the discriminant, and
    /// where the root does not saturate it is within one raw unit of the
    /// exact quotient: `|2^32 (half_b - root) - a t| < a`.
    pub proof fn near_root_is_close(&self, r: Ray)
        requires
            Self::a_spec(r) != 0,
            self.discriminant_spec(r) >= 0,
            fits(quotient(ONE_RAW * (self.half_b_spec(r) - self.root_spec(r)), Self::a_spec(r))),
        ensures
            is_root(self.discriminant_spec(r), self.root_spec(r)),
            magnitude_of(
                ONE_RAW * (self.half_b_spec(r) - self.root_spec(r)) - Self::a_spec(r)
                    * self.near_root_spec(r).raw,
            ) < Self::a_spec(r),
    {
        Self::a_is_not_negative(r);
        root_exists(self.discriminant_spec(r));
        let a = Self::a_spec(r);
        let n = ONE_RAW * (self.half_b_spec(r) - self.root_spec(r));
        quotient_remainder(n, a);
        assert(a * quotient(n, a) == quotient(n, a) * a) by (nonlinear_arith);
    }
}

/// The sum of the distances of the components of a vector from zero, in raw
/// units.
pub open spec fn taxicab_length(v: Vec3) -> int {
    magnitude_of(v.0.raw as int) + magnitude_of(v.1.raw as int) + magnitude_of(v.2.raw as int)
}

/// Two vectors are parallel: every component of their cross product, taken
/// in full, is zero. Every multiple of a vector is parallel to it.
pub open spec fn parallel(u: Vec3, v: Vec3) -> bool {
    &&& u.1.raw * v.2.raw == u.2.raw * v.1.raw
    &&& u.2.raw * v.0.raw == u.0.raw * v.2.raw
    &&& u.0.raw * v.1.raw == u.1.raw * v.0.raw
}

/// One component of the way from the centre `c` to the point of the ray from
/// `o` in the direction `d` at parameter `t`, where nothing saturates: the
/// component of the way covered, less the component of the way to the
/// centre.
pub open spec fn offset_component(d: Scalar, o: Scalar, c: Scalar, t: Scalar) -> int {
    quotient(d.raw * t.raw, ONE_RAW as int) - (c.raw - o.raw)
}

/// Nothing saturates in one component on the way from the ray to the
/// outward normal at parameter `t`.
pub open spec fn component_is_exact(d: Scalar, o: Scalar, c: Scalar, t: Scalar, radius: Scalar) -> bool {
    &&& fits(c.raw - o.raw)
    &&& fits(quotient(d.raw * t.raw, ONE_RAW as int))
    &&& fits(o.raw + quotient(d.raw * t.raw, ONE_RAW as int))
    &&& fits(offset_component(d, o, c, t))
    &&& fits(quotient(offset_component(d, o, c, t) * ONE_RAW, radius.raw as int))
}

/// One component of the outward normal where nothing saturates: the offset
/// from the centre over the radius. Its product with the component of the
/// direction is bounded by what the ray has covered.
proof fn outward_component(d: Scalar, o: Scalar, c: Scalar, t: Scalar, radius: Scalar)
    requires
        component_is_exact(d, o, c, t, radius),
        t.raw >= 0,
        radius.raw > 0,
    ensures
        ({
            let g = offset_component(d, o, c, t);
            let n = o.add_spec(d.mul_spec(t)).sub_spec(c).div_spec(radius);
            &&& ONE_RAW * (d.raw * g) <= (d.raw * d.raw) * t.raw - ONE_RAW * (d.raw * (c.raw
                - o.raw))
            &&& (d.raw * n.raw) * radius.raw <= ONE_RAW * (d.raw * g) + radius.raw * magnitude_of(
                d.raw as int,
            )
        }),
{
    let s = ONE_RAW as int;
    let (dd, tt, rad) = (d.raw as int, t.raw as int, radius.raw as int);
    let q = quotient(dd * tt, s);
    quotient_remainder(dd * tt, s);
    let rho = dd * tt - q * s;
    let g = offset_component(d, o, c, t);
    let oc = (c.raw - o.raw) as int;
    assert(o.add_spec(d.mul_spec(t)).sub_spec(c).raw == g);
    // d rho >= 0
    assert(dd * rho >= 0) by (nonlinear_arith)
        requires
            dd * tt >= 0 ==> 0 <= rho,
            dd * tt < 0 ==> rho <= 0,
            tt >= 0,
            rho == dd * tt - q * s,
            -s < rho < s,
    ;
    assert(s * (dd * q) == (dd * dd) * tt - dd * rho) by (nonlinear_arith)
        requires
            rho == dd * tt - q * s,
    ;
    assert(s * (dd * g) == s * (dd * q) - s * (dd * oc)) by (nonlinear_arith)
        requires
            g == q - oc,
    ;
    // the quotient by the radius
    let n = quotient(g * s, rad);
    quotient_remainder(g * s, rad);
    let sigma = g * s - n * rad;
    assert(o.add_spec(d.mul_spec(t)).sub_spec(c).div_spec(radius).raw == n);
    assert((dd * n) * rad == s * (dd * g) - dd * sigma) by (nonlinear_arith)
        requires
            sigma == g * s - n * rad,
    ;
    assert(-(dd * sigma) <= rad * magnitude_of(dd)) by (nonlinear_arith)
        requires
            -rad < sigma < rad,
            magnitude_of(dd) == dd || magnitude_of(dd) == -dd,
            magnitude_of(dd) >= 0,
    ;
}

impl<M: Material> Sphere<M> {
    /// Nothing saturates on the way from the ray to the outward normal at
    /// parameter `t`: the way to the centre, the point of the ray and the
    /// normal all lie within the range of scalars.
    pub open spec fn is_exact_at(&self, r: Ray, t: Scalar) -> bool {
        &&& component_is_exact(r.direction.0, r.origin.0, self.center.0, t, self.radius)
        &&& component_is_exact(r.direction.1, r.origin.1, self.center.1, t, self.radius)
        &&& component_is_exact(r.direction.2, r.origin.2, self.center.2, t, self.radius)
    }

    /// A ray that meets a sphere ahead of its origin meets its front: at the
    /// smaller root the ray comes from outside and the normal points back
    /// against it. This holds of every ray for which the root of the
    /// discriminant outweighs the rounding of the normal,
    /// `2^32 root >= radius (2^32 + |d|)` with the taxicab length of the
    /// direction, where the smaller root is not negative and nothing
    /// saturates.
    pub proof fn near_hit_is_in_front(&self, r: Ray)
        requires
            Self::a_spec(r) != 0,
            self.discriminant_spec(r) >= 0,
            self.half_b_spec(r) >= self.root_spec(r),
            fits(quotient(ONE_RAW * (self.half_b_spec(r) - self.root_spec(r)), Self::a_spec(r))),
            self.radius.raw > 0,
            self.is_exact_at(r, self.near_root_spec(r)),
            ONE_RAW * self.root_spec(r) >= self.radius.raw * (ONE_RAW + taxicab_length(
                r.direction,
            )),
        ensures
            self.near_root_spec(r).raw >= 0,
            self.record_spec(r, self.near_root_spec(r)).front_face,
            r.direction.dot_spec(self.record_spec(r, self.near_root_spec(r)).normal).raw < 0,
    {
        let s = ONE_RAW as int;
        let a = Self::a_spec(r);
        let b = self.half_b_spec(r);
        let rt = self.root_spec(r);
        let rad = self.radius.raw as int;
        let t = self.near_root_spec(r);
        Self::a_is_not_negative(r);
        root_exists(self.discriminant_spec(r));
        let num = s * (b - rt);
        assert(num >= 0) by (nonlinear_arith)
            requires
                num == s * (b - rt),
                b >= rt,
                s > 0,
        ;
        quotient_remainder(num, a);
        vstd::arithmetic::div_mod::lemma_div_pos_is_pos(num, a);
        assert(t.raw == quotient(num, a));
        assert(a * t.raw <= num) by (nonlinear_arith)
            requires
                0 <= num - quotient(num, a) * a,
                t.raw == quotient(num, a),
        ;
        let d = r.direction;
        let o = r.origin;
        let c = self.center;
        outward_component(d.0, o.0, c.0, t, self.radius);
        outward_component(d.1, o.1, c.1, t, self.radius);
        outward_component(d.2, o.2, c.2, t, self.radius);
        let g0 = offset_component(d.0, o.0, c.0, t);
        let g1 = offset_component(d.1, o.1, c.1, t);
        let g2 = offset_component(d.2, o.2, c.2, t);
        let n = self.outward_spec(r.at_spec(t));
        let gsum = d.0.raw * g0 + d.1.raw * g1 + d.2.raw * g2;
        let nsum = d.0.raw * n.0.raw + d.1.raw * n.1.raw + d.2.raw * n.2.raw;
        // the way to the centre is exact
        let oc = self.oc_spec(r);
        assert(oc.0.raw == c.0.raw - o.0.raw && oc.1.raw == c.1.raw - o.1.raw && oc.2.raw
            == c.2.raw - o.2.raw);
        assert(s * gsum == s * (d.0.raw * g0) + s * (d.1.raw * g1) + s * (d.2.raw * g2))
            by (nonlinear_arith)
            requires
                gsum == d.0.raw * g0 + d.1.raw * g1 + d.2.raw * g2,
        ;
        assert(a * t.raw == (d.0.raw * d.0.raw) * t.raw + (d.1.raw * d.1.raw) * t.raw + (d.2.raw
            * d.2.raw) * t.raw) by (nonlinear_arith)
            requires
                a == d.0.raw * d.0.raw + d.1.raw * d.1.raw + d.2.raw * d.2.raw,
        ;
        assert(s * b == s * (d.0.raw * (c.0.raw - o.0.raw)) + s * (d.1.raw * (c.1.raw - o.1.raw))
            + s * (d.2.raw * (c.2.raw - o.2.raw))) by (nonlinear_arith)
            requires
                b == d.0.raw * (c.0.raw - o.0.raw) + d.1.raw * (c.1.raw - o.1.raw) + d.2.raw * (
                c.2.raw - o.2.raw),
        ;
        assert(s * gsum <= a * t.raw - s * b);
        assert(num == s * b - s * rt) by (nonlinear_arith)
            requires
                num == s * (b - rt),
        ;
        assert(s * gsum <= -(s * rt));
        // the normal
        assert(nsum * rad == (d.0.raw * n.0.raw) * rad + (d.1.raw * n.1.raw) * rad + (d.2.raw
            * n.2.raw) * rad) by (nonlinear_arith)
            requires
                nsum == d.0.raw * n.0.raw + d.1.raw * n.1.raw + d.2.raw * n.2.raw,
        ;
        let len = taxicab_length(d);
        assert(rad * len == rad * magnitude_of(d.0.raw as int) + rad * magnitude_of(
            d.1.raw as int,
        ) + rad * magnitude_of(d.2.raw as int)) by (nonlinear_arith)
            requires
                len == magnitude_of(d.0.raw as int) + magnitude_of(d.1.raw as int) + magnitude_of(
                    d.2.raw as int,
                ),
        ;
        assert(nsum * rad <= s * gsum + rad * len);
        assert(rad * (s + len) == rad * s + rad * len) by (nonlinear_arith);
        assert(nsum * rad <= -(rad * s));
        assert(nsum <= -s) by (nonlinear_arith)
            requires
                nsum * rad <= -(rad * s),
                rad > 0,
        ;
        quotient_monotone(nsum, -s, s);
        assert(quotient(-s, s) == -1);
        assert(d.dot_spec(n).raw < 0);
    }

    /// A ray that is aimed at the centre of a sphere from outside hits its
    /// front. Where the direction is parallel to the way from the origin to
    /// the centre and points along it, whatever its length from two raw
    /// units on, the discriminant is `a radius^2`; the smaller root is not
    /// negative; and a search that starts at zero or later and surrounds
    /// the smaller root finds the hit there, at a positive parameter, on
    /// the front face, with a normal that points back against the ray.
    pub proof fn aimed_at_center_hits_front(&self, r: Ray, interval: Range<Scalar>)
        requires
            parallel(r.direction, self.oc_spec(r)),
            self.half_b_spec(r) > 0,
            self.c_spec(r) > 0,
            self.radius.raw > 0,
            Self::a_spec(r) >= 4,
            fits(quotient(ONE_RAW * (self.half_b_spec(r) - self.root_spec(r)), Self::a_spec(r))),
            self.is_exact_at(r, self.near_root_spec(r)),
            interval.start.raw >= 0,
            surrounds(interval, self.near_root_spec(r)),
        ensures
            self.discriminant_spec(r) == Self::a_spec(r) * (self.radius.raw * self.radius.raw),
            self.hit_spec(r, interval) matches Some(h) && h.t == self.near_root_spec(r) && h.t.raw
                > 0 && h.front_face && r.direction.dot_spec(h.normal).raw < 0,
    {
        let s = ONE_RAW as int;
        let d = r.direction;
        let oc = self.oc_spec(r);
        let a = Self::a_spec(r);
        let b = self.half_b_spec(r);
        let rad = self.radius.raw as int;
        let oo = exact_dot(oc, oc);
        lagrange(d, oc);
        assert(b * b == a * oo);
        let disc = self.discriminant_spec(r);
        assert(disc == a * (rad * rad)) by (nonlinear_arith)
            requires
                disc == b * b - a * (oo - rad * rad),
                b * b == a * oo,
        ;
        assert(rad * rad >= 1) by (nonlinear_arith)
            requires
                rad >= 1,
        ;
        assert(disc >= 0) by (nonlinear_arith)
            requires
                disc == a * (rad * rad),
                a >= 0,
                rad * rad >= 0,
        ;
        root_exists(disc);
        let rt = self.root_spec(r);
        // the root of the discriminant is below half_b
        assert(disc < b * b) by (nonlinear_arith)
            requires
                disc == a * (rad * rad),
                b * b == a * oo,
                oo > rad * rad,
                a >= 4,
        ;
        assert(rt < b) by (nonlinear_arith)
            requires
                rt * rt <= disc,
                disc < b * b,
                b > 0,
                rt >= 0,
        ;
        // and at least the radius times the length of the direction
        root_exists(a);
        let ra = root(a);
        assert(ra >= 2) by (nonlinear_arith)
            requires
                (ra + 1) * (ra + 1) > a,
                a >= 4,
                ra >= 0,
        ;
        assert((rad * ra) * (rad * ra) <= disc) by (nonlinear_arith)
            requires
                ra * ra <= a,
                disc == a * (rad * rad),
                rad * rad >= 0,
        ;
        assert(rad * ra <= rt) by (nonlinear_arith)
            requires
                (rad * ra) * (rad * ra) <= disc,
                disc < (rt + 1) * (rt + 1),
                rt >= 0,
                rad * ra >= 0,
        ;
        let ra1 = ra + 1;
        assert(d.0.raw * d.0.raw >= 0 && d.1.raw * d.1.raw >= 0 && d.2.raw * d.2.raw >= 0)
            by (nonlinear_arith);
        assert(magnitude_of(d.0.raw as int) < ra1) by (nonlinear_arith)
            requires
                d.0.raw * d.0.raw <= a,
                a < ra1 * ra1,
                ra1 > 0,
                magnitude_of(d.0.raw as int) == d.0.raw || magnitude_of(d.0.raw as int)
                    == -d.0.raw,
                magnitude_of(d.0.raw as int) >= 0,
        ;
        assert(magnitude_of(d.1.raw as int) < ra1) by (nonlinear_arith)
            requires
                d.1.raw * d.1.raw <= a,
                a < ra1 * ra1,
                ra1 > 0,
                magnitude_of(d.1.raw as int) == d.1.raw || magnitude_of(d.1.raw as int)
                    == -d.1.raw,
                magnitude_of(d.1.raw as int) >= 0,
        ;
        assert(magnitude_of(d.2.raw as int) < ra1) by (nonlinear_arith)
            requires
                d.2.raw * d.2.raw <= a,
                a < ra1 * ra1,
                ra1 > 0,
                magnitude_of(d.2.raw as int) == d.2.raw || magnitude_of(d.2.raw as int)
                    == -d.2.raw,
                magnitude_of(d.2.raw as int) >= 0,
        ;
        let len = taxicab_length(d);
        assert(s * rt >= rad * (s + len)) by (nonlinear_arith)
            requires
                rt >= rad * ra,
                len <= 3 * ra,
                ra >= 2,
                rad >= 1,
                s == 0x1_0000_0000,
        ;
        self.near_hit_is_in_front(r);
    }
}

/// Lagrange's identity: the squared lengths of two vectors, multiplied,
/// exceed the square of their dot product by the squared length of their
/// cross product. For parallel vectors the two are equal.
pub proof fn lagrange(u: Vec3, v: Vec3)
    ensures
        exact_dot(u, u) * exact_dot(v, v) - exact_dot(u, v) * exact_dot(u, v) == (u.1.raw * v.2.raw
            - u.2.raw * v.1.raw) * (u.1.raw * v.2.raw - u.2.raw * v.1.raw) + (u.2.raw * v.0.raw
            - u.0.raw * v.2.raw) * (u.2.raw * v.0.raw - u.0.raw * v.2.raw) + (u.0.raw * v.1.raw
            - u.1.raw * v.0.raw) * (u.0.raw * v.1.raw - u.1.raw * v.0.raw),
        parallel(u, v) ==> exact_dot(u, v) * exact_dot(u, v) == exact_dot(u, u) * exact_dot(v, v),
{
    let (a, b, c) = (u.0.raw as int, u.1.raw as int, u.2.raw as int);
    let (x, y, z) = (v.0.raw as int, v.1.raw as int, v.2.raw as int);
    let (ax, ay, az) = (a * x, a * y, a * z);
    let (bx, by, bz) = (b * x, b * y, b * z);
    let (cx, cy, cz) = (c * x, c * y, c * z);
    let (aa, bb, cc) = (a * a, b * b, c * c);
    let (xx, yy, zz) = (x * x, y * y, z * z);
    assert(aa * xx == ax * ax && aa * yy == ay * ay && aa * zz == az * az) by (nonlinear_arith)
        requires
            aa == a * a,
            xx == x * x,
            yy == y * y,
            zz == z * z,
            ax == a * x,
            ay == a * y,
            az == a * z,
    ;
    assert(bb * xx == bx * bx && bb * yy == by * by && bb * zz == bz * bz) by (nonlinear_arith)
        requires
            bb == b * b,
            xx == x * x,
            yy == y * y,
            zz == z * z,
            bx == b * x,
            by == b * y,
            bz == b * z,
    ;
    assert(cc * xx == cx * cx && cc * yy == cy * cy && cc * zz == cz * cz) by (nonlinear_arith)
        requires
            cc == c * c,
            xx == x * x,
            yy == y * y,
            zz == z * z,
            cx == c * x,
            cy == c * y,
            cz == c * z,
    ;
    assert((aa + bb + cc) * (xx + yy + zz) == aa * xx + aa * yy + aa * zz + bb * xx + bb * yy + bb
        * zz + cc * xx + cc * yy + cc * zz) by (nonlinear_arith);
    assert((ax + by + cz) * (ax + by + cz) == ax * ax + by * by + cz * cz + 2 * (ax * by) + 2 * (ax
        * cz) + 2 * (by * cz)) by (nonlinear_arith);
    assert((bz - cy) * (bz - cy) == bz * bz + cy * cy - 2 * (bz * cy)) by (nonlinear_arith);
    assert((cx - az) * (cx - az) == cx * cx + az * az - 2 * (cx * az)) by (nonlinear_arith);
    assert((ay - bx) * (ay - bx) == ay * ay + bx * bx - 2 * (ay * bx)) by (nonlinear_arith);
    assert(bz * cy == by * cz) by (nonlinear_arith)
        requires
            bz == b * z,
            cy == c * y,
            by == b * y,
            cz == c * z,
    ;
    assert(cx * az == ax * cz) by (nonlinear_arith)
        requires
            cx == c * x,
            az == a * z,
            ax == a * x,
            cz == c * z,
    ;
    assert(ay * bx == ax * by) by (nonlinear_arith)
        requires
            ay == a * y,
            bx == b * x,
            ax == a * x,
            by == b * y,
    ;
    if parallel(u, v) {
        assert((bz - cy) * (bz - cy) == 0 && (cx - az) * (cx - az) == 0 && (ay - bx) * (ay - bx)
            == 0);
    }
}

/// The magnitude of a raw value.
fn raw_abs(x: i64) -> (a: u128)
    ensures
        a == magnitude_of(x as int),
        a <= 0x8000_0000_0000_0000,
{
    if x < 0 {
        (-(x as i128)) as u128
    } else {
        x as u128
    }
}

/// The product of two raw values, in full, as sign and magnitude.
fn signed_product(x: i64, y: i64) -> (p: (bool, u128))
    ensures
        signed(p.0, p.1 as int) == x * y,
        p.1 <= 0x4000_0000_0000_0000_0000_0000_0000_0000,
{
    let a = raw_abs(x);
    let b = raw_abs(y);
    assert(a * b <= 0x8000_0000_0000_0000 * 0x8000_0000_0000_0000) by (nonlinear_arith)
        requires
            0 <= a <= 0x8000_0000_0000_0000,
            0 <= b <= 0x8000_0000_0000_0000,
    ;
    let negative = (x < 0) != (y < 0);
    assert(signed(negative, a * b) == x * y) by (nonlinear_arith)
        requires
            a == x || a == -x,
            b == y || b == -y,
            a >= 0,
            b >= 0,
            (x < 0) ==> a == -x,
            (y < 0) ==> b == -y,
            (x >= 0) ==> a == x,
            (y >= 0) ==> b == y,
            negative == ((x < 0) != (y < 0)),
            signed(negative, a * b) == if negative {
                -(a * b)
            } else {
                a * b
            },
    ;
    (negative, a * b)
}

/// The dot product of two vectors, in full, as sign and magnitude.
fn signed_dot(u: &Vec3, v: &Vec3) -> (p: (bool, u128))
    ensures
        signed(p.0, p.1 as int) == exact_dot(*u, *v),
        p.1 <= 3 * 0x4000_0000_0000_0000_0000_0000_0000_0000,
{
    let (n0, p0) = signed_product(u.0.raw, v.0.raw);
    let (n1, p1) = signed_product(u.1.raw, v.1.raw);
    let (n2, p2) = signed_product(u.2.raw, v.2.raw);
    let mut up: u128 = 0;
    let mut down: u128 = 0;
    if n0 {
        down = down + p0;
    } else {
        up = up + p0;
    }
    if n1 {
        down = down + p1;
    } else {
        up = up + p1;
    }
    if n2 {
        down = down + p2;
    } else {
        up = up + p2;
    }
    if up >= down {
        (false, up - down)
    } else {
        (true, down - up)
    }
}

/// A root of the quadratic: `half_b`, given by sign and magnitude, plus or
/// minus the root of the discriminant, over `a`.
fn quadratic_root(b_negative: bool, b: u128, plus: bool, rootd: u128, a: u128) -> (t: Scalar)
    requires
        a > 0,
    ensures
        t == root_scalar(
            signed(b_negative, b as int) + signed(!plus, rootd as int),
            a as int,
        ),
{
    let wide_b = Wide::from(b);
    let wide_r = Wide::from(rootd);
    assert(two_128() * two_128() > 2 * two_128());
    // the numerator, as sign and magnitude
    let same = b_negative == !plus;
    let negative: bool;
    let magnitude: Wide;
    if same {
        negative = b_negative;
        magnitude = wide_b.plus(&wide_r);
    } else if b >= rootd {
        negative = b_negative;
        magnitude = Wide::from(b - rootd);
    } else {
        negative = !b_negative;
        magnitude = Wide::from(rootd - b);
    }
    let ghost n = signed(b_negative, b as int) + signed(!plus, rootd as int);
    assert(n == signed(negative, magnitude.value()));
    assert(magnitude.hi <= 1);
    // times one
    let low = Wide::product(ONE_RAW as u128, magnitude.lo);
    let high = Wide { hi: (ONE_RAW as u128) * magnitude.hi, lo: 0 };
    assert(low.value() == ONE_RAW * magnitude.lo);
    assert(low.hi < 0x1_0000_0000) by (nonlinear_arith)
        requires
            low.hi * two_128() + low.lo == ONE_RAW * magnitude.lo,
            magnitude.lo < two_128(),
            low.lo >= 0,
            ONE_RAW == 0x1_0000_0000,
            two_128() > 0,
    ;
    assert(low.value() + high.value() < two_128() * two_128()) by (nonlinear_arith)
        requires
            low.value() == low.hi * two_128() + low.lo,
            high.value() == high.hi * two_128(),
            low.hi < 0x1_0000_0000,
            high.hi <= 0x1_0000_0000,
            low.lo < two_128(),
            two_128() > 0x2_0000_0001,
    ;
    let scaled = low.plus(&high);
    assert(scaled.value() == ONE_RAW * magnitude.value()) by (nonlinear_arith)
        requires
            scaled.value() == low.value() + high.value(),
            low.value() == ONE_RAW * magnitude.lo,
            high.value() == (ONE_RAW * magnitude.hi) * two_128(),
            magnitude.value() == magnitude.hi * two_128() + magnitude.lo,
    ;
    let q = scaled.quotient(a, MAX_RAW as u128);
    proof {
        let m = magnitude.value();
        assert(ONE_RAW * m >= 0) by (nonlinear_arith)
            requires
                m >= 0,
                ONE_RAW > 0,
        ;
        vstd::arithmetic::div_mod::lemma_div_pos_is_pos(ONE_RAW * m, a as int);
        if negative {
            assert(ONE_RAW * n == -(ONE_RAW * m)) by (nonlinear_arith)
                requires
                    n == -m,
            ;
        } else {
            assert(ONE_RAW * n == ONE_RAW * m);
        }
    }
    if negative {
        Scalar { raw: -(q as i64) }
    } else {
        Scalar { raw: q as i64 }
    }
}

impl<M: Material> Hittable for Sphere<M> {
    type Mat = M;

    open spec fn hit_spec(&self, r: Ray, interval: Range<Scalar>) -> Option<HitRecord<M>> {
        match self.hit_time_spec(r, interval) {
            Some(t) => Some(self.record_spec(r, t)),
            None => None,
        }
    }

    proof fn hit_is_within(&self, r: Ray, interval: Range<Scalar>) {
    }

    proof fn hit_narrows(&self, r: Ray, interval: Range<Scalar>, end: Scalar) {
        if Self::a_spec(r) != 0 && self.discriminant_spec(r) >= 0 {
            self.roots_ordered(r);
        }
    }

    fn hit(&self, r: &Ray, ray_interval: &Range<Scalar>) -> (res: Option<HitRecord<M>>) {
        let oc = self.center.sub(r.origin);
        let (_, a) = signed_dot(&r.direction, &r.direction);
        let (b_negative, b) = signed_dot(&r.direction, &oc);
        let (_, oo) = signed_dot(&oc, &oc);
        let (_, rr) = signed_product(self.radius.raw, self.radius.raw);
        proof {
            Self::a_is_not_negative(*r);
            Self::a_is_not_negative(Ray { direction: oc, origin: oc });
            assert(self.radius.raw * self.radius.raw >= 0) by (nonlinear_arith);
        }
        if a == 0 {
            return None;
        }
        let b_squared = Wide::product(b, b);
        assert(b * b == self.half_b_spec(*r) * self.half_b_spec(*r)) by (nonlinear_arith)
            requires
                b == self.half_b_spec(*r) || b == -self.half_b_spec(*r),
        ;
        let discriminant = if oo >= rr {
            let ac = Wide::product(a, oo - rr);
            if !ac.le(&b_squared) {
                return None;
            }
            b_squared.minus(&ac)
        } else {
            let ac = Wide::product(a, rr - oo);
            assert(a * (rr - oo) == -(Self::a_spec(*r) * self.c_spec(*r))) by (nonlinear_arith)
                requires
                    a == Self::a_spec(*r),
                    rr - oo == -self.c_spec(*r),
            ;
            assert(b * b + a * (rr - oo) < two_128() * two_128()) by (nonlinear_arith)
                requires
                    0 <= b <= 3 * 0x4000_0000_0000_0000_0000_0000_0000_0000int,
                    0 <= a <= 3 * 0x4000_0000_0000_0000_0000_0000_0000_0000int,
                    0 <= rr - oo <= 0x4000_0000_0000_0000_0000_0000_0000_0000int,
                    two_128() == 4 * 0x4000_0000_0000_0000_0000_0000_0000_0000int,
            ;
            b_squared.plus(&ac)
        };
        assert(discriminant.value() == self.discriminant_spec(*r));
        let rootd = discriminant.root();
        proof {
            root_is(self.discriminant_spec(*r), rootd as int);
        }
        let temp = quadratic_root(b_negative, b, false, rootd, a);
        let t = if ray_interval.start.raw < temp.raw && temp.raw < ray_interval.end.raw {
            temp
        } else {
            let temp2 = quadratic_root(b_negative, b, true, rootd, a);
            if ray_interval.start.raw < temp2.raw && temp2.raw < ray_interval.end.raw {
                temp2
            } else {
                return None;
            }
        };
        let p = r.at(t);
        Some(HitRecord::new(p, p.sub(self.center).div(self.radius), t, r, &self.material))
    }
}

/// The sphere with the centre `(x, y, z)` and the radius `r`, of a black
/// diffuse material.
impl From<(Scalar, Scalar, Scalar, Scalar)> for Sphere<Lambertian> {
    fn from(value: (Scalar, Scalar, Scalar, Scalar)) -> (r: Sphere<Lambertian>) {
        let (x, y, z, r) = value;
        let material = Lambertian::new(Color::black());
        Sphere::new(Vec3(x, y, z), r, material)
    }
}

impl vstd::std_specs::convert::FromSpecImpl<(Scalar, Scalar, Scalar, Scalar)> for Sphere<Lambertian> {
    open spec fn obeys_from_spec() -> bool {
        true
    }

    open spec fn from_spec(value: (Scalar, Scalar, Scalar, Scalar)) -> Sphere<Lambertian> {
        Sphere {
            center: Vec3(value.0, value.1, value.2),
            radius: value.3,
            material: Lambertian { albedo: Color::black_spec() },
        }
    }
}

} // verus!
