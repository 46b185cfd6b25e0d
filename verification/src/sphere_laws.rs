//! How well a hit lies on its sphere, although every step is rounded.
use vstd::prelude::*;
use crate::material::Material;
use crate::ray::Ray;
use crate::vec3::Vec3;
use crate::scalar::{
    fits, magnitude_of, quotient, quotient_remainder, root_exists, Scalar, ONE_RAW,
};
use crate::sphere::{exact_dot, offset_component, parallel, taxicab_length, Sphere};

verus! {

/// Rounding three numbers by no more than `eps` each changes the sum of
/// their squares by no more than `eps (2 |y| + 3 eps)`, with the taxicab
/// length of the rounded numbers.
proof fn rounded_squares(x0: int, x1: int, x2: int, y0: int, y1: int, y2: int, eps: int)
    requires
        eps >= 0,
        magnitude_of(x0 - y0) <= eps,
        magnitude_of(x1 - y1) <= eps,
        magnitude_of(x2 - y2) <= eps,
    ensures
        magnitude_of((x0 * x0 + x1 * x1 + x2 * x2) - (y0 * y0 + y1 * y1 + y2 * y2)) <= 2 * eps * (
        magnitude_of(y0) + magnitude_of(y1) + magnitude_of(y2)) + 3 * (eps * eps),
{
    rounded_square(x0, y0, eps);
    rounded_square(x1, y1, eps);
    rounded_square(x2, y2, eps);
    assert(2 * eps * (magnitude_of(y0) + magnitude_of(y1) + magnitude_of(y2)) == 2 * (eps
        * magnitude_of(y0)) + 2 * (eps * magnitude_of(y1)) + 2 * (eps * magnitude_of(y2)))
        by (nonlinear_arith);
}

/// Rounding a number by no more than `eps` changes its square by no more
/// than `eps (2 |y| + eps)`.
proof fn rounded_square(x: int, y: int, eps: int)
    requires
        eps >= 0,
        magnitude_of(x - y) <= eps,
    ensures
        -(2 * (eps * magnitude_of(y)) + eps * eps) <= x * x - y * y <= 2 * (eps * magnitude_of(y))
            + eps * eps,
{
    let e = x - y;
    assert(x * x - y * y == 2 * (e * y) + e * e) by (nonlinear_arith)
        requires
            e == x - y,
    ;
    assert(-(eps * magnitude_of(y)) <= e * y <= eps * magnitude_of(y)) by (nonlinear_arith)
        requires
            -eps <= e <= eps,
            magnitude_of(y) == y || magnitude_of(y) == -y,
            magnitude_of(y) >= 0,
    ;
    assert(0 <= e * e <= eps * eps) by (nonlinear_arith)
        requires
            -eps <= e <= eps,
    ;
}

/// The square of an exact offset `e = d t - 2^32 oc`, multiplied out.
proof fn offset_square(d: int, oc: int, t: int, e: int)
    requires
        e == d * t - ONE_RAW * oc,
    ensures
        e * e == (d * d) * (t * t) - 2 * ((d * oc) * (ONE_RAW * t)) + (oc * oc) * (ONE_RAW
            * ONE_RAW),
{
    let s = ONE_RAW as int;
    let dt = d * t;
    let so = s * oc;
    assert(e * e == dt * dt - 2 * (dt * so) + so * so) by (nonlinear_arith)
        requires
            e == dt - so,
    ;
    assert(dt * dt == (d * d) * (t * t)) by (nonlinear_arith)
        requires
            dt == d * t,
    ;
    assert(dt * so == (d * oc) * (s * t)) by (nonlinear_arith)
        requires
            dt == d * t,
            so == s * oc,
    ;
    assert(so * so == (oc * oc) * (s * s)) by (nonlinear_arith)
        requires
            so == s * oc,
    ;
}

impl<M: Material> Sphere<M> {
    /// What the quadratic gives at the parameter `t`, in units of 2^-128:
    /// `a t^2 - 2 half_b t + c`. It is the squared distance of the exact
    /// point of the ray at `t` from the centre, less the squared radius.
    pub open spec fn residual_spec(&self, r: Ray, t: Scalar) -> int {
        Self::a_spec(r) * (t.raw * t.raw) - 2 * (self.half_b_spec(r) * (ONE_RAW * t.raw))
            + self.c_spec(r) * (ONE_RAW * ONE_RAW)
    }

    /// The smaller root solves the quadratic up to rounding: what the
    /// quadratic gives there, times `a`, lies between `-2 2^64 root` and
    /// `a (2 2^32 root + a)`.
    pub proof fn near_root_solves_the_quadratic(&self, r: Ray)
        requires
            Self::a_spec(r) != 0,
            self.discriminant_spec(r) >= 0,
            self.half_b_spec(r) >= self.root_spec(r),
            fits(quotient(ONE_RAW * (self.half_b_spec(r) - self.root_spec(r)), Self::a_spec(r))),
        ensures
            -(2 * (ONE_RAW * ONE_RAW) * self.root_spec(r)) <= Self::a_spec(r) * self.residual_spec(
                r,
                self.near_root_spec(r),
            ) <= Self::a_spec(r) * (2 * ONE_RAW * self.root_spec(r) + Self::a_spec(r)),
    {
        let s = ONE_RAW as int;
        let a = Self::a_spec(r);
        let b = self.half_b_spec(r);
        let c = self.c_spec(r);
        let disc = self.discriminant_spec(r);
        let rt = self.root_spec(r);
        let t = self.near_root_spec(r).raw as int;
        Self::a_is_not_negative(r);
        root_exists(disc);
        let num = s * (b - rt);
        assert(num >= 0) by (nonlinear_arith)
            requires
                num == s * (b - rt),
                b >= rt,
                s > 0,
        ;
        quotient_remainder(num, a);
        let rho = num - t * a;
        let e = self.residual_spec(r, self.near_root_spec(r));
        // a e = (a t - b s)^2 - s^2 disc
        let at = a * t;
        let bs = b * s;
        let u = at - bs;
        assert(a * (a * (t * t)) == at * at) by (nonlinear_arith)
            requires
                at == a * t,
        ;
        assert(a * (2 * (b * (s * t))) == 2 * (at * bs)) by (nonlinear_arith)
            requires
                at == a * t,
                bs == b * s,
        ;
        assert(a * (c * (s * s)) == (s * s) * (a * c)) by (nonlinear_arith);
        assert(bs * bs == (s * s) * (b * b)) by (nonlinear_arith)
            requires
                bs == b * s,
        ;
        assert(u * u == at * at - 2 * (at * bs) + bs * bs) by (nonlinear_arith)
            requires
                u == at - bs,
        ;
        let x1 = a * (t * t);
        let x2 = 2 * (b * (s * t));
        let x3 = c * (s * s);
        assert(a * e == a * x1 - a * x2 + a * x3) by (nonlinear_arith)
            requires
                e == x1 - x2 + x3,
        ;
        assert((s * s) * disc == (s * s) * (b * b) - (s * s) * (a * c)) by (nonlinear_arith)
            requires
                disc == b * b - a * c,
        ;
        assert(a * e == u * u - (s * s) * disc);
        assert(u == -(s * rt + rho)) by (nonlinear_arith)
            requires
                u == a * t - b * s,
                rho == s * (b - rt) - t * a,
                at == a * t,
                bs == b * s,
        ;
        let v = s * rt + rho;
        assert(u * u == v * v) by (nonlinear_arith)
            requires
                u == -v,
        ;
        assert(v * v == (s * s) * (rt * rt) + 2 * ((s * rt) * rho) + rho * rho) by (nonlinear_arith)
            requires
                v == s * rt + rho,
        ;
        let gap = disc - rt * rt;
        assert(0 <= gap <= 2 * rt) by (nonlinear_arith)
            requires
                gap == disc - rt * rt,
                rt * rt <= disc,
                disc < (rt + 1) * (rt + 1),
        ;
        assert((s * s) * disc == (s * s) * (rt * rt) + (s * s) * gap) by (nonlinear_arith)
            requires
                gap == disc - rt * rt,
        ;
        assert(a * e == 2 * ((s * rt) * rho) + rho * rho - (s * s) * gap);
        assert(0 <= (s * s) * gap <= (2 * (s * s)) * rt) by (nonlinear_arith)
            requires
                0 <= gap <= 2 * rt,
                s > 0,
        ;
        assert(0 <= (s * rt) * rho <= (s * rt) * a) by (nonlinear_arith)
            requires
                0 <= rho < a,
                rt >= 0,
                s > 0,
        ;
        assert(0 <= rho * rho <= a * a) by (nonlinear_arith)
            requires
                0 <= rho < a,
        ;
        assert(a * (2 * s * rt + a) == 2 * ((s * rt) * a) + a * a) by (nonlinear_arith);
        assert(2 * (s * s) * rt == (2 * (s * s)) * rt) by (nonlinear_arith);
    }

    /// The point that is hit lies on the sphere up to rounding, and the
    /// outward normal there has unit length up to rounding. With the offset
    /// `g` of the point from the centre and the outward normal `n = g /
    /// radius`, both as they are computed:
    /// the squared length of `g` differs from the squared radius by what
    /// the quadratic gives at `t`, and by no more than `2 |g| + 3` raw
    /// units besides; and `radius^2 |n|^2` differs from `2^64 |g|^2` by no
    /// more than `radius^2 (2 |n| + 3)`, with taxicab lengths.
    pub proof fn hit_point_is_on_the_sphere(&self, r: Ray, t: Scalar)
        requires
            self.is_exact_at(r, t),
            self.radius.raw > 0,
        ensures
            ({
                let g = r.at_spec(t).sub_spec(self.center);
                let n = self.outward_spec(r.at_spec(t));
                &&& magnitude_of(
                    (ONE_RAW * ONE_RAW) * (exact_dot(g, g) - self.radius.raw * self.radius.raw)
                        - self.residual_spec(r, t),
                ) <= (ONE_RAW * ONE_RAW) * (2 * taxicab_length(g) + 3)
                &&& magnitude_of(
                    (self.radius.raw * self.radius.raw) * exact_dot(n, n) - (ONE_RAW * ONE_RAW)
                        * exact_dot(g, g),
                ) <= (self.radius.raw * self.radius.raw) * (2 * taxicab_length(n) + 3)
            }),
    {
        let s = ONE_RAW as int;
        let rad = self.radius.raw as int;
        let (d, o, c) = (r.direction, r.origin, self.center);
        let tt = t.raw as int;
        let g = r.at_spec(t).sub_spec(c);
        let n = self.outward_spec(r.at_spec(t));
        let (g0, g1, g2) = (g.0.raw as int, g.1.raw as int, g.2.raw as int);
        let (n0, n1, n2) = (n.0.raw as int, n.1.raw as int, n.2.raw as int);
        assert(g0 == offset_component(d.0, o.0, c.0, t));
        assert(g1 == offset_component(d.1, o.1, c.1, t));
        assert(g2 == offset_component(d.2, o.2, c.2, t));
        let oc = self.oc_spec(r);
        let (oc0, oc1, oc2) = (oc.0.raw as int, oc.1.raw as int, oc.2.raw as int);
        assert(oc0 == c.0.raw - o.0.raw && oc1 == c.1.raw - o.1.raw && oc2 == c.2.raw - o.2.raw);
        // the exact offsets, times one
        let e0 = d.0.raw * tt - s * oc0;
        let e1 = d.1.raw * tt - s * oc1;
        let e2 = d.2.raw * tt - s * oc2;
        quotient_remainder(d.0.raw * tt, s);
        quotient_remainder(d.1.raw * tt, s);
        quotient_remainder(d.2.raw * tt, s);
        let (y0, y1, y2) = (s * g0, s * g1, s * g2);
        let dt0 = d.0.raw * tt;
        let q0 = quotient(dt0, s);
        assert(e0 - y0 == dt0 - q0 * s) by (nonlinear_arith)
            requires
                e0 == dt0 - s * oc0,
                y0 == s * g0,
                g0 == q0 - oc0,
        ;
        let dt1 = d.1.raw * tt;
        let q1 = quotient(dt1, s);
        assert(e1 - y1 == dt1 - q1 * s) by (nonlinear_arith)
            requires
                e1 == dt1 - s * oc1,
                y1 == s * g1,
                g1 == q1 - oc1,
        ;
        let dt2 = d.2.raw * tt;
        let q2 = quotient(dt2, s);
        assert(e2 - y2 == dt2 - q2 * s) by (nonlinear_arith)
            requires
                e2 == dt2 - s * oc2,
                y2 == s * g2,
                g2 == q2 - oc2,
        ;
        rounded_squares(e0, e1, e2, y0, y1, y2, s);
        assert(magnitude_of(y0) == s * magnitude_of(g0) && magnitude_of(y1) == s * magnitude_of(g1)
            && magnitude_of(y2) == s * magnitude_of(g2)) by (nonlinear_arith)
            requires
                y0 == s * g0,
                y1 == s * g1,
                y2 == s * g2,
                s > 0,
        ;
        let ss = s * s;
        assert(y0 * y0 == ss * (g0 * g0)) by (nonlinear_arith)
            requires
                y0 == s * g0,
                ss == s * s,
        ;
        assert(y1 * y1 == ss * (g1 * g1)) by (nonlinear_arith)
            requires
                y1 == s * g1,
                ss == s * s,
        ;
        assert(y2 * y2 == ss * (g2 * g2)) by (nonlinear_arith)
            requires
                y2 == s * g2,
                ss == s * s,
        ;
        assert(ss * (g0 * g0 + g1 * g1 + g2 * g2) == ss * (g0 * g0) + ss * (g1 * g1) + ss * (g2
            * g2)) by (nonlinear_arith);
        let a = Self::a_spec(r);
        let b = self.half_b_spec(r);
        offset_square(d.0.raw as int, oc0, tt, e0);
        offset_square(d.1.raw as int, oc1, tt, e1);
        offset_square(d.2.raw as int, oc2, tt, e2);
        assert(a * (tt * tt) == (d.0.raw * d.0.raw) * (tt * tt) + (d.1.raw * d.1.raw) * (tt * tt)
            + (d.2.raw * d.2.raw) * (tt * tt)) by (nonlinear_arith)
            requires
                a == d.0.raw * d.0.raw + d.1.raw * d.1.raw + d.2.raw * d.2.raw,
        ;
        assert(b * (s * tt) == (d.0.raw * oc0) * (s * tt) + (d.1.raw * oc1) * (s * tt) + (d.2.raw
            * oc2) * (s * tt)) by (nonlinear_arith)
            requires
                b == d.0.raw * oc0 + d.1.raw * oc1 + d.2.raw * oc2,
        ;
        let oo = exact_dot(oc, oc);
        assert(oo * (s * s) == (oc0 * oc0) * (s * s) + (oc1 * oc1) * (s * s) + (oc2 * oc2) * (s * s))
            by (nonlinear_arith)
            requires
                oo == oc0 * oc0 + oc1 * oc1 + oc2 * oc2,
        ;
        let res = self.residual_spec(r, t);
        assert(res == a * (tt * tt) - 2 * (b * (s * tt)) + (oo - rad * rad) * (s * s));
        assert((oo - rad * rad) * (s * s) == oo * (s * s) - (s * s) * (rad * rad))
            by (nonlinear_arith);
        assert(e0 * e0 + e1 * e1 + e2 * e2 == res + (s * s) * (rad * rad));
        let gg = exact_dot(g, g);
        assert((s * s) * (gg - rad * rad) == (s * s) * gg - (s * s) * (rad * rad))
            by (nonlinear_arith);
        assert(2 * s * (magnitude_of(y0) + magnitude_of(y1) + magnitude_of(y2)) + 3 * (s * s) == (s
            * s) * (2 * taxicab_length(g) + 3)) by (nonlinear_arith)
            requires
                magnitude_of(y0) == s * magnitude_of(g0),
                magnitude_of(y1) == s * magnitude_of(g1),
                magnitude_of(y2) == s * magnitude_of(g2),
                taxicab_length(g) == magnitude_of(g0) + magnitude_of(g1) + magnitude_of(g2),
        ;
        // the normal
        quotient_remainder(g0 * s, rad);
        quotient_remainder(g1 * s, rad);
        quotient_remainder(g2 * s, rad);
        assert(n0 == quotient(g0 * s, rad) && n1 == quotient(g1 * s, rad) && n2 == quotient(
            g2 * s,
            rad,
        ));
        let (z0, z1, z2) = (n0 * rad, n1 * rad, n2 * rad);
        assert(y0 == g0 * s && y1 == g1 * s && y2 == g2 * s) by (nonlinear_arith)
            requires
                y0 == s * g0,
                y1 == s * g1,
                y2 == s * g2,
        ;
        rounded_squares(y0, y1, y2, z0, z1, z2, rad);
        assert(magnitude_of(z0) == rad * magnitude_of(n0) && magnitude_of(z1) == rad
            * magnitude_of(n1) && magnitude_of(z2) == rad * magnitude_of(n2)) by (nonlinear_arith)
            requires
                z0 == n0 * rad,
                z1 == n1 * rad,
                z2 == n2 * rad,
                rad > 0,
        ;
        let rr = rad * rad;
        assert(z0 * z0 == rr * (n0 * n0)) by (nonlinear_arith)
            requires
                z0 == n0 * rad,
                rr == rad * rad,
        ;
        assert(z1 * z1 == rr * (n1 * n1)) by (nonlinear_arith)
            requires
                z1 == n1 * rad,
                rr == rad * rad,
        ;
        assert(z2 * z2 == rr * (n2 * n2)) by (nonlinear_arith)
            requires
                z2 == n2 * rad,
                rr == rad * rad,
        ;
        assert(rr * (n0 * n0 + n1 * n1 + n2 * n2) == rr * (n0 * n0) + rr * (n1 * n1) + rr * (n2
            * n2)) by (nonlinear_arith);
        assert(2 * rad * (magnitude_of(z0) + magnitude_of(z1) + magnitude_of(z2)) + 3 * (rad * rad)
            == (rad * rad) * (2 * taxicab_length(n) + 3)) by (nonlinear_arith)
            requires
                magnitude_of(z0) == rad * magnitude_of(n0),
                magnitude_of(z1) == rad * magnitude_of(n1),
                magnitude_of(z2) == rad * magnitude_of(n2),
                taxicab_length(n) == magnitude_of(n0) + magnitude_of(n1) + magnitude_of(n2),
        ;
    }
}

/// For a vector `d` parallel to `w`, each component of `d` times the
/// squared length of `w` is the dot product of the two times the component
/// of `w`.
proof fn parallel_components(d: Vec3, w: Vec3)
    requires
        parallel(d, w),
    ensures
        d.0.raw * exact_dot(w, w) == exact_dot(d, w) * w.0.raw,
        d.1.raw * exact_dot(w, w) == exact_dot(d, w) * w.1.raw,
        d.2.raw * exact_dot(w, w) == exact_dot(d, w) * w.2.raw,
{
    let (d0, d1, d2) = (d.0.raw as int, d.1.raw as int, d.2.raw as int);
    let (w0, w1, w2) = (w.0.raw as int, w.1.raw as int, w.2.raw as int);
    let ww = exact_dot(w, w);
    let dw = exact_dot(d, w);
    parallel_component(d0, d1, d2, w0, w1, w2);
    parallel_component(d1, d2, d0, w1, w2, w0);
    parallel_component(d2, d0, d1, w2, w0, w1);
}

/// One component of `parallel_components`.
proof fn parallel_component(d0: int, d1: int, d2: int, w0: int, w1: int, w2: int)
    requires
        d0 * w1 == d1 * w0,
        d2 * w0 == d0 * w2,
    ensures
        d0 * (w0 * w0 + w1 * w1 + w2 * w2) == (d0 * w0 + d1 * w1 + d2 * w2) * w0,
{
    assert(d0 * (w1 * w1) == (d1 * w1) * w0) by (nonlinear_arith)
        requires
            d0 * w1 == d1 * w0,
    ;
    assert(d0 * (w2 * w2) == (d2 * w2) * w0) by (nonlinear_arith)
        requires
            d2 * w0 == d0 * w2,
    ;
    assert(d0 * (w0 * w0) == (d0 * w0) * w0) by (nonlinear_arith);
    assert(d0 * (w0 * w0 + w1 * w1 + w2 * w2) == d0 * (w0 * w0) + d0 * (w1 * w1) + d0 * (w2 * w2))
        by (nonlinear_arith);
    assert((d0 * w0 + d1 * w1 + d2 * w2) * w0 == (d0 * w0) * w0 + (d1 * w1) * w0 + (d2 * w2) * w0)
        by (nonlinear_arith);
}

/// One component of the outward normal of a ray that runs along the way to
/// the centre: with the squared length `oo` of that way and what is left of
/// it at the parameter `t`, `m = 2^32 oo - half_b t`, the component of the
/// normal times `oo radius` is the component of the way back times `m`, up
/// to `oo (2^32 + radius)`.
proof fn normal_component(d: int, oc: int, tt: int, rad: int, oo: int, b: int) -> (e: int)
    requires
        rad > 0,
        oo > 0,
        d * oo == b * oc,
    ensures
        ({
            let g = quotient(d * tt, ONE_RAW as int) - oc;
            let n = quotient(g * ONE_RAW, rad);
            &&& (oo * rad) * n == (-oc) * (ONE_RAW * oo - b * tt) - oo * e
            &&& magnitude_of(e) < ONE_RAW + rad
        }),
{
    let s = ONE_RAW as int;
    let dt = d * tt;
    let q = quotient(dt, s);
    quotient_remainder(dt, s);
    let rho = dt - q * s;
    let g = q - oc;
    let gs = g * s;
    let n = quotient(gs, rad);
    quotient_remainder(gs, rad);
    let sigma = gs - n * rad;
    let m = s * oo - b * tt;
    // s oo g = -oc m - oo rho
    assert(oo * dt == (b * tt) * oc) by (nonlinear_arith)
        requires
            dt == d * tt,
            d * oo == b * oc,
    ;
    assert(oo * gs == oo * dt - oo * rho - (s * oo) * oc) by (nonlinear_arith)
        requires
            gs == g * s,
            g == q - oc,
            rho == dt - q * s,
    ;
    assert((-oc) * m == (b * tt) * oc - (s * oo) * oc) by (nonlinear_arith)
        requires
            m == s * oo - b * tt,
    ;
    assert((oo * rad) * n == oo * gs - oo * sigma) by (nonlinear_arith)
        requires
            sigma == gs - n * rad,
    ;
    assert(oo * (rho + sigma) == oo * rho + oo * sigma) by (nonlinear_arith);
    rho + sigma
}

impl<M: Material> Sphere<M> {
    /// The outward normal of a ray that runs along the way to the centre
    /// lies along that way, up to rounding: the cross product of the normal
    /// with the way to the centre, taken in full and multiplied by the
    /// radius, is in each component no farther from zero than
    /// `(2^32 + radius)` times the two components of the way that it is made
    /// of. With `aimed_at_center_hits_front`, which gives its side, and
    /// `hit_point_is_on_the_sphere`, which gives its length, the normal is
    /// the unit vector from the centre toward the origin of the ray up to
    /// rounding.
    pub proof fn normal_lies_along_the_way(&self, r: Ray, t: Scalar)
        requires
            parallel(r.direction, self.oc_spec(r)),
            exact_dot(self.oc_spec(r), self.oc_spec(r)) > 0,
            self.radius.raw > 0,
            self.is_exact_at(r, t),
        ensures
            ({
                let n = self.outward_spec(r.at_spec(t));
                let w = self.oc_spec(r);
                let k = ONE_RAW + self.radius.raw;
                &&& magnitude_of(self.radius.raw * (n.1.raw * w.2.raw - n.2.raw * w.1.raw)) <= k * (
                magnitude_of(w.1.raw as int) + magnitude_of(w.2.raw as int))
                &&& magnitude_of(self.radius.raw * (n.2.raw * w.0.raw - n.0.raw * w.2.raw)) <= k * (
                magnitude_of(w.2.raw as int) + magnitude_of(w.0.raw as int))
                &&& magnitude_of(self.radius.raw * (n.0.raw * w.1.raw - n.1.raw * w.0.raw)) <= k * (
                magnitude_of(w.0.raw as int) + magnitude_of(w.1.raw as int))
            }),
    {
        let (d, o, c) = (r.direction, r.origin, self.center);
        let w = self.oc_spec(r);
        let oo = exact_dot(w, w);
        let b = self.half_b_spec(r);
        let rad = self.radius.raw as int;
        let tt = t.raw as int;
        let n = self.outward_spec(r.at_spec(t));
        assert(w.0.raw == c.0.raw - o.0.raw && w.1.raw == c.1.raw - o.1.raw && w.2.raw == c.2.raw
            - o.2.raw);
        parallel_components(d, w);
        let e0 = normal_component(d.0.raw as int, w.0.raw as int, tt, rad, oo, b);
        let e1 = normal_component(d.1.raw as int, w.1.raw as int, tt, rad, oo, b);
        let e2 = normal_component(d.2.raw as int, w.2.raw as int, tt, rad, oo, b);
        assert(n.0.raw == quotient(offset_component(d.0, o.0, c.0, t) * ONE_RAW, rad));
        assert(n.1.raw == quotient(offset_component(d.1, o.1, c.1, t) * ONE_RAW, rad));
        assert(n.2.raw == quotient(offset_component(d.2, o.2, c.2, t) * ONE_RAW, rad));
        let m = ONE_RAW * oo - b * tt;
        crossed(n.1.raw as int, n.2.raw as int, w.1.raw as int, w.2.raw as int, e1, e2, m, oo, rad);
        crossed(n.2.raw as int, n.0.raw as int, w.2.raw as int, w.0.raw as int, e2, e0, m, oo, rad);
        crossed(n.0.raw as int, n.1.raw as int, w.0.raw as int, w.1.raw as int, e0, e1, m, oo, rad);
    }
}

/// Two components of a normal that lie along `-w` up to `e`: their cross
/// term with `w` is bounded by what `e` allows.
proof fn crossed(ni: int, nj: int, wi: int, wj: int, ei: int, ej: int, m: int, oo: int, rad: int)
    requires
        oo > 0,
        rad > 0,
        (oo * rad) * ni == (-wi) * m - oo * ei,
        (oo * rad) * nj == (-wj) * m - oo * ej,
        magnitude_of(ei) < ONE_RAW + rad,
        magnitude_of(ej) < ONE_RAW + rad,
    ensures
        magnitude_of(rad * (ni * wj - nj * wi)) <= (ONE_RAW + rad) * (magnitude_of(wi)
            + magnitude_of(wj)),
{
    let k = ONE_RAW + rad;
    let x = rad * (ni * wj - nj * wi);
    let y = ej * wi - ei * wj;
    let c = oo * rad;
    let (p, q) = (c * ni, c * nj);
    assert(oo * (rad * (ni * wj)) == p * wj) by (nonlinear_arith)
        requires
            p == (oo * rad) * ni,
    ;
    assert(oo * (rad * (nj * wi)) == q * wi) by (nonlinear_arith)
        requires
            q == (oo * rad) * nj,
    ;
    assert(x == rad * (ni * wj) - rad * (nj * wi)) by (nonlinear_arith)
        requires
            x == rad * (ni * wj - nj * wi),
    ;
    let (x1, x2) = (rad * (ni * wj), rad * (nj * wi));
    assert(oo * x == oo * x1 - oo * x2) by (nonlinear_arith)
        requires
            x == x1 - x2,
    ;
    let (a1, b1) = ((-wi) * m, oo * ei);
    let (a2, b2) = ((-wj) * m, oo * ej);
    assert(a1 * wj == a2 * wi) by (nonlinear_arith)
        requires
            a1 == (-wi) * m,
            a2 == (-wj) * m,
    ;
    assert((a1 - b1) * wj == a1 * wj - b1 * wj) by (nonlinear_arith);
    assert((a2 - b2) * wi == a2 * wi - b2 * wi) by (nonlinear_arith);
    assert(b1 * wj == oo * (ei * wj)) by (nonlinear_arith)
        requires
            b1 == oo * ei,
    ;
    assert(b2 * wi == oo * (ej * wi)) by (nonlinear_arith)
        requires
            b2 == oo * ej,
    ;
    assert(oo * y == oo * (ej * wi) - oo * (ei * wj)) by (nonlinear_arith)
        requires
            y == ej * wi - ei * wj,
    ;
    assert(oo * x == oo * y);
    assert(x == y) by (nonlinear_arith)
        requires
            oo * x == oo * y,
            oo > 0,
    ;
    assert(-(k * magnitude_of(wi)) <= ej * wi <= k * magnitude_of(wi)) by (nonlinear_arith)
        requires
            -k < ej < k,
            magnitude_of(wi) == wi || magnitude_of(wi) == -wi,
            magnitude_of(wi) >= 0,
    ;
    assert(-(k * magnitude_of(wj)) <= ei * wj <= k * magnitude_of(wj)) by (nonlinear_arith)
        requires
            -k < ei < k,
            magnitude_of(wj) == wj || magnitude_of(wj) == -wj,
            magnitude_of(wj) >= 0,
    ;
    assert(k * (magnitude_of(wi) + magnitude_of(wj)) == k * magnitude_of(wi) + k * magnitude_of(wj))
        by (nonlinear_arith);
}

} // verus!
