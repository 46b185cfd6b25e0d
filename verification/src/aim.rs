//! Rays that are aimed at the centre of a sphere by normalizing the way to
//! it.
use vstd::prelude::*;
use core::ops::Range;
use crate::hittable::{surrounds, Hittable};
use crate::laws::normalized_has_unit_magnitude;
use crate::material::Material;
use crate::ray::Ray;
use crate::scalar::{
    fits, magnitude_of, quotient, quotient_remainder, root, root_exists, Scalar, ONE_RAW,
};
use crate::sphere::{exact_dot, lagrange, taxicab_length, Sphere};
use crate::vec3::Vec3;

verus! {

/// One component `y` of a normalized vector, the quotient of `x k 2^32` by
/// the length `m`: it lies on the side of `x`, and `m y` is `x k 2^32` less
/// a remainder that is shorter than `m`.
proof fn unit_component(x: int, k: int, m: int) -> (rho: int)
    requires
        m >= 1,
        k >= 1,
    ensures
        m * quotient(x * k * ONE_RAW, m) == (x * k) * ONE_RAW - rho,
        magnitude_of(rho) < m,
        quotient(x * k * ONE_RAW, m) * x >= 0,
{
    let n = x * k * ONE_RAW;
    let y = quotient(n, m);
    quotient_remainder(n, m);
    assert(m * y == y * m) by (nonlinear_arith);
    assert(x >= 0 ==> n >= 0) by (nonlinear_arith)
        requires
            n == x * k * ONE_RAW,
            k >= 1,
            ONE_RAW > 0,
    ;
    assert(x < 0 ==> n < 0) by (nonlinear_arith)
        requires
            n == x * k * ONE_RAW,
            k >= 1,
            ONE_RAW > 0,
    ;
    if x >= 0 {
        vstd::arithmetic::div_mod::lemma_div_pos_is_pos(n, m);
    } else {
        vstd::arithmetic::div_mod::lemma_div_pos_is_pos(-n, m);
    }
    assert(y * x >= 0) by (nonlinear_arith)
        requires
            (x >= 0 && y >= 0) || (x < 0 && y <= 0),
    ;
    n - y * m
}

/// One component of the cross product of a normalized vector with the
/// vector that it was made of: it is no longer than the two components of
/// that vector together, so its square is at most twice their squares.
proof fn cross_of_unit(yi: int, yj: int, xi: int, xj: int, k: int, m: int, ri: int, rj: int)
    requires
        m >= 1,
        m * yi == (xi * k) * ONE_RAW - ri,
        m * yj == (xj * k) * ONE_RAW - rj,
        magnitude_of(ri) < m,
        magnitude_of(rj) < m,
    ensures
        (yi * xj - yj * xi) * (yi * xj - yj * xi) <= 2 * (xi * xi) + 2 * (xj * xj),
{
    let c = yi * xj - yj * xi;
    let s = ONE_RAW as int;
    assert(m * c == (m * yi) * xj - (m * yj) * xi) by (nonlinear_arith)
        requires
            c == yi * xj - yj * xi,
    ;
    assert(((xi * k) * s - ri) * xj - ((xj * k) * s - rj) * xi == rj * xi - ri * xj)
        by (nonlinear_arith);
    let (ai, aj) = (magnitude_of(xi), magnitude_of(xj));
    assert(-(m * ai) <= rj * xi <= m * ai) by (nonlinear_arith)
        requires
            -m < rj < m,
            ai == xi || ai == -xi,
            ai >= 0,
    ;
    assert(-(m * aj) <= ri * xj <= m * aj) by (nonlinear_arith)
        requires
            -m < ri < m,
            aj == xj || aj == -xj,
            aj >= 0,
    ;
    let t = ai + aj;
    assert(m * t == m * ai + m * aj) by (nonlinear_arith)
        requires
            t == ai + aj,
    ;
    assert(-t <= c <= t) by (nonlinear_arith)
        requires
            -(m * t) <= m * c <= m * t,
            m >= 1,
    ;
    assert(c * c <= t * t) by (nonlinear_arith)
        requires
            -t <= c <= t,
    ;
    assert(ai * ai == xi * xi && aj * aj == xj * xj) by (nonlinear_arith)
        requires
            ai == xi || ai == -xi,
            aj == xj || aj == -xj,
    ;
    assert((ai - aj) * (ai - aj) >= 0) by (nonlinear_arith);
    assert(t * t <= 2 * (xi * xi) + 2 * (xj * xj)) by (nonlinear_arith)
        requires
            t == ai + aj,
            ai * ai == xi * xi,
            aj * aj == xj * xj,
            (ai - aj) * (ai - aj) >= 0,
    ;
}

impl<M: Material> Sphere<M> {
    /// A ray whose direction is the way to the centre, normalized, hits the
    /// front of the sphere from outside. Where the centre is no farther
    /// than 2^30 radii from the origin of the ray and nothing saturates, a
    /// search that starts at zero or later and surrounds the smaller root
    /// finds the hit there, at a positive parameter, on the front face, with
    /// a normal that points back against the ray.
    pub proof fn aimed_by_normalizing_hits_front(&self, r: Ray, interval: Range<Scalar>)
        requires
            self.oc_spec(r).magnitude_spec().raw != 0,
            r.direction == self.oc_spec(r).normalize_spec(),
            self.c_spec(r) > 0,
            self.radius.raw > 0,
            16 * exact_dot(self.oc_spec(r), self.oc_spec(r)) <= (ONE_RAW * ONE_RAW) * (
            self.radius.raw * self.radius.raw),
            fits(quotient(ONE_RAW * (self.half_b_spec(r) - self.root_spec(r)), Self::a_spec(r))),
            self.is_exact_at(r, self.near_root_spec(r)),
            interval.start.raw >= 0,
            surrounds(interval, self.near_root_spec(r)),
        ensures
            self.hit_spec(r, interval) matches Some(h) && h.t == self.near_root_spec(r) && h.t.raw
                > 0 && h.front_face && r.direction.dot_spec(h.normal).raw < 0,
    {
        let s = ONE_RAW as int;
        let oc = self.oc_spec(r);
        let d = r.direction;
        let rad = self.radius.raw as int;
        let (x0, x1, x2) = (oc.0.raw as int, oc.1.raw as int, oc.2.raw as int);
        let k = oc.stretch_spec();
        let m = oc.stretched_length();
        oc.normalize_is_bounded();
        let r0 = unit_component(x0, k, m);
        let r1 = unit_component(x1, k, m);
        let r2 = unit_component(x2, k, m);
        let (y0, y1, y2) = (d.0.raw as int, d.1.raw as int, d.2.raw as int);
        assert(y0 == quotient(x0 * k * ONE_RAW, m) && y1 == quotient(x1 * k * ONE_RAW, m) && y2
            == quotient(x2 * k * ONE_RAW, m));
        // the cross product of the direction with the way to the centre
        cross_of_unit(y1, y2, x1, x2, k, m, r1, r2);
        cross_of_unit(y2, y0, x2, x0, k, m, r2, r0);
        cross_of_unit(y0, y1, x0, x1, k, m, r0, r1);
        lagrange(d, oc);
        let a = Self::a_spec(r);
        let b = self.half_b_spec(r);
        let oo = exact_dot(oc, oc);
        let cross = a * oo - b * b;
        assert(0 <= cross <= 4 * oo) by {
            assert((y1 * x2 - y2 * x1) * (y1 * x2 - y2 * x1) >= 0) by (nonlinear_arith);
            assert((y2 * x0 - y0 * x2) * (y2 * x0 - y0 * x2) >= 0) by (nonlinear_arith);
            assert((y0 * x1 - y1 * x0) * (y0 * x1 - y1 * x0) >= 0) by (nonlinear_arith);
        }
        // the direction has unit length
        normalized_has_unit_magnitude(oc);
        Self::a_is_not_negative(r);
        root_exists(a);
        assert(d.sum_of_squares() == a);
        let ra = root(a);
        assert(ra >= s - 4);
        assert(2 * a >= s * s) by (nonlinear_arith)
            requires
                ra * ra <= a,
                ra >= s - 4,
                s == 0x1_0000_0000,
        ;
        // the discriminant
        let rr = rad * rad;
        let disc = self.discriminant_spec(r);
        assert(disc == a * rr - cross) by (nonlinear_arith)
            requires
                disc == b * b - a * (oo - rr),
                cross == a * oo - b * b,
        ;
        assert(rr >= 1) by (nonlinear_arith)
            requires
                rr == rad * rad,
                rad >= 1,
        ;
        assert(4 * (a * rr) >= 2 * ((s * s) * rr)) by (nonlinear_arith)
            requires
                2 * a >= s * s,
                rr >= 0,
        ;
        assert((s * s) * rr >= 128 * rr) by (nonlinear_arith)
            requires
                rr >= 0,
                s == 0x1_0000_0000,
        ;
        assert(disc >= 16 * rr);
        root_exists(disc);
        let rt = self.root_spec(r);
        assert(rt >= 4 * rad) by (nonlinear_arith)
            requires
                disc >= 16 * rr,
                rr == rad * rad,
                disc < (rt + 1) * (rt + 1),
                rt >= 0,
                rad >= 1,
        ;
        // half_b is not below the root
        assert(b >= 0) by {
            assert(y0 * x0 >= 0 && y1 * x1 >= 0 && y2 * x2 >= 0);
        }
        let c = self.c_spec(r);
        assert(b * b >= disc) by (nonlinear_arith)
            requires
                disc == b * b - a * c,
                a >= 0,
                c > 0,
        ;
        assert(b >= rt) by (nonlinear_arith)
            requires
                b * b >= disc,
                rt * rt <= disc,
                b >= 0,
                rt >= 0,
        ;
        // the root outweighs the rounding of the normal
        let len = taxicab_length(d);
        assert(len <= 3 * s);
        assert(s * rt >= rad * (s + len)) by (nonlinear_arith)
            requires
                rt >= 4 * rad,
                0 <= len <= 3 * s,
                rad >= 1,
                s > 0,
        ;
        assert(a != 0);
        self.near_hit_is_in_front(r);
    }
}

} // verus!
