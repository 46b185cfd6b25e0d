//! What holds of vector arithmetic although every product is rounded.
//!
//! The identities of exact arithmetic hold of scalars up to the rounding of
//! each formula, and the lemmas here say how far a result can be from the
//! exact one. They hold where no intermediate value saturates.
use vstd::prelude::*;
use crate::scalar::{
    fits, magnitude_of, quotient, quotient_magnitude, quotient_remainder, root, root_exists,
    saturate, Scalar, ONE_RAW,
};
use crate::vec3::Vec3;

verus! {

/// The sum of the distances of the components of a vector from zero, in raw
/// units.
pub open spec fn taxicab(v: Vec3) -> int {
    magnitude_of(v.0.raw as int) + magnitude_of(v.1.raw as int) + magnitude_of(v.2.raw as int)
}

/// No component of the cross product of `a` and `b` saturates.
pub open spec fn cross_fits(a: Vec3, b: Vec3) -> bool {
    &&& fits(quotient(a.1.raw * b.2.raw - a.2.raw * b.1.raw, ONE_RAW as int))
    &&& fits(quotient(a.2.raw * b.0.raw - a.0.raw * b.2.raw, ONE_RAW as int))
    &&& fits(quotient(a.0.raw * b.1.raw - a.1.raw * b.0.raw, ONE_RAW as int))
}

/// The product of a number that is less than `s` away from zero with `x` is
/// no farther from zero than `s |x|`.
proof fn product_bound(e: int, x: int, s: int)
    requires
        -s < e < s,
    ensures
        -s * magnitude_of(x) <= e * x <= s * magnitude_of(x),
{
    assert(-s * magnitude_of(x) <= e * x <= s * magnitude_of(x)) by (nonlinear_arith)
        requires
            -s < e < s,
            magnitude_of(x) >= 0,
            x == magnitude_of(x) || x == -magnitude_of(x),
    ;
}

/// Where three numbers are perpendicular to a vector in exact arithmetic,
/// the vector of their quotients by one is perpendicular to it up to
/// rounding.
proof fn rounded_is_perpendicular(n0: int, n1: int, n2: int, x: Vec3)
    requires
        n0 * x.0.raw + n1 * x.1.raw + n2 * x.2.raw == 0,
    ensures
        magnitude_of(
            saturate(
                quotient(
                    quotient(n0, ONE_RAW as int) * x.0.raw + quotient(n1, ONE_RAW as int) * x.1.raw
                        + quotient(n2, ONE_RAW as int) * x.2.raw,
                    ONE_RAW as int,
                ),
            ),
        ) * ONE_RAW <= taxicab(x),
{
    let s = ONE_RAW as int;
    let (x0, x1, x2) = (x.0.raw as int, x.1.raw as int, x.2.raw as int);
    let (c0, c1, c2) = (quotient(n0, s), quotient(n1, s), quotient(n2, s));
    quotient_remainder(n0, s);
    quotient_remainder(n1, s);
    quotient_remainder(n2, s);
    let e0 = n0 - c0 * s;
    let e1 = n1 - c1 * s;
    let e2 = n2 - c2 * s;
    let t = c0 * x0 + c1 * x1 + c2 * x2;
    assert(e0 * x0 == n0 * x0 - (c0 * x0) * s) by (nonlinear_arith)
        requires
            e0 == n0 - c0 * s,
    ;
    assert(e1 * x1 == n1 * x1 - (c1 * x1) * s) by (nonlinear_arith)
        requires
            e1 == n1 - c1 * s,
    ;
    assert(e2 * x2 == n2 * x2 - (c2 * x2) * s) by (nonlinear_arith)
        requires
            e2 == n2 - c2 * s,
    ;
    assert(t * s == (c0 * x0) * s + (c1 * x1) * s + (c2 * x2) * s) by (nonlinear_arith)
        requires
            t == c0 * x0 + c1 * x1 + c2 * x2,
    ;
    assert(t * s == -(e0 * x0 + e1 * x1 + e2 * x2));
    product_bound(e0, x0, s);
    product_bound(e1, x1, s);
    product_bound(e2, x2, s);
    let total = taxicab(x);
    assert(magnitude_of(t) <= total) by (nonlinear_arith)
        requires
            -s * total <= t * s <= s * total,
            s > 0,
    ;
    quotient_magnitude(t, s);
    assert(magnitude_of(quotient(t, s)) <= magnitude_of(t)) by (nonlinear_arith)
        requires
            magnitude_of(quotient(t, s)) * s <= magnitude_of(t),
            magnitude_of(quotient(t, s)) >= 0,
            s >= 1,
    ;
    assert(fits(quotient(t, s)));
}

/// The cross product of two vectors is perpendicular to the first of them,
/// up to rounding: its dot product with that vector is no farther from zero
/// than one raw unit for each unit of the taxicab length of the vector. For
/// a vector shorter than one the dot product is zero.
pub proof fn cross_is_perpendicular_to_first(a: Vec3, b: Vec3)
    requires
        cross_fits(a, b),
    ensures
        magnitude_of(a.cross_spec(b).dot_spec(a).raw as int) * ONE_RAW <= taxicab(a),
{
    let n0 = a.1.raw * b.2.raw - a.2.raw * b.1.raw;
    let n1 = a.2.raw * b.0.raw - a.0.raw * b.2.raw;
    let n2 = a.0.raw * b.1.raw - a.1.raw * b.0.raw;
    assert(n0 * a.0.raw + n1 * a.1.raw + n2 * a.2.raw == 0) by (nonlinear_arith)
        requires
            n0 == a.1.raw * b.2.raw - a.2.raw * b.1.raw,
            n1 == a.2.raw * b.0.raw - a.0.raw * b.2.raw,
            n2 == a.0.raw * b.1.raw - a.1.raw * b.0.raw,
    ;
    rounded_is_perpendicular(n0, n1, n2, a);
}

/// The cross product of two vectors is perpendicular to the second of them,
/// up to rounding, as it is to the first.
pub proof fn cross_is_perpendicular_to_second(a: Vec3, b: Vec3)
    requires
        cross_fits(a, b),
    ensures
        magnitude_of(a.cross_spec(b).dot_spec(b).raw as int) * ONE_RAW <= taxicab(b),
{
    let n0 = a.1.raw * b.2.raw - a.2.raw * b.1.raw;
    let n1 = a.2.raw * b.0.raw - a.0.raw * b.2.raw;
    let n2 = a.0.raw * b.1.raw - a.1.raw * b.0.raw;
    assert(n0 * b.0.raw + n1 * b.1.raw + n2 * b.2.raw == 0) by (nonlinear_arith)
        requires
            n0 == a.1.raw * b.2.raw - a.2.raw * b.1.raw,
            n1 == a.2.raw * b.0.raw - a.0.raw * b.2.raw,
            n2 == a.0.raw * b.1.raw - a.1.raw * b.0.raw,
    ;
    rounded_is_perpendicular(n0, n1, n2, b);
}

/// No component of `v` is farther than `b` raw units from zero.
pub open spec fn bounded(v: Vec3, b: int) -> bool {
    &&& magnitude_of(v.0.raw as int) <= b
    &&& magnitude_of(v.1.raw as int) <= b
    &&& magnitude_of(v.2.raw as int) <= b
}

/// The squared magnitude of `n` is within `eta` raw units of one.
pub open spec fn nearly_unit(n: Vec3, eta: int) -> bool {
    magnitude_of(n.magnitude_squared_spec().raw - ONE_RAW) <= eta
}

/// The product of two bounded numbers is bounded by the product of the
/// bounds.
proof fn bounded_product(x: int, y: int, bx: int, by: int)
    requires
        magnitude_of(x) <= bx,
        magnitude_of(y) <= by,
    ensures
        magnitude_of(x * y) <= bx * by,
{
    assert(magnitude_of(x * y) <= bx * by) by (nonlinear_arith)
        requires
            -bx <= x <= bx,
            -by <= y <= by,
            magnitude_of(x * y) == x * y || magnitude_of(x * y) == -(x * y),
    ;
}

/// A quotient by one is bounded by `b` where the dividend is bounded by `b`
/// times one.
proof fn bounded_quotient(n: int, b: int)
    requires
        magnitude_of(n) <= b * ONE_RAW,
    ensures
        magnitude_of(quotient(n, ONE_RAW as int)) <= b,
{
    quotient_magnitude(n, ONE_RAW as int);
    assert(magnitude_of(quotient(n, ONE_RAW as int)) <= b) by (nonlinear_arith)
        requires
            magnitude_of(quotient(n, ONE_RAW as int)) * ONE_RAW <= magnitude_of(n),
            magnitude_of(n) <= b * ONE_RAW,
            ONE_RAW > 0,
    ;
}

/// A vector whose squared magnitude is within `eta` of one, for `eta` less
/// than one, has the exact squared length `S^2` up to `(eta + 1) S` in raw
/// units, and no component beyond one and a half.
proof fn nearly_unit_bounds(n: Vec3, eta: int)
    requires
        nearly_unit(n, eta),
        0 <= eta < ONE_RAW,
    ensures
        magnitude_of(
            n.0.raw * n.0.raw + n.1.raw * n.1.raw + n.2.raw * n.2.raw - ONE_RAW * ONE_RAW,
        ) <= (eta + 1) * ONE_RAW,
        bounded(n, 3 * (ONE_RAW / 2)),
{
    let s = ONE_RAW as int;
    let (n0, n1, n2) = (n.0.raw as int, n.1.raw as int, n.2.raw as int);
    let sq = n0 * n0 + n1 * n1 + n2 * n2;
    assert(n0 * n0 >= 0 && n1 * n1 >= 0 && n2 * n2 >= 0) by (nonlinear_arith);
    quotient_remainder(sq, s);
    let m = quotient(sq, s);
    vstd::arithmetic::div_mod::lemma_div_pos_is_pos(sq, s);
    assert(n.magnitude_squared_spec().raw == saturate(m));
    assert(m == saturate(m));
    assert(s * s - eta * s <= m * s <= s * s + eta * s) by (nonlinear_arith)
        requires
            s - eta <= m <= s + eta,
            s > 0,
    ;
    assert((eta + 1) * s == eta * s + s) by (nonlinear_arith);
    assert(sq <= 2 * s * s) by (nonlinear_arith)
        requires
            sq <= s * s + (eta + 1) * s,
            eta + 1 <= s,
            s > 0,
    ;
    let h = 3 * (s / 2);
    assert(h * h > 2 * s * s) by {
        assert(s == 0x1_0000_0000);
        assert(h == 0x1_8000_0000);
        assert(0x1_8000_0000int * 0x1_8000_0000 > 2 * 0x1_0000_0000 * 0x1_0000_0000int);
    }
    assert(magnitude_of(n0) <= h) by (nonlinear_arith)
        requires
            n0 * n0 <= sq,
            sq <= 2 * s * s,
            h * h > 2 * s * s,
            h > 0,
    ;
    assert(magnitude_of(n1) <= h) by (nonlinear_arith)
        requires
            n1 * n1 <= sq,
            sq <= 2 * s * s,
            h * h > 2 * s * s,
            h > 0,
    ;
    assert(magnitude_of(n2) <= h) by (nonlinear_arith)
        requires
            n2 * n2 <= sq,
            sq <= 2 * s * s,
            h * h > 2 * s * s,
            h > 0,
    ;
}

/// The form of a reflection where nothing saturates: with the dot product
/// `d` of `v` and `n`, each component of `v` loses the quotient of
/// `2 d n_i` by one.
proof fn reflect_form(v: Vec3, n: Vec3, b: int)
    requires
        bounded(v, b),
        bounded(n, 3 * (ONE_RAW / 2)),
        0 <= b <= 0x100_0000_0000_0000,
    ensures
        v.dot_spec(n).raw == quotient(
            v.0.raw * n.0.raw + v.1.raw * n.1.raw + v.2.raw * n.2.raw,
            ONE_RAW as int,
        ),
        magnitude_of(v.dot_spec(n).raw as int) <= 5 * b,
        v.reflect_spec(n).0.raw == v.0.raw - quotient(
            n.0.raw * (2 * v.dot_spec(n).raw),
            ONE_RAW as int,
        ),
        v.reflect_spec(n).1.raw == v.1.raw - quotient(
            n.1.raw * (2 * v.dot_spec(n).raw),
            ONE_RAW as int,
        ),
        v.reflect_spec(n).2.raw == v.2.raw - quotient(
            n.2.raw * (2 * v.dot_spec(n).raw),
            ONE_RAW as int,
        ),
        bounded(v.reflect_spec(n), 16 * b),
{
    let s = ONE_RAW as int;
    let h = 3 * (s / 2);
    let (v0, v1, v2) = (v.0.raw as int, v.1.raw as int, v.2.raw as int);
    let (n0, n1, n2) = (n.0.raw as int, n.1.raw as int, n.2.raw as int);
    bounded_product(v0, n0, b, h);
    bounded_product(v1, n1, b, h);
    bounded_product(v2, n2, b, h);
    let p = v0 * n0 + v1 * n1 + v2 * n2;
    assert(2 * (b * h) == 3 * (b * s)) by (nonlinear_arith)
        requires
            2 * h == 3 * s,
    ;
    assert((5 * b) * s == 5 * (b * s)) by (nonlinear_arith);
    assert(b * s >= 0) by (nonlinear_arith)
        requires
            b >= 0,
            s > 0,
    ;
    bounded_quotient(p, 5 * b);
    let d = quotient(p, s);
    assert(v.dot_spec(n).raw == d);
    let k = 2 * d;
    assert(quotient((2 * s) * d, s) == k) by {
        assert((2 * s) * d == k * s) by (nonlinear_arith)
            requires
                k == 2 * d,
        ;
        quotient_remainder(k * s, s);
        assert(quotient(k * s, s) == k) by (nonlinear_arith)
            requires
                -s < k * s - quotient(k * s, s) * s < s,
                s > 0,
        ;
    }
    assert(Scalar::of_int(2).mul_spec(v.dot_spec(n)).raw == k);
    bounded_product(n0, k, h, 10 * b);
    bounded_product(n1, k, h, 10 * b);
    bounded_product(n2, k, h, 10 * b);
    assert(h * (10 * b) == (15 * b) * s) by (nonlinear_arith)
        requires
            2 * h == 3 * s,
    ;
    bounded_quotient(n0 * k, 15 * b);
    bounded_quotient(n1 * k, 15 * b);
    bounded_quotient(n2 * k, 15 * b);
}

/// What reflecting twice changes, in exact terms. With the dot products `d`
/// and `e` of the two reflections and the quotients `m` and `w` that one
/// component loses in them, the two losses cancel up to rounding and up to
/// what `n` lacks of unit length.
proof fn double_reflection(
    p: int,
    q: int,
    d: int,
    e: int,
    m0: int,
    m1: int,
    m2: int,
    n: Vec3,
    eta: int,
)
    requires
        0 <= eta,
        d == quotient(p, ONE_RAW as int),
        e == quotient(q, ONE_RAW as int),
        m0 == quotient(n.0.raw * (2 * d), ONE_RAW as int),
        m1 == quotient(n.1.raw * (2 * d), ONE_RAW as int),
        m2 == quotient(n.2.raw * (2 * d), ONE_RAW as int),
        q == p - (m0 * n.0.raw + m1 * n.1.raw + m2 * n.2.raw),
        magnitude_of(
            n.0.raw * n.0.raw + n.1.raw * n.1.raw + n.2.raw * n.2.raw - ONE_RAW * ONE_RAW,
        ) <= (eta + 1) * ONE_RAW,
    ensures
        magnitude_of(d + e) * ONE_RAW <= 2 * ONE_RAW + 2 * magnitude_of(d) * (eta + 1) + taxicab(n),
{
    let s = ONE_RAW as int;
    let (n0, n1, n2) = (n.0.raw as int, n.1.raw as int, n.2.raw as int);
    let k = 2 * d;
    quotient_remainder(p, s);
    quotient_remainder(q, s);
    quotient_remainder(n0 * k, s);
    quotient_remainder(n1 * k, s);
    quotient_remainder(n2 * k, s);
    let rp = p - d * s;
    let rq = q - e * s;
    let e0 = n0 * k - m0 * s;
    let e1 = n1 * k - m1 * s;
    let e2 = n2 * k - m2 * s;
    let sq = n0 * n0 + n1 * n1 + n2 * n2;
    let delta = sq - s * s;
    // s * (m . n) = k * sq - (e . n)
    assert((m0 * n0) * s == (n0 * n0) * k - e0 * n0) by (nonlinear_arith)
        requires
            e0 == n0 * k - m0 * s,
    ;
    assert((m1 * n1) * s == (n1 * n1) * k - e1 * n1) by (nonlinear_arith)
        requires
            e1 == n1 * k - m1 * s,
    ;
    assert((m2 * n2) * s == (n2 * n2) * k - e2 * n2) by (nonlinear_arith)
        requires
            e2 == n2 * k - m2 * s,
    ;
    let mn = m0 * n0 + m1 * n1 + m2 * n2;
    let en = e0 * n0 + e1 * n1 + e2 * n2;
    assert(mn * s == (m0 * n0) * s + (m1 * n1) * s + (m2 * n2) * s) by (nonlinear_arith)
        requires
            mn == m0 * n0 + m1 * n1 + m2 * n2,
    ;
    assert(sq * k == (n0 * n0) * k + (n1 * n1) * k + (n2 * n2) * k) by (nonlinear_arith)
        requires
            sq == n0 * n0 + n1 * n1 + n2 * n2,
    ;
    assert(mn * s == sq * k - en);
    // s * (q + s * d) = s * rp - k * delta + (e . n)
    assert(sq * k == (s * s) * k + delta * k) by (nonlinear_arith)
        requires
            delta == sq - s * s,
    ;
    assert((s * s) * k == 2 * ((d * s) * s)) by (nonlinear_arith)
        requires
            k == 2 * d,
    ;
    assert(q * s == p * s - mn * s) by (nonlinear_arith)
        requires
            q == p - mn,
    ;
    assert(p * s == (d * s) * s + rp * s) by (nonlinear_arith)
        requires
            rp == p - d * s,
    ;
    let lhs = q + d * s;
    assert(lhs * s == q * s + (d * s) * s) by (nonlinear_arith)
        requires
            lhs == q + d * s,
    ;
    assert(lhs * s == rp * s - delta * k + en);
    // bounds
    product_bound(e0, n0, s);
    product_bound(e1, n1, s);
    product_bound(e2, n2, s);
    let t = taxicab(n);
    assert(-s * t <= en <= s * t) by (nonlinear_arith)
        requires
            en == e0 * n0 + e1 * n1 + e2 * n2,
            -s * magnitude_of(n0) <= e0 * n0 <= s * magnitude_of(n0),
            -s * magnitude_of(n1) <= e1 * n1 <= s * magnitude_of(n1),
            -s * magnitude_of(n2) <= e2 * n2 <= s * magnitude_of(n2),
            t == magnitude_of(n0) + magnitude_of(n1) + magnitude_of(n2),
    ;
    bounded_product(delta, k, (eta + 1) * s, 2 * magnitude_of(d));
    let g = 2 * magnitude_of(d) * (eta + 1);
    assert(((eta + 1) * s) * (2 * magnitude_of(d)) == g * s) by (nonlinear_arith)
        requires
            g == 2 * magnitude_of(d) * (eta + 1),
    ;
    assert(-s * s < rp * s < s * s) by (nonlinear_arith)
        requires
            -s < rp < s,
            s > 0,
    ;
    let bound = s + g + t;
    assert(-(bound * s) <= lhs * s <= bound * s) by (nonlinear_arith)
        requires
            lhs * s == rp * s - delta * k + en,
            -s * s < rp * s < s * s,
            magnitude_of(delta * k) <= g * s,
            -s * t <= en <= s * t,
            bound == s + g + t,
    ;
    assert(-bound <= lhs <= bound) by (nonlinear_arith)
        requires
            -(bound * s) <= lhs * s <= bound * s,
            s > 0,
    ;
    // (d + e) * s = lhs - rq
    assert((d + e) * s == d * s + e * s) by (nonlinear_arith);
    assert((d + e) * s == lhs - rq);
    assert(magnitude_of(d + e) * s == magnitude_of((d + e) * s)) by (nonlinear_arith)
        requires
            s > 0,
    ;
}

/// A vector whose squared magnitude is within `eta` of one, for `eta` below
/// one eighth, has no component beyond one and a sixteenth.
proof fn nearly_unit_is_short(n: Vec3, eta: int)
    requires
        nearly_unit(n, eta),
        0 <= eta,
        8 * (eta + 1) <= ONE_RAW,
    ensures
        bounded(n, 17 * (ONE_RAW / 16)),
{
    let s = ONE_RAW as int;
    let (n0, n1, n2) = (n.0.raw as int, n.1.raw as int, n.2.raw as int);
    nearly_unit_bounds(n, eta);
    let sq = n0 * n0 + n1 * n1 + n2 * n2;
    assert(n0 * n0 >= 0 && n1 * n1 >= 0 && n2 * n2 >= 0) by (nonlinear_arith);
    assert(8 * sq <= 9 * (s * s)) by (nonlinear_arith)
        requires
            sq <= s * s + (eta + 1) * s,
            8 * (eta + 1) <= s,
            s > 0,
    ;
    let h = 17 * (s / 16);
    assert(8 * (h * h) > 9 * (s * s)) by {
        assert(s == 0x1_0000_0000);
        assert(h == 0x1_1000_0000);
        assert(8 * (0x1_1000_0000int * 0x1_1000_0000) > 9 * (0x1_0000_0000int * 0x1_0000_0000));
    }
    assert(magnitude_of(n0) <= h) by (nonlinear_arith)
        requires
            8 * (n0 * n0) <= 8 * sq,
            8 * sq <= 9 * (s * s),
            8 * (h * h) > 9 * (s * s),
            h > 0,
    ;
    assert(magnitude_of(n1) <= h) by (nonlinear_arith)
        requires
            8 * (n1 * n1) <= 8 * sq,
            8 * sq <= 9 * (s * s),
            8 * (h * h) > 9 * (s * s),
            h > 0,
    ;
    assert(magnitude_of(n2) <= h) by (nonlinear_arith)
        requires
            8 * (n2 * n2) <= 8 * sq,
            8 * sq <= 9 * (s * s),
            8 * (h * h) > 9 * (s * s),
            h > 0,
    ;
}

/// Reflecting a vector twice about one normal gives the vector back, up to
/// rounding and up to what the normal lacks of unit length. Where the
/// squared magnitude of the normal is within `eta` raw units of one, each
/// component comes back within 14 raw units, and `17/4 (eta + 1)` more for
/// each unit of the dot product of the vector and the normal. For a normal
/// whose length is within 10^-6 of one that is less than 10^-5 for each unit
/// of the dot product.
pub proof fn reflect_is_an_involution(v: Vec3, n: Vec3, eta: int)
    requires
        nearly_unit(n, eta),
        0 <= eta,
        8 * (eta + 1) <= ONE_RAW,
        bounded(v, 0x4_0000_0000_0000),
    ensures
        4 * magnitude_of(v.reflect_spec(n).reflect_spec(n).0.raw - v.0.raw) * ONE_RAW <= 56
            * ONE_RAW + 17 * magnitude_of(v.dot_spec(n).raw as int) * (eta + 1),
        4 * magnitude_of(v.reflect_spec(n).reflect_spec(n).1.raw - v.1.raw) * ONE_RAW <= 56
            * ONE_RAW + 17 * magnitude_of(v.dot_spec(n).raw as int) * (eta + 1),
        4 * magnitude_of(v.reflect_spec(n).reflect_spec(n).2.raw - v.2.raw) * ONE_RAW <= 56
            * ONE_RAW + 17 * magnitude_of(v.dot_spec(n).raw as int) * (eta + 1),
{
    let s = ONE_RAW as int;
    let h = 17 * (s / 16);
    let b = 0x4_0000_0000_0000int;
    nearly_unit_bounds(n, eta);
    nearly_unit_is_short(n, eta);
    reflect_form(v, n, b);
    let r = v.reflect_spec(n);
    reflect_form(r, n, 16 * b);
    let (n0, n1, n2) = (n.0.raw as int, n.1.raw as int, n.2.raw as int);
    let d = v.dot_spec(n).raw as int;
    let e = r.dot_spec(n).raw as int;
    let p = v.0.raw * n0 + v.1.raw * n1 + v.2.raw * n2;
    let q = r.0.raw * n0 + r.1.raw * n1 + r.2.raw * n2;
    let m0 = quotient(n0 * (2 * d), s);
    let m1 = quotient(n1 * (2 * d), s);
    let m2 = quotient(n2 * (2 * d), s);
    assert(q == p - (m0 * n0 + m1 * n1 + m2 * n2)) by (nonlinear_arith)
        requires
            p == v.0.raw * n0 + v.1.raw * n1 + v.2.raw * n2,
            q == r.0.raw * n0 + r.1.raw * n1 + r.2.raw * n2,
            r.0.raw == v.0.raw - m0,
            r.1.raw == v.1.raw - m1,
            r.2.raw == v.2.raw - m2,
    ;
    double_reflection(p, q, d, e, m0, m1, m2, n, eta);
    assert(taxicab(n) <= 3 * h);
    component_returns(n0, d, e, eta);
    component_returns(n1, d, e, eta);
    component_returns(n2, d, e, eta);
}

/// One component of a double reflection: the two quotients that it loses
/// cancel as far as the two dot products do.
proof fn component_returns(ni: int, d: int, e: int, eta: int)
    requires
        0 <= eta,
        magnitude_of(ni) <= 17 * (ONE_RAW / 16),
        magnitude_of(d + e) * ONE_RAW <= 2 * ONE_RAW + 2 * magnitude_of(d) * (eta + 1) + 51 * (
        ONE_RAW / 16),
    ensures
        4 * magnitude_of(
            quotient(ni * (2 * d), ONE_RAW as int) + quotient(ni * (2 * e), ONE_RAW as int),
        ) * ONE_RAW <= 56 * ONE_RAW + 17 * magnitude_of(d) * (eta + 1),
{
    let s = ONE_RAW as int;
    let h = 17 * (s / 16);
    let m = quotient(ni * (2 * d), s);
    let w = quotient(ni * (2 * e), s);
    quotient_remainder(ni * (2 * d), s);
    quotient_remainder(ni * (2 * e), s);
    let em = ni * (2 * d) - m * s;
    let ew = ni * (2 * e) - w * s;
    let x = d + e;
    assert((m + w) * s == ni * (2 * x) - em - ew) by (nonlinear_arith)
        requires
            em == ni * (2 * d) - m * s,
            ew == ni * (2 * e) - w * s,
            x == d + e,
    ;
    bounded_product(ni, 2 * x, h, 2 * magnitude_of(x));
    let g = magnitude_of(d) * (eta + 1);
    let xs = magnitude_of(x) * s;
    assert(2 * magnitude_of(d) * (eta + 1) == 2 * g) by (nonlinear_arith)
        requires
            g == magnitude_of(d) * (eta + 1),
    ;
    // 16 h = 17 s
    assert(16 * (h * (2 * magnitude_of(x))) == 34 * xs) by (nonlinear_arith)
        requires
            16 * h == 17 * s,
            xs == magnitude_of(x) * s,
    ;
    let mw = magnitude_of(m + w) * s;
    assert(mw == magnitude_of((m + w) * s)) by (nonlinear_arith)
        requires
            mw == magnitude_of(m + w) * s,
            s > 0,
    ;
    assert(mw <= h * (2 * magnitude_of(x)) + 2 * s);
    assert(16 * mw <= 34 * xs + 32 * s);
    assert(xs <= 2 * s + 2 * g + 3 * h);
    assert(16 * (3 * h) == 51 * s);
    assert(256 * mw <= 34 * (32 * s + 32 * g + 51 * s) + 512 * s);
    assert(4 * magnitude_of(m + w) * s == 4 * mw) by (nonlinear_arith)
        requires
            mw == magnitude_of(m + w) * s,
    ;
    assert(17 * magnitude_of(d) * (eta + 1) == 17 * g) by (nonlinear_arith)
        requires
            g == magnitude_of(d) * (eta + 1),
    ;
}

/// One component of a normalized vector: the quotient `y` of `w` times one
/// by a length `m` that `w` does not exceed. The square of `y m` lies
/// between `(w S)^2 - 2 S m^2` and `(w S)^2`.
proof fn normalized_component(w: int, m: int)
    requires
        m >= 1,
        magnitude_of(w) <= m,
    ensures
        (m * m) * (quotient(w * ONE_RAW, m) * quotient(w * ONE_RAW, m)) <= (ONE_RAW * ONE_RAW) * (w
            * w),
        (m * m) * (quotient(w * ONE_RAW, m) * quotient(w * ONE_RAW, m)) >= (ONE_RAW * ONE_RAW) * (w
            * w) - 2 * ONE_RAW * (m * m),
{
    let s = ONE_RAW as int;
    let y = quotient(w * s, m);
    quotient_remainder(w * s, m);
    let ws = w * s;
    let ym = y * m;
    let rho = ws - ym;
    let aw = magnitude_of(w);
    assert(magnitude_of(ws) == aw * s) by (nonlinear_arith)
        requires
            ws == w * s,
            s > 0,
            aw == w || aw == -w,
            aw >= 0,
            magnitude_of(ws) == ws || magnitude_of(ws) == -ws,
            magnitude_of(ws) >= 0,
    ;
    assert(ym * ym == ws * ws - 2 * (ws * rho) + rho * rho) by (nonlinear_arith)
        requires
            rho == ws - ym,
    ;
    assert(ym * ym == (m * m) * (y * y)) by (nonlinear_arith)
        requires
            ym == y * m,
    ;
    assert(ws * ws == (s * s) * (w * w)) by (nonlinear_arith)
        requires
            ws == w * s,
    ;
    assert(0 <= ws * rho <= (aw * s) * m) by (nonlinear_arith)
        requires
            ws >= 0 ==> 0 <= rho < m,
            ws < 0 ==> -m < rho <= 0,
            magnitude_of(ws) == aw * s,
            m >= 1,
    ;
    quotient_magnitude(ws, m);
    let ay = magnitude_of(y);
    assert(ym * ym <= ws * ws) by (nonlinear_arith)
        requires
            ay * m <= aw * s,
            ym == y * m,
            ay == y || ay == -y,
            ay >= 0,
            m >= 1,
            ws == aw * s || ws == -(aw * s),
    ;
    assert((2 * s) * (m * m) == 2 * (s * (m * m))) by (nonlinear_arith);
    assert((aw * s) * m <= s * (m * m)) by (nonlinear_arith)
        requires
            0 <= aw <= m,
            s > 0,
            m >= 1,
    ;
    assert(rho * rho >= 0) by (nonlinear_arith);
}

/// A normalized vector has unit length up to rounding: the length of every
/// vector that has a length, normalized, is no more than four raw units
/// below one and no more than two above it.
pub proof fn normalized_has_unit_magnitude(v: Vec3)
    requires
        v.magnitude_spec().raw != 0,
    ensures
        ONE_RAW - 4 <= v.normalize_spec().magnitude_spec().raw <= ONE_RAW + 2,
{
    let s = ONE_RAW as int;
    let k = v.stretch_spec();
    v.normalize_is_bounded();
    let m = v.stretched_length();
    let (w0, w1, w2) = (v.0.raw * k, v.1.raw * k, v.2.raw * k);
    let qw = k * k * v.sum_of_squares();
    assert(w0 * w0 == k * k * (v.0.raw * v.0.raw)) by (nonlinear_arith)
        requires
            w0 == v.0.raw * k,
    ;
    assert(w1 * w1 == k * k * (v.1.raw * v.1.raw)) by (nonlinear_arith)
        requires
            w1 == v.1.raw * k,
    ;
    assert(w2 * w2 == k * k * (v.2.raw * v.2.raw)) by (nonlinear_arith)
        requires
            w2 == v.2.raw * k,
    ;
    assert(qw == w0 * w0 + w1 * w1 + w2 * w2) by (nonlinear_arith)
        requires
            qw == k * k * (v.0.raw * v.0.raw + v.1.raw * v.1.raw + v.2.raw * v.2.raw),
            w0 * w0 == k * k * (v.0.raw * v.0.raw),
            w1 * w1 == k * k * (v.1.raw * v.1.raw),
            w2 * w2 == k * k * (v.2.raw * v.2.raw),
    ;
    let y = v.normalize_spec();
    let (y0, y1, y2) = (quotient(w0 * s, m), quotient(w1 * s, m), quotient(w2 * s, m));
    assert(y.0.raw == y0 && y.1.raw == y1 && y.2.raw == y2);
    normalized_component(w0, m);
    normalized_component(w1, m);
    normalized_component(w2, m);
    let p = y.sum_of_squares();
    let mm = m * m;
    let ss = s * s;
    assert(mm >= 1) by (nonlinear_arith)
        requires
            mm == m * m,
            m >= 1,
    ;
    assert(mm * p == mm * (y0 * y0) + mm * (y1 * y1) + mm * (y2 * y2)) by (nonlinear_arith)
        requires
            p == y0 * y0 + y1 * y1 + y2 * y2,
    ;
    assert(ss * qw == ss * (w0 * w0) + ss * (w1 * w1) + ss * (w2 * w2)) by (nonlinear_arith)
        requires
            qw == w0 * w0 + w1 * w1 + w2 * w2,
    ;
    assert(mm * p <= ss * qw);
    assert(6 * s * mm == 3 * (2 * s * mm)) by (nonlinear_arith);
    assert(mm * p >= ss * qw - 6 * s * mm);
    // from below
    assert(ss * qw >= ss * mm) by (nonlinear_arith)
        requires
            qw >= mm,
            ss >= 0,
    ;
    assert(p >= ss - 6 * s) by (nonlinear_arith)
        requires
            mm * p >= ss * mm - 6 * s * mm,
            mm >= 1,
    ;
    // from above
    let m1 = m + 1;
    assert(ss * qw < ss * (m1 * m1)) by (nonlinear_arith)
        requires
            qw < m1 * m1,
            ss > 0,
    ;
    assert(y0 * y0 >= 0 && y1 * y1 >= 0 && y2 * y2 >= 0) by (nonlinear_arith);
    root_exists(p);
    let r = root(p);
    assert(r <= s + 2) by {
        if r >= s + 3 {
            let a = m * (s + 3);
            let b = s * m1;
            assert(a >= b && b >= 0) by (nonlinear_arith)
                requires
                    a == m * (s + 3),
                    b == s * m1,
                    m1 == m + 1,
                    3 * m >= s,
                    s > 0,
                    m >= 1,
            ;
            assert(a * a >= b * b) by (nonlinear_arith)
                requires
                    a >= b,
                    b >= 0,
            ;
            assert(a * a == mm * ((s + 3) * (s + 3))) by (nonlinear_arith)
                requires
                    a == m * (s + 3),
                    mm == m * m,
            ;
            assert(b * b == ss * (m1 * m1)) by (nonlinear_arith)
                requires
                    b == s * m1,
                    ss == s * s,
            ;
            assert((s + 3) * (s + 3) <= p) by (nonlinear_arith)
                requires
                    r >= s + 3,
                    r * r <= p,
                    s > 0,
            ;
            assert(mm * ((s + 3) * (s + 3)) <= mm * p) by (nonlinear_arith)
                requires
                    (s + 3) * (s + 3) <= p,
                    mm >= 0,
            ;
        }
    }
    assert(r >= s - 4) by (nonlinear_arith)
        requires
            (r + 1) * (r + 1) > p,
            p >= ss - 6 * s,
            ss == s * s,
            r >= 0,
            s > 100,
    ;
}

} // verus!
