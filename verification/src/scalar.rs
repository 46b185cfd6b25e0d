//! Fixed-point real numbers.
//!
//! Every quantity of the renderer (coordinates, distances, colour channels) is a
//! [`Scalar`]: a signed 64-bit integer that counts units of 2^-32. Arithmetic is
//! exact on the integers underneath, rounds toward zero where a result has more
//! than 32 fractional bits, and saturates at the ends of the range instead of
//! wrapping, so no operation can fail. A scalar tells values apart that differ
//! by a quarter of a billionth, and reaches a little beyond two billion to
//! either side. Where a formula would lose what matters to rounding or to
//! saturation between its steps, it works on the raw integers in full and
//! rounds once at its end: the length of a vector, its normalization, and
//! the roots of the quadratic of a sphere are computed so.
use vstd::prelude::*;
use crate::text::{push_scalar, scalar_text};

verus! {

/// Raw units in the value one.
pub const ONE_RAW: i64 = 0x1_0000_0000;

/// Raw units of the largest scalar, which also stands for "unbounded".
pub const MAX_RAW: i64 = 0x7fff_ffff_ffff_ffff;

/// Raw units of the smallest scalar, the negation of the largest.
pub const MIN_RAW: i64 = -0x7fff_ffff_ffff_ffff;

/// A real number in units of 2^-32.
#[derive(Clone, Copy, PartialEq, Eq, Structural, Debug)]
pub struct Scalar {
    pub raw: i64,
}

/// The integer nearest to `x` within the raw range of a scalar.
pub open spec fn saturate(x: int) -> int {
    if x > MAX_RAW {
        MAX_RAW as int
    } else if x < MIN_RAW {
        MIN_RAW as int
    } else {
        x
    }
}

/// The quotient `n / d` rounded toward zero; zero where `d` is zero.
pub open spec fn quotient(n: int, d: int) -> int {
    if d == 0 {
        0
    } else if n >= 0 && d > 0 {
        n / d
    } else if n < 0 && d > 0 {
        -((-n) / d)
    } else if n >= 0 {
        -(n / (-d))
    } else {
        (-n) / (-d)
    }
}

/// The distance of an integer from zero.
pub open spec fn magnitude_of(x: int) -> int {
    if x < 0 {
        -x
    } else {
        x
    }
}

/// `x` lies in the range of a scalar, so that `saturate` leaves it as it is.
pub open spec fn fits(x: int) -> bool {
    MIN_RAW <= x <= MAX_RAW
}

/// `r` is the integer square root of `n`: the largest integer whose square
/// does not exceed `n`.
pub open spec fn is_root(n: int, r: int) -> bool {
    0 <= r && r * r <= n && n < (r + 1) * (r + 1)
}

/// The integer square root of `n`, for `n >= 0`.
pub open spec fn root(n: int) -> int {
    choose|r: int| is_root(n, r)
}

/// No number has two integer square roots.
pub proof fn root_unique(n: int, r1: int, r2: int)
    requires
        is_root(n, r1),
        is_root(n, r2),
    ensures
        r1 == r2,
{
    if r1 < r2 {
        assert((r1 + 1) * (r1 + 1) <= r2 * r2) by (nonlinear_arith)
            requires
                0 <= r1 + 1 <= r2,
        ;
    } else if r2 < r1 {
        assert((r2 + 1) * (r2 + 1) <= r1 * r1) by (nonlinear_arith)
            requires
                0 <= r2 + 1 <= r1,
        ;
    }
}

/// `root(n)` is `r`, for any `r` that is an integer square root of `n`.
pub proof fn root_is(n: int, r: int)
    requires
        is_root(n, r),
    ensures
        root(n) == r,
{
    root_unique(n, r, root(n));
}

/// Every number that is not negative has an integer square root.
pub proof fn root_exists(n: int)
    requires
        0 <= n,
    ensures
        is_root(n, root(n)),
    decreases n,
{
    if n == 0 {
        assert(is_root(0, 0));
    } else {
        root_exists(n / 4);
        let h = root(n / 4);
        assert(4 * (h * h) <= n && n < 4 * ((h + 1) * (h + 1))) by (nonlinear_arith)
            requires
                h * h <= n / 4,
                n / 4 < (h + 1) * (h + 1),
                0 <= n,
        ;
        if (2 * h + 1) * (2 * h + 1) <= n {
            assert(is_root(n, 2 * h + 1)) by (nonlinear_arith)
                requires
                    0 <= h,
                    (2 * h + 1) * (2 * h + 1) <= n,
                    n < 4 * ((h + 1) * (h + 1)),
            ;
        } else {
            assert(is_root(n, 2 * h)) by (nonlinear_arith)
                requires
                    0 <= h,
                    4 * (h * h) <= n,
                    n < (2 * h + 1) * (2 * h + 1),
            ;
        }
    }
}

/// The integer square root grows with its argument.
pub proof fn root_monotone(m: int, rm: int, n: int, rn: int)
    requires
        is_root(m, rm),
        is_root(n, rn),
        m <= n,
    ensures
        rm <= rn,
{
    if rn < rm {
        assert((rn + 1) * (rn + 1) <= rm * rm) by (nonlinear_arith)
            requires
                0 <= rn + 1 <= rm,
        ;
    }
}

/// Rounding toward zero keeps the order of the dividends, for a positive
/// divisor.
pub proof fn quotient_monotone(n1: int, n2: int, d: int)
    requires
        n1 <= n2,
        0 < d,
    ensures
        quotient(n1, d) <= quotient(n2, d),
{
    if n1 >= 0 {
        vstd::arithmetic::div_mod::lemma_div_is_ordered(n1, n2, d);
    } else if n2 >= 0 {
        vstd::arithmetic::div_mod::lemma_div_pos_is_pos(-n1, d);
        vstd::arithmetic::div_mod::lemma_div_pos_is_pos(n2, d);
    } else {
        vstd::arithmetic::div_mod::lemma_div_is_ordered(-n2, -n1, d);
    }
}

/// The quotient of a dividend that is not negative by a positive divisor is
/// not negative.
pub proof fn quotient_nonnegative(n: int, d: int)
    requires
        0 <= n,
        0 < d,
    ensures
        0 <= quotient(n, d),
{
    vstd::arithmetic::div_mod::lemma_div_pos_is_pos(n, d);
}

/// Rounding toward zero moves a dividend by less than the divisor, and
/// toward zero.
pub proof fn quotient_remainder(n: int, d: int)
    requires
        d > 0,
    ensures
        n >= 0 ==> 0 <= n - quotient(n, d) * d < d,
        n < 0 ==> -d < n - quotient(n, d) * d <= 0,
{
    if n >= 0 {
        vstd::arithmetic::div_mod::lemma_fundamental_div_mod(n, d);
        vstd::arithmetic::div_mod::lemma_mod_bound(n, d);
        assert(d * (n / d) == (n / d) * d) by (nonlinear_arith);
    } else {
        vstd::arithmetic::div_mod::lemma_fundamental_div_mod(-n, d);
        vstd::arithmetic::div_mod::lemma_mod_bound(-n, d);
        assert(d * ((-n) / d) == ((-n) / d) * d) by (nonlinear_arith);
        assert((-((-n) / d)) * d == -(((-n) / d) * d)) by (nonlinear_arith);
    }
}

/// A quotient is no farther from zero than its dividend is in units of the
/// divisor: `|quotient(n, d)| * d <= |n|`.
pub proof fn quotient_magnitude(n: int, d: int)
    requires
        d > 0,
    ensures
        magnitude_of(quotient(n, d)) * d <= magnitude_of(n),
{
    quotient_remainder(n, d);
    if n >= 0 {
        vstd::arithmetic::div_mod::lemma_div_pos_is_pos(n, d);
    } else {
        vstd::arithmetic::div_mod::lemma_div_pos_is_pos(-n, d);
        assert((-quotient(n, d)) * d == -(quotient(n, d) * d)) by (nonlinear_arith);
    }
}

impl Scalar {
    /// A square is not negative.
    pub proof fn square_nonnegative(self)
        ensures
            self.mul_spec(self).raw >= 0,
    {
        assert(self.raw * self.raw >= 0) by (nonlinear_arith);
        quotient_nonnegative(self.raw * self.raw, ONE_RAW as int);
    }

    /// A square root is not negative and stays below 2^16; the square root
    /// of a positive scalar is the integer square root of its raw value times
    /// one.
    pub proof fn sqrt_bounds(self)
        ensures
            0 <= self.sqrt_spec().raw < 0x1_0000_0000_0000,
            self.raw > 0 ==> is_root(self.raw * ONE_RAW, self.sqrt_spec().raw as int),
    {
        if self.raw > 0 {
            let n = self.raw * ONE_RAW;
            assert(0 <= n < 0x1_0000_0000_0000 * 0x1_0000_0000_0000) by (nonlinear_arith)
                requires
                    n == self.raw * ONE_RAW,
                    0 < self.raw <= 0x7fff_ffff_ffff_ffff,
                    ONE_RAW == 0x1_0000_0000,
            ;
            root_exists(n);
            let r = root(n);
            assert(r < 0x1_0000_0000_0000) by (nonlinear_arith)
                requires
                    0 <= r,
                    r * r <= n,
                    n < 0x1_0000_0000_0000 * 0x1_0000_0000_0000,
            ;
        }
    }

    /// Division by a positive scalar keeps the order of the dividends.
    pub proof fn div_monotone(self, other: Scalar, d: Scalar)
        requires
            self.raw <= other.raw,
            d.raw > 0,
        ensures
            self.div_spec(d).raw <= other.div_spec(d).raw,
    {
        assert(self.raw * ONE_RAW <= other.raw * ONE_RAW) by (nonlinear_arith)
            requires
                self.raw <= other.raw,
                ONE_RAW > 0,
        ;
        quotient_monotone(self.raw * ONE_RAW, other.raw * ONE_RAW, d.raw as int);
    }

    pub open spec fn add_spec(self, o: Scalar) -> Scalar {
        Scalar { raw: saturate(self.raw + o.raw) as i64 }
    }

    pub open spec fn sub_spec(self, o: Scalar) -> Scalar {
        Scalar { raw: saturate(self.raw - o.raw) as i64 }
    }

    pub open spec fn neg_spec(self) -> Scalar {
        Scalar { raw: saturate(-self.raw) as i64 }
    }

    /// The product, rounded toward zero to 32 fractional bits.
    pub open spec fn mul_spec(self, o: Scalar) -> Scalar {
        Scalar { raw: saturate(quotient(self.raw * o.raw, ONE_RAW as int)) as i64 }
    }

    /// The sum of three products, rounded toward zero once, after the sum.
    pub open spec fn sum_of_products_spec(
        a0: Scalar,
        b0: Scalar,
        a1: Scalar,
        b1: Scalar,
        a2: Scalar,
        b2: Scalar,
    ) -> Scalar {
        Scalar {
            raw: saturate(
                quotient(a0.raw * b0.raw + a1.raw * b1.raw + a2.raw * b2.raw, ONE_RAW as int),
            ) as i64,
        }
    }

    /// The difference of two products, `a b - c d`, rounded toward zero
    /// once, after the subtraction.
    pub open spec fn difference_of_products_spec(a: Scalar, b: Scalar, c: Scalar, d: Scalar) -> Scalar {
        Scalar { raw: saturate(quotient(a.raw * b.raw - c.raw * d.raw, ONE_RAW as int)) as i64 }
    }

    /// The quotient, rounded toward zero to 32 fractional bits. Dividing by
    /// zero saturates toward the sign of the dividend, and zero by zero is zero.
    pub open spec fn div_spec(self, o: Scalar) -> Scalar {
        if o.raw == 0 {
            if self.raw > 0 {
                Scalar { raw: MAX_RAW }
            } else if self.raw < 0 {
                Scalar { raw: MIN_RAW }
            } else {
                Scalar { raw: 0 }
            }
        } else {
            Scalar { raw: saturate(quotient(self.raw * ONE_RAW, o.raw as int)) as i64 }
        }
    }

    /// The square root, rounded down to 32 fractional bits; zero for a scalar
    /// that is not positive.
    pub open spec fn sqrt_spec(self) -> Scalar {
        if self.raw <= 0 {
            Scalar { raw: 0 }
        } else {
            Scalar { raw: root(self.raw * ONE_RAW) as i64 }
        }
    }

    pub open spec fn abs_spec(self) -> Scalar {
        if self.raw < 0 {
            self.neg_spec()
        } else {
            self
        }
    }

    pub open spec fn min_spec(self, o: Scalar) -> Scalar {
        if o.raw < self.raw {
            o
        } else {
            self
        }
    }

    pub open spec fn max_spec(self, o: Scalar) -> Scalar {
        if o.raw > self.raw {
            o
        } else {
            self
        }
    }

    /// The scalar that stands for the integer `n`, saturated.
    pub open spec fn of_int(n: int) -> Scalar {
        Scalar { raw: saturate(n * ONE_RAW) as i64 }
    }

    /// The quotient of the integers `num` and `den`, rounded toward zero to
    /// 32 fractional bits.
    pub open spec fn of_ratio(num: int, den: int) -> Scalar {
        Scalar::of_int(num).div_spec(Scalar::of_int(den))
    }

    /// The integer part, rounded toward zero.
    pub open spec fn trunc_spec(self) -> int {
        quotient(self.raw as int, ONE_RAW as int)
    }

    pub fn zero() -> (r: Scalar)
        ensures
            r.raw == 0,
    {
        Scalar { raw: 0 }
    }

    pub fn one() -> (r: Scalar)
        ensures
            r.raw == ONE_RAW,
    {
        Scalar { raw: ONE_RAW }
    }

    /// The largest scalar; intervals use it for an absent upper bound.
    pub fn max_value() -> (r: Scalar)
        ensures
            r.raw == MAX_RAW,
    {
        Scalar { raw: MAX_RAW }
    }

    pub fn from_int(n: i32) -> (r: Scalar)
        ensures
            r == Scalar::of_int(n as int),
            n > -0x8000_0000 ==> r.raw == n * ONE_RAW,
    {
        assert(-0x8000_0000 * 0x1_0000_0000 <= n * 0x1_0000_0000 <= 0x7fff_ffff * 0x1_0000_0000)
            by (nonlinear_arith)
            requires
                -0x8000_0000 <= n <= 0x7fff_ffff,
        ;
        Scalar { raw: clamp_raw((n as i128) * (ONE_RAW as i128)) }
    }

    pub fn from_usize(n: usize) -> (r: Scalar)
        ensures
            r == Scalar::of_int(n as int),
    {
        if n > 0x7fff_ffff {
            assert(n * 0x1_0000_0000 > 0x7fff_ffff_ffff_ffff) by (nonlinear_arith)
                requires
                    n >= 0x8000_0000,
            ;
            Scalar { raw: MAX_RAW }
        } else {
            assert(0 <= n * 0x1_0000_0000 <= 0x7fff_ffff * 0x1_0000_0000) by (nonlinear_arith)
                requires
                    0 <= n <= 0x7fff_ffff,
            ;
            Scalar { raw: (n as i64) * ONE_RAW }
        }
    }

    pub fn from_ratio(num: i32, den: i32) -> (r: Scalar)
        ensures
            r == Scalar::of_ratio(num as int, den as int),
    {
        Scalar::from_int(num).div(Scalar::from_int(den))
    }

    pub fn add(self, o: Scalar) -> (r: Scalar)
        ensures
            r == self.add_spec(o),
    {
        Scalar { raw: clamp_raw(self.raw as i128 + o.raw as i128) }
    }

    pub fn sub(self, o: Scalar) -> (r: Scalar)
        ensures
            r == self.sub_spec(o),
    {
        Scalar { raw: clamp_raw(self.raw as i128 - o.raw as i128) }
    }

    pub fn neg(self) -> (r: Scalar)
        ensures
            r == self.neg_spec(),
    {
        Scalar { raw: clamp_raw(-(self.raw as i128)) }
    }

    pub fn mul(self, o: Scalar) -> (r: Scalar)
        ensures
            r == self.mul_spec(o),
    {
        let a: i128 = self.raw as i128;
        let b: i128 = o.raw as i128;
        assert(-0x4000_0000_0000_0000_0000_0000_0000_0000 <= a * b
            <= 0x4000_0000_0000_0000_0000_0000_0000_0000) by (nonlinear_arith)
            requires
                -0x8000_0000_0000_0000 <= a <= 0x8000_0000_0000_0000,
                -0x8000_0000_0000_0000 <= b <= 0x8000_0000_0000_0000,
        ;
        let p: i128 = a * b;
        let q: i128 = p / (ONE_RAW as i128);
        Scalar { raw: clamp_raw(q) }
    }

    /// The sum of three products, rounded once.
    pub fn sum_of_products(a0: Scalar, b0: Scalar, a1: Scalar, b1: Scalar, a2: Scalar, b2: Scalar) -> (r:
        Scalar)
        ensures
            r == Scalar::sum_of_products_spec(a0, b0, a1, b1, a2, b2),
    {
        let p0 = wide_product(a0.raw, b0.raw);
        let p1 = wide_product(a1.raw, b1.raw);
        let p2 = wide_product(a2.raw, b2.raw);
        Scalar { raw: round_sum(p0, p1, p2) }
    }

    /// The difference of two products, rounded once.
    pub fn difference_of_products(a: Scalar, b: Scalar, c: Scalar, d: Scalar) -> (r: Scalar)
        ensures
            r == Scalar::difference_of_products_spec(a, b, c, d),
    {
        let p0 = wide_product(a.raw, b.raw);
        let p1 = wide_product(c.raw, d.raw);
        Scalar { raw: round_sum(p0, -p1, 0) }
    }

    pub fn div(self, o: Scalar) -> (r: Scalar)
        ensures
            r == self.div_spec(o),
    {
        if o.raw == 0 {
            if self.raw > 0 {
                Scalar { raw: MAX_RAW }
            } else if self.raw < 0 {
                Scalar { raw: MIN_RAW }
            } else {
                Scalar { raw: 0 }
            }
        } else {
            let a: i128 = self.raw as i128;
            let d: i128 = o.raw as i128;
            assert(-0x8000_0000_0000_0000 * 0x1_0000_0000 <= a * 0x1_0000_0000
                <= 0x8000_0000_0000_0000 * 0x1_0000_0000) by (nonlinear_arith)
                requires
                    -0x8000_0000_0000_0000 <= a <= 0x8000_0000_0000_0000,
            ;
            let n: i128 = a * (ONE_RAW as i128);
            let q: i128 = if d < 0 {
                (-n) / (-d)
            } else {
                n / d
            };
            Scalar { raw: clamp_raw(q) }
        }
    }

    pub fn sqrt(self) -> (r: Scalar)
        ensures
            r == self.sqrt_spec(),
            r.raw >= 0,
    {
        if self.raw <= 0 {
            Scalar { raw: 0 }
        } else {
            assert(0 < self.raw * 0x1_0000_0000 <= 0x7fff_ffff_ffff_ffff * 0x1_0000_0000)
                by (nonlinear_arith)
                requires
                    0 < self.raw <= 0x7fff_ffff_ffff_ffff,
            ;
            let n: u128 = (self.raw as u128) * (ONE_RAW as u128);
            let r = integer_root(n);
            proof {
                root_is(n as int, r as int);
                self.sqrt_bounds();
            }
            Scalar { raw: r as i64 }
        }
    }

    pub fn abs(self) -> (r: Scalar)
        ensures
            r == self.abs_spec(),
    {
        if self.raw < 0 {
            self.neg()
        } else {
            self
        }
    }

    pub fn min(self, o: Scalar) -> (r: Scalar)
        ensures
            r == self.min_spec(o),
    {
        if o.raw < self.raw {
            o
        } else {
            self
        }
    }

    pub fn max(self, o: Scalar) -> (r: Scalar)
        ensures
            r == self.max_spec(o),
    {
        if o.raw > self.raw {
            o
        } else {
            self
        }
    }

    /// The scalar as a decimal fraction with the fewest decimals that tell
    /// it from every other scalar.
    pub fn to_string(&self) -> (r: String)
        ensures
            r@ == scalar_text(self.raw as int),
    {
        let mut out = String::new();
        push_scalar(&mut out, *self);
        out
    }

    /// The integer part, rounded toward zero.
    pub fn trunc(self) -> (r: i64)
        ensures
            r == self.trunc_spec(),
    {
        self.raw / ONE_RAW
    }
}

/// The sum, saturated.
impl core::ops::Add<Scalar> for Scalar {
    type Output = Scalar;

    fn add(self, rhs: Scalar) -> (r: Scalar) {
        Scalar::add(self, rhs)
    }
}

impl vstd::std_specs::ops::AddSpecImpl<Scalar> for Scalar {
    open spec fn obeys_add_spec() -> bool {
        true
    }

    open spec fn add_req(self, rhs: Scalar) -> bool {
        true
    }

    open spec fn add_spec(self, rhs: Scalar) -> Scalar {
        Scalar::add_spec(self, rhs)
    }
}

/// The difference, saturated.
impl core::ops::Sub<Scalar> for Scalar {
    type Output = Scalar;

    fn sub(self, rhs: Scalar) -> (r: Scalar) {
        Scalar::sub(self, rhs)
    }
}

impl vstd::std_specs::ops::SubSpecImpl<Scalar> for Scalar {
    open spec fn obeys_sub_spec() -> bool {
        true
    }

    open spec fn sub_req(self, rhs: Scalar) -> bool {
        true
    }

    open spec fn sub_spec(self, rhs: Scalar) -> Scalar {
        Scalar::sub_spec(self, rhs)
    }
}

/// The product, rounded toward zero and saturated.
impl core::ops::Mul<Scalar> for Scalar {
    type Output = Scalar;

    fn mul(self, rhs: Scalar) -> (r: Scalar) {
        Scalar::mul(self, rhs)
    }
}

impl vstd::std_specs::ops::MulSpecImpl<Scalar> for Scalar {
    open spec fn obeys_mul_spec() -> bool {
        true
    }

    open spec fn mul_req(self, rhs: Scalar) -> bool {
        true
    }

    open spec fn mul_spec(self, rhs: Scalar) -> Scalar {
        Scalar::mul_spec(self, rhs)
    }
}

/// The quotient, rounded toward zero and saturated.
impl core::ops::Div<Scalar> for Scalar {
    type Output = Scalar;

    fn div(self, rhs: Scalar) -> (r: Scalar) {
        Scalar::div(self, rhs)
    }
}

impl vstd::std_specs::ops::DivSpecImpl<Scalar> for Scalar {
    open spec fn obeys_div_spec() -> bool {
        true
    }

    open spec fn div_req(self, rhs: Scalar) -> bool {
        true
    }

    open spec fn div_spec(self, rhs: Scalar) -> Scalar {
        Scalar::div_spec(self, rhs)
    }
}

/// The negation, saturated.
impl core::ops::Neg for Scalar {
    type Output = Scalar;

    fn neg(self) -> (r: Scalar) {
        Scalar::neg(self)
    }
}

impl vstd::std_specs::ops::NegSpecImpl for Scalar {
    open spec fn obeys_neg_spec() -> bool {
        true
    }

    open spec fn neg_req(self) -> bool {
        true
    }

    open spec fn neg_spec(self) -> Scalar {
        Scalar::neg_spec(self)
    }
}

/// The product of two raw values, which no rounding has touched yet.
fn wide_product(a: i64, b: i64) -> (p: i128)
    ensures
        p == a * b,
        -0x4000_0000_0000_0000_0000_0000_0000_0000 <= p <= 0x4000_0000_0000_0000_0000_0000_0000_0000,
{
    assert(-0x4000_0000_0000_0000_0000_0000_0000_0000 <= a * b
        <= 0x4000_0000_0000_0000_0000_0000_0000_0000) by (nonlinear_arith)
        requires
            -0x8000_0000_0000_0000 <= a <= 0x8000_0000_0000_0000,
            -0x8000_0000_0000_0000 <= b <= 0x8000_0000_0000_0000,
    ;
    (a as i128) * (b as i128)
}

/// The sum of three wide products, divided by one, rounded toward zero and
/// saturated. Each product is split into its part above the rounding and its
/// part below, so that no sum leaves the range of the machine.
fn round_sum(p0: i128, p1: i128, p2: i128) -> (r: i64)
    requires
        -0x4000_0000_0000_0000_0000_0000_0000_0000 <= p0 <= 0x4000_0000_0000_0000_0000_0000_0000_0000,
        -0x4000_0000_0000_0000_0000_0000_0000_0000 <= p1 <= 0x4000_0000_0000_0000_0000_0000_0000_0000,
        -0x4000_0000_0000_0000_0000_0000_0000_0000 <= p2 <= 0x4000_0000_0000_0000_0000_0000_0000_0000,
    ensures
        r == saturate(quotient(p0 + p1 + p2, ONE_RAW as int)),
{
    let one: i128 = ONE_RAW as i128;
    let h0: i128 = p0 / one;
    let h1: i128 = p1 / one;
    let h2: i128 = p2 / one;
    let low: i128 = (p0 - h0 * one) + (p1 - h1 * one) + (p2 - h2 * one);
    let high: i128 = h0 + h1 + h2;
    assert(p0 + p1 + p2 == high * one + low);
    assert(-3 * one < low < 3 * one);
    if high > MAX_RAW as i128 + 3 {
        proof {
            quotient_monotone((MAX_RAW + 1) * one, p0 + p1 + p2, one as int);
            assert(quotient((MAX_RAW + 1) * one, one as int) == MAX_RAW + 1);
        }
        MAX_RAW
    } else if high < MIN_RAW as i128 - 3 {
        proof {
            quotient_monotone(p0 + p1 + p2, (MIN_RAW - 1) * one, one as int);
            assert(quotient((MIN_RAW - 1) * one, one as int) == MIN_RAW - 1);
        }
        MIN_RAW
    } else {
        let total: i128 = high * one + low;
        clamp_raw(total / one)
    }
}

/// Brings a wide integer into the raw range of a scalar.
fn clamp_raw(x: i128) -> (r: i64)
    ensures
        r == saturate(x as int),
{
    if x > MAX_RAW as i128 {
        MAX_RAW
    } else if x < MIN_RAW as i128 {
        MIN_RAW
    } else {
        x as i64
    }
}

/// The integer square root, by bisection.
pub fn integer_root(n: u128) -> (r: u64)
    ensures
        is_root(n as int, r as int),
{
    let mut lo: u128 = 0;
    let mut hi: u128 = 0x1_0000_0000_0000_0000;
    assert(n < 0x1_0000_0000_0000_0000int * 0x1_0000_0000_0000_0000int);
    while hi - lo > 1
        invariant
            lo < hi <= 0x1_0000_0000_0000_0000,
            lo * lo <= n,
            n < hi * hi,
        decreases hi - lo,
    {
        let mid: u128 = lo + (hi - lo) / 2;
        assert(mid * mid <= 0xffff_ffff_ffff_ffff * 0xffff_ffff_ffff_ffff) by (nonlinear_arith)
            requires
                0 <= mid <= 0xffff_ffff_ffff_ffff,
        ;
        if mid * mid <= n {
            lo = mid;
        } else {
            hi = mid;
        }
    }
    lo as u64
}

} // verus!
