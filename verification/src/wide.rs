//! Integers of up to 256 bits, for the products of products that the
//! intersection of a ray with a sphere needs in full.
use vstd::prelude::*;
use crate::scalar::is_root;

verus! {

/// Two to the power 64: one limb.
pub const LIMB: u128 = 0x1_0000_0000_0000_0000;

/// Two to the power 128.
pub open spec fn two_128() -> int {
    0x1_0000_0000_0000_0000_0000_0000_0000_0000int
}

/// A number below 2^256 that is not negative: `hi * 2^128 + lo`.
#[derive(Clone, Copy, Debug)]
pub struct Wide {
    pub hi: u128,
    pub lo: u128,
}

impl Wide {
    /// The number that the two halves stand for.
    pub open spec fn value(self) -> int {
        self.hi * two_128() + self.lo
    }

    /// The number `x`, widened.
    pub fn from(x: u128) -> (w: Wide)
        ensures
            w.value() == x,
    {
        Wide { hi: 0, lo: x }
    }

    /// The product of two numbers, in full.
    pub fn product(x: u128, y: u128) -> (w: Wide)
        ensures
            w.value() == x * y,
    {
        let b: u128 = LIMB;
        let x0 = x % b;
        let x1 = x / b;
        let y0 = y % b;
        let y1 = y / b;
        assert(x0 * y0 <= 0xffff_ffff_ffff_ffff * 0xffff_ffff_ffff_ffff) by (nonlinear_arith)
            requires
                0 <= x0 <= 0xffff_ffff_ffff_ffff,
                0 <= y0 <= 0xffff_ffff_ffff_ffff,
        ;
        assert(x0 * y1 <= 0xffff_ffff_ffff_ffff * 0xffff_ffff_ffff_ffff) by (nonlinear_arith)
            requires
                0 <= x0 <= 0xffff_ffff_ffff_ffff,
                0 <= y1 <= 0xffff_ffff_ffff_ffff,
        ;
        assert(x1 * y0 <= 0xffff_ffff_ffff_ffff * 0xffff_ffff_ffff_ffff) by (nonlinear_arith)
            requires
                0 <= x1 <= 0xffff_ffff_ffff_ffff,
                0 <= y0 <= 0xffff_ffff_ffff_ffff,
        ;
        assert(x1 * y1 <= 0xffff_ffff_ffff_ffff * 0xffff_ffff_ffff_ffff) by (nonlinear_arith)
            requires
                0 <= x1 <= 0xffff_ffff_ffff_ffff,
                0 <= y1 <= 0xffff_ffff_ffff_ffff,
        ;
        let p00 = x0 * y0;
        let p01 = x0 * y1;
        let p10 = x1 * y0;
        let p11 = x1 * y1;
        let mid = p00 / b + p01 % b + p10 % b;
        let lo = (mid % b) * b + p00 % b;
        proof {
            let bb = b as int;
            assert(x * y == (p11 * bb) * bb + (p01 + p10) * bb + p00) by (nonlinear_arith)
                requires
                    x == x1 * bb + x0,
                    y == y1 * bb + y0,
                    p00 == x0 * y0,
                    p01 == x0 * y1,
                    p10 == x1 * y0,
                    p11 == x1 * y1,
            ;
            assert((p11 * bb) * bb == p11 * two_128()) by (nonlinear_arith)
                requires
                    bb * bb == two_128(),
            ;
            assert(x * y <= 0xffff_ffff_ffff_ffff_ffff_ffff_ffff_ffffint
                * 0xffff_ffff_ffff_ffff_ffff_ffff_ffff_ffffint) by (nonlinear_arith)
                requires
                    0 <= x <= 0xffff_ffff_ffff_ffff_ffff_ffff_ffff_ffff,
                    0 <= y <= 0xffff_ffff_ffff_ffff_ffff_ffff_ffff_ffff,
            ;
            let total = p11 + p01 / b + p10 / b + mid / b;
            assert(total * two_128() + lo == x * y);
            assert(total < two_128()) by (nonlinear_arith)
                requires
                    total * two_128() + lo == x * y,
                    lo >= 0,
                    x * y <= 0xffff_ffff_ffff_ffff_ffff_ffff_ffff_ffffint
                        * 0xffff_ffff_ffff_ffff_ffff_ffff_ffff_ffffint,
                    two_128() == 0x1_0000_0000_0000_0000_0000_0000_0000_0000int,
            ;
        }
        let hi = p11 + p01 / b + p10 / b + mid / b;
        Wide { hi, lo }
    }

    /// Whether the number does not exceed `o`.
    pub fn le(&self, o: &Wide) -> (b: bool)
        ensures
            b == (self.value() <= o.value()),
    {
        self.hi < o.hi || (self.hi == o.hi && self.lo <= o.lo)
    }

    /// The sum of two numbers, where it stays below 2^256.
    pub fn plus(&self, o: &Wide) -> (w: Wide)
        requires
            self.value() + o.value() < two_128() * two_128(),
        ensures
            w.value() == self.value() + o.value(),
    {
        let carry: u128 = if self.lo > u128::MAX - o.lo {
            1
        } else {
            0
        };
        let lo: u128 = if carry == 1 {
            self.lo - (u128::MAX - o.lo) - 1
        } else {
            self.lo + o.lo
        };
        assert(self.hi + o.hi + carry < two_128()) by (nonlinear_arith)
            requires
                (self.hi + o.hi + carry) * two_128() + lo == self.value() + o.value(),
                self.value() + o.value() < two_128() * two_128(),
                lo >= 0,
                two_128() > 0,
        ;
        Wide { hi: self.hi + o.hi + carry, lo }
    }

    /// The difference of two numbers, of which the first is not the smaller.
    pub fn minus(&self, o: &Wide) -> (w: Wide)
        requires
            self.value() >= o.value(),
        ensures
            w.value() == self.value() - o.value(),
    {
        if self.lo >= o.lo {
            Wide { hi: self.hi - o.hi, lo: self.lo - o.lo }
        } else {
            Wide { hi: self.hi - o.hi - 1, lo: u128::MAX - o.lo + self.lo + 1 }
        }
    }

    /// The integer square root.
    pub fn root(&self) -> (r: u128)
        ensures
            is_root(self.value(), r as int),
    {
        let top: u128 = u128::MAX;
        if Wide::product(top, top).le(self) {
            assert((top + 1) * (top + 1) == two_128() * two_128()) by (nonlinear_arith)
                requires
                    top + 1 == two_128(),
            ;
            assert(self.value() < two_128() * two_128()) by (nonlinear_arith)
                requires
                    self.value() == self.hi * two_128() + self.lo,
                    self.hi < two_128(),
                    self.lo < two_128(),
            ;
            return top;
        }
        let mut lo: u128 = 0;
        let mut hi: u128 = top;
        while hi - lo > 1
            invariant
                lo < hi,
                lo * lo <= self.value(),
                self.value() < hi * hi,
            decreases hi - lo,
        {
            let mid: u128 = lo + (hi - lo) / 2;
            if Wide::product(mid, mid).le(self) {
                lo = mid;
            } else {
                hi = mid;
            }
        }
        lo
    }

    /// The quotient by `d`, rounded down, or `limit` where the quotient
    /// exceeds it.
    pub fn quotient(&self, d: u128, limit: u128) -> (q: u128)
        requires
            d > 0,
        ensures
            q == if self.value() / (d as int) > limit {
                limit as int
            } else {
                self.value() / (d as int)
            },
    {
        let ghost v = self.value();
        if Wide::product(d, limit).le(self) {
            proof {
                vstd::arithmetic::div_mod::lemma_div_is_ordered(d * limit, v, d as int);
                vstd::arithmetic::div_mod::lemma_div_multiples_vanish(limit as int, d as int);
            }
            return limit;
        }
        let mut lo: u128 = 0;
        let mut hi: u128 = limit;
        assert(d * 0 == 0);
        while hi - lo > 1
            invariant
                lo < hi <= limit,
                d * lo <= v,
                v < d * hi,
                v == self.value(),
                d > 0,
            decreases hi - lo,
        {
            let mid: u128 = lo + (hi - lo) / 2;
            if Wide::product(d, mid).le(self) {
                lo = mid;
            } else {
                hi = mid;
            }
        }
        proof {
            assert(d * hi == d * lo + d) by (nonlinear_arith)
                requires
                    hi == lo + 1,
            ;
            assert(d * lo == lo * d) by (nonlinear_arith);
            vstd::arithmetic::div_mod::lemma_fundamental_div_mod_converse(
                v,
                d as int,
                lo as int,
                v - lo * d,
            );
        }
        lo
    }
}

} // verus!
