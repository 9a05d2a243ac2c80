//! Whole numbers of up to 256 bits: products of 128-bit numbers, exactly.

use vstd::prelude::*;

verus! {

/// `2^64`.
pub const HALF: u128 = 0x1_0000_0000_0000_0000;

/// `2^128`.
pub open spec fn base() -> int {
    0x1_0000_0000_0000_0000_0000_0000_0000_0000int
}

/// A whole number below `2^256`, held as `hi * 2^128 + lo`.
#[derive(Clone, Copy, Debug, PartialEq, Eq, Structural)]
pub struct Wide {
    pub hi: u128,
    pub lo: u128,
}

/// The product of two numbers written in halves of 64 bits, by its four
/// partial products.
proof fn lemma_product_by_halves(a1: int, a0: int, b1: int, b0: int)
    by (nonlinear_arith)
    ensures
        (a1 * 0x1_0000_0000_0000_0000 + a0) * (b1 * 0x1_0000_0000_0000_0000 + b0) == (a1 * b1)
            * 0x1_0000_0000_0000_0000_0000_0000_0000_0000int + (a1 * b0 + a0 * b1)
            * 0x1_0000_0000_0000_0000 + a0 * b0,
{
}

/// A product of two numbers below `2^64` is at most `(2^64 - 1)^2`.
proof fn lemma_half_product_bound(x: int, y: int)
    by (nonlinear_arith)
    requires
        0 <= x < 0x1_0000_0000_0000_0000,
        0 <= y < 0x1_0000_0000_0000_0000,
    ensures
        0 <= x * y <= 0xffff_ffff_ffff_fffe_0000_0000_0000_0001,
{
}

impl Wide {
    /// The number that is held.
    pub open spec fn value(self) -> int {
        self.hi * base() + self.lo
    }

    /// The product of `a` and `b`.
    pub fn product(a: u128, b: u128) -> (w: Wide)
        ensures
            w.value() == a * b,
    {
        let a1: u128 = a / HALF;
        let a0: u128 = a % HALF;
        let b1: u128 = b / HALF;
        let b0: u128 = b % HALF;
        proof {
            lemma_half_product_bound(a0 as int, b0 as int);
            lemma_half_product_bound(a0 as int, b1 as int);
            lemma_half_product_bound(a1 as int, b0 as int);
            lemma_half_product_bound(a1 as int, b1 as int);
            lemma_product_by_halves(a1 as int, a0 as int, b1 as int, b0 as int);
        }
        let ll: u128 = a0 * b0;
        let lh: u128 = a0 * b1;
        let hl: u128 = a1 * b0;
        let hh: u128 = a1 * b1;
        let middle: u128 = ll / HALF + lh % HALF + hl % HALF;
        let lo: u128 = ll % HALF + (middle % HALF) * HALF;
        let hi: u128 = hh + lh / HALF + hl / HALF + middle / HALF;
        Wide { hi, lo }
    }

    /// The number times `c`, where that is below `2^256`.
    pub fn times(&self, c: u128) -> (w: Wide)
        requires
            self.hi * c + c < base(),
        ensures
            w.value() == self.value() * c,
    {
        let low = Wide::product(self.lo, c);
        proof {
            assert(low.hi < c || c == 0) by (nonlinear_arith)
                requires
                    low.hi * base() + low.lo == self.lo * c,
                    self.lo < base(),
                    0 <= low.lo,
                    0 <= c,
            ;
            assert(self.value() * c == (self.hi * c) * base() + self.lo * c)
                by (nonlinear_arith)
                requires
                    self.value() == self.hi * base() + self.lo,
            ;
            assert(0 <= self.hi * c) by (nonlinear_arith);
        }
        let hi: u128 = self.hi * c + low.hi;
        Wide { hi, lo: low.lo }
    }

    /// Whether the number is below `other`.
    pub fn less_than(&self, other: &Wide) -> (less: bool)
        ensures
            less == (self.value() < other.value()),
    {
        self.hi < other.hi || (self.hi == other.hi && self.lo < other.lo)
    }
}

} // verus!
