//! Exact comparisons between sums of square roots of integers.
//!
//! Distances between points with integer coordinates are square roots of
//! integers. Whether a sum of such distances lies below or above a bound is
//! decided here without rounding: every comparison is reduced, by squaring
//! both of its sides while keeping track of their signs, to a comparison of
//! integers.

use crate::wide::base;
use crate::wide::Wide;
use vstd::prelude::*;

verus! {

/// Largest radicand that the executable comparisons accept: `2^62`.
pub const RADICAND_MAX: i128 = 0x4000_0000_0000_0000;

/// Largest magnitude of the whole offset that the executable comparisons
/// accept: `2^28`.
pub const OFFSET_MAX: i128 = 0x1000_0000;

/// Largest magnitude of the multiplier of a root that `lin_root_sign_of`
/// accepts: `2^93`.
pub const MULTIPLIER_MAX: i128 = 0x2000_0000_0000_0000_0000_0000;

/// The sign of an integer: `-1`, `0` or `1`.
pub open spec fn sgn(x: int) -> int {
    if x > 0 {
        1
    } else if x < 0 {
        -1
    } else {
        0
    }
}

/// `x * |x|`: the square of `x`, carrying the sign of `x`.
///
/// The map is strictly increasing, so two numbers compare as their signed
/// squares do.
pub open spec fn signed_square(x: int) -> int {
    if x >= 0 {
        x * x
    } else {
        -(x * x)
    }
}

/// The sign of `x + y * sqrt(q)`, for `q >= 0`.
///
/// `x` lies above `-y * sqrt(q)` exactly when the signed square of `x` lies
/// above that of `-y * sqrt(q)`, which is `-signed_square(y) * q`.
pub open spec fn lin_root_sign(x: int, y: int, q: int) -> int {
    sgn(signed_square(x) + signed_square(y) * q)
}

/// The sign of `k + sqrt(p) + y * sqrt(c)`, for `p >= 0` and `c >= 0`.
///
/// With `t = k + y * sqrt(c)`: where `t >= 0` the sum is positive unless both
/// `t` and `p` vanish; where `t < 0` the sum has the sign of `p - t * t`, and
/// `t * t = k * k + y * y * c + 2 * k * y * sqrt(c)`.
pub open spec fn two_root_sign(k: int, p: int, y: int, c: int) -> int {
    let t = lin_root_sign(k, y, c);
    if t > 0 {
        1
    } else if t == 0 {
        if p > 0 {
            1
        } else {
            0
        }
    } else {
        lin_root_sign(p - k * k - y * y * c, -2 * k * y, c)
    }
}

/// The sign of `sqrt(a) + sqrt(b) - (sqrt(c) + s)`, for `a, b, c >= 0`.
///
/// Where `sqrt(c) + s` is negative the difference is positive. Elsewhere both
/// `sqrt(a) + sqrt(b)` and `sqrt(c) + s` are non-negative and compare as their
/// squares `a + b + sqrt(4 * a * b)` and `c + s * s + 2 * s * sqrt(c)` do.
pub open spec fn gap_sign(a: int, b: int, c: int, s: int) -> int {
    if s < 0 && c < s * s {
        1
    } else {
        two_root_sign(a + b - c - s * s, 4 * a * b, -2 * s, c)
    }
}

/// A product is bounded by the product of bounds on its factors.
pub proof fn lemma_product_bound(x: int, y: int, bx: int, by: int)
    by (nonlinear_arith)
    requires
        -bx <= x <= bx,
        -by <= y <= by,
    ensures
        -(bx * by) <= x * y <= bx * by,
{
}

/// A square is non-negative and bounded by the square of a bound on its root.
pub proof fn lemma_square_bound(x: int, bx: int)
    by (nonlinear_arith)
    requires
        -bx <= x <= bx,
    ensures
        0 <= x * x <= bx * bx,
{
}

/// The sign of a machine integer.
pub fn sign_of(x: i128) -> (g: i8)
    ensures
        g == sgn(x as int),
{
    if x > 0 {
        1
    } else if x < 0 {
        -1
    } else {
        0
    }
}

/// The magnitude of a machine integer other than the least one.
fn magnitude_of(x: i128) -> (m: u128)
    requires
        i128::MIN < x,
    ensures
        m == if x >= 0 { x as int } else { -x },
{
    if x >= 0 {
        x as u128
    } else {
        (-x) as u128
    }
}

/// Computes the sign of `x + y * sqrt(q)`, for `y` of magnitude at most
/// `MULTIPLIER_MAX` and `q` at most `RADICAND_MAX`.
pub fn lin_root_sign_of(x: i128, y: i128, q: i128) -> (g: i8)
    requires
        i128::MIN < x,
        -MULTIPLIER_MAX <= y <= MULTIPLIER_MAX,
        0 <= q <= RADICAND_MAX,
    ensures
        g == lin_root_sign(x as int, y as int, q as int),
{
    let ax: u128 = magnitude_of(x);
    let ay: u128 = magnitude_of(y);
    let xx = Wide::product(ax, ax);
    let yy = Wide::product(ay, ay);
    proof {
        lemma_square_bound(y as int, 0x2000_0000_0000_0000_0000_0000);
        assert(ay * ay == y * y && ax * ax == x * x) by (nonlinear_arith)
            requires
                ay == y || ay == -y,
                ax == x || ax == -x,
        ;
        // y * y is at most 2^186, so its upper half is at most 2^58.
        assert(yy.hi <= 0x400_0000_0000_0000) by {
            assert(yy.hi * base() <= yy.value());
            assert(0x2000_0000_0000_0000_0000_0000int * 0x2000_0000_0000_0000_0000_0000int
                == 0x400_0000_0000_0000int * base()) by (nonlinear_arith);
        }
        lemma_product_bound(yy.hi as int, q as int, 0x400_0000_0000_0000, 0x4000_0000_0000_0000);
        assert(0 <= yy.hi * q) by (nonlinear_arith)
            requires
                0 <= yy.hi,
                0 <= q,
        ;
    }
    let yyq = yy.times(q as u128);
    proof {
        assert(signed_square(x as int) == if x >= 0 {
            xx.value()
        } else {
            -xx.value()
        });
        assert(signed_square(y as int) * q == if y >= 0 {
            yyq.value()
        } else {
            -yyq.value()
        }) by (nonlinear_arith)
            requires
                yyq.value() == y * y * q,
        ;
        assert(0 <= xx.value() && 0 <= yyq.value());
        assert(x != 0 ==> 0 < x * x) by (nonlinear_arith);
    }
    if x >= 0 && y >= 0 {
        if xx.less_than(&yyq) || yyq.less_than(&xx) || x > 0 {
            1
        } else {
            0
        }
    } else if x >= 0 {
        if yyq.less_than(&xx) {
            1
        } else if xx.less_than(&yyq) {
            -1
        } else {
            0
        }
    } else if y >= 0 {
        if xx.less_than(&yyq) {
            1
        } else if yyq.less_than(&xx) {
            -1
        } else {
            0
        }
    } else {
        -1
    }
}

/// Computes the sign of `k + sqrt(p) + y * sqrt(c)`, for `k` of magnitude at
/// most `2^63`, `p` at most `2^126`, `y` of magnitude at most `2^29` and `c`
/// at most `RADICAND_MAX`.
pub fn two_root_sign_of(k: i128, p: i128, y: i128, c: i128) -> (g: i8)
    requires
        -0x8000_0000_0000_0000 <= k <= 0x8000_0000_0000_0000,
        0 <= p <= 0x4000_0000_0000_0000_0000_0000_0000_0000,
        -0x2000_0000 <= y <= 0x2000_0000,
        0 <= c <= RADICAND_MAX,
    ensures
        g == two_root_sign(k as int, p as int, y as int, c as int),
{
    let t: i8 = lin_root_sign_of(k, y, c);
    if t > 0 {
        1
    } else if t == 0 {
        if p > 0 {
            1
        } else {
            0
        }
    } else {
        proof {
            lemma_square_bound(k as int, 0x8000_0000_0000_0000);
            lemma_square_bound(y as int, 0x2000_0000);
            lemma_product_bound(
                y as int * y as int,
                c as int,
                0x400_0000_0000_0000,
                0x4000_0000_0000_0000,
            );
            assert(0 <= (y as int) * (y as int) * (c as int)) by (nonlinear_arith)
                requires
                    0 <= (y as int) * (y as int),
                    0 <= c,
            ;
            lemma_product_bound(k as int, y as int, 0x8000_0000_0000_0000, 0x2000_0000);
            assert(-2 * (k as int) * (y as int) == -2 * ((k as int) * (y as int)))
                by (nonlinear_arith);
        }
        let kk: i128 = k * k;
        let yyc: i128 = y * y * c;
        let ky: i128 = k * y;
        lin_root_sign_of(p - kk - yyc, -(2 * ky), c)
    }
}

/// Computes the sign of `sqrt(a) + sqrt(b) - (sqrt(c) + s)`, for radicands
/// up to `RADICAND_MAX` and `s` of magnitude at most `OFFSET_MAX`.
pub fn gap_sign_of(a: i128, b: i128, c: i128, s: i128) -> (g: i8)
    requires
        0 <= a <= RADICAND_MAX,
        0 <= b <= RADICAND_MAX,
        0 <= c <= RADICAND_MAX,
        -OFFSET_MAX <= s <= OFFSET_MAX,
    ensures
        g == gap_sign(a as int, b as int, c as int, s as int),
{
    proof {
        lemma_square_bound(s as int, 0x1000_0000);
        lemma_product_bound(a as int, b as int, 0x4000_0000_0000_0000, 0x4000_0000_0000_0000);
        assert(4 * (a as int) * (b as int) == 4 * ((a as int) * (b as int))) by (nonlinear_arith);
        assert(0 <= (a as int) * (b as int)) by (nonlinear_arith)
            requires
                0 <= a,
                0 <= b,
        ;
    }
    let ss: i128 = s * s;
    if s < 0 && c < ss {
        1
    } else {
        let ab: i128 = a * b;
        two_root_sign_of(a + b - c - ss, 4 * ab, -(2 * s), c)
    }
}

} // verus!
