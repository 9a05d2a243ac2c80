//! Laws of the gap between sums of square roots: how its sign, as
//! `gap_sign` decides it, moves with the radicands, how whole numbers and
//! fractions above and below the roots bound it, and what it is for the
//! sides of a triangle.

use crate::root_order::lemma_lin_root_add_nonneg;
use crate::root_order::lemma_lin_root_negate;
use crate::root_order::lemma_lin_root_nonneg;
use crate::root_order::lemma_lin_root_product_nonneg;
use crate::root_order::lemma_lin_root_scale;
use crate::root_order::lemma_lin_root_sign_monotone;
use crate::root_order::lemma_lin_root_square_nonneg;
use crate::root_order::product_root;
use crate::root_order::product_whole;
use crate::roots::gap_sign;
use crate::roots::lin_root_sign;
use crate::roots::sgn;
use crate::roots::signed_square;
use crate::roots::two_root_sign;
use vstd::prelude::*;

verus! {

/// The two roots on the left of a gap may be exchanged.
pub proof fn lemma_gap_symmetric(a: int, b: int, c: int, s: int)
    ensures
        gap_sign(a, b, c, s) == gap_sign(b, a, c, s),
{
    assert(4 * a * b == 4 * b * a) by (nonlinear_arith);
}

/// Two numbers add up to something positive, zero or negative as their signed
/// squares do.
pub proof fn lemma_signed_square_sum(u: int, v: int)
    ensures
        sgn(signed_square(u) + signed_square(v)) == sgn(u + v),
{
    assert(u * u - v * v == (u - v) * (u + v)) by (nonlinear_arith);
    if u >= 0 && v >= 0 {
        assert(u * u + v * v > 0 || (u == 0 && v == 0)) by (nonlinear_arith)
            requires
                u >= 0,
                v >= 0,
        ;
    } else if u < 0 && v < 0 {
        assert(u * u + v * v > 0) by (nonlinear_arith)
            requires
                u < 0,
        ;
    } else if u >= 0 {
        assert(sgn((u - v) * (u + v)) == sgn(u + v)) by (nonlinear_arith)
            requires
                u - v > 0,
        ;
    } else {
        assert(sgn((u - v) * (u + v)) == -sgn(u + v)) by (nonlinear_arith)
            requires
                u - v < 0,
        ;
    }
}

/// Where the radicand is the square of `r`, the sign of `x + y * sqrt(q)` is
/// that of the integer `x + y * r`.
pub proof fn lemma_lin_root_sign_of_square(x: int, y: int, r: int)
    requires
        0 <= r,
    ensures
        lin_root_sign(x, y, r * r) == sgn(x + y * r),
{
    assert(signed_square(y) * (r * r) == signed_square(y * r)) by (nonlinear_arith)
        requires
            0 <= r,
    ;
    lemma_signed_square_sum(x, y * r);
}

/// Where both radicands are squares, of `m` and of `r`, the sign of
/// `k + sqrt(p) + y * sqrt(c)` is that of the integer `k + m + y * r`.
pub proof fn lemma_two_root_sign_of_squares(k: int, m: int, y: int, r: int)
    requires
        0 <= m,
        0 <= r,
    ensures
        two_root_sign(k, m * m, y, r * r) == sgn(k + m + y * r),
{
    let t = k + y * r;
    lemma_lin_root_sign_of_square(k, y, r);
    if t > 0 {
    } else if t == 0 {
        assert(m * m > 0 <==> m > 0) by (nonlinear_arith)
            requires
                0 <= m,
        ;
    } else {
        lemma_lin_root_sign_of_square(m * m - k * k - y * y * (r * r), -2 * k * y, r);
        let w = y * r;
        assert(y * y * (r * r) == w * w) by (nonlinear_arith)
            requires
                w == y * r,
        ;
        assert((-2 * k * y) * r == -2 * (k * w)) by (nonlinear_arith)
            requires
                w == y * r,
        ;
        assert(m * m - k * k - w * w - 2 * (k * w) == (m - t) * (m + t)) by (nonlinear_arith)
            requires
                t == k + w,
        ;
        assert(sgn((m - t) * (m + t)) == sgn(m + t)) by (nonlinear_arith)
            requires
                m - t > 0,
        ;
    }
}

/// Where all three radicands are squares the gap is a gap between integers:
/// the sign of `sqrt(x * x) + sqrt(y * y) - (sqrt(z * z) + s)` is that of
/// `x + y - z - s`, for `x, y, z >= 0`.
pub proof fn lemma_gap_sign_of_squares(x: int, y: int, z: int, s: int)
    requires
        0 <= x,
        0 <= y,
        0 <= z,
    ensures
        gap_sign(x * x, y * y, z * z, s) == sgn(x + y - z - s),
{
    if s < 0 && z * z < s * s {
        assert(z < -s) by (nonlinear_arith)
            requires
                0 <= z,
                s < 0,
                z * z < s * s,
        ;
    } else {
        assert(z + s >= 0) by (nonlinear_arith)
            requires
                0 <= z,
                !(s < 0 && z * z < s * s),
        ;
        let k = x * x + y * y - z * z - s * s;
        assert(4 * (x * x) * (y * y) == (2 * x * y) * (2 * x * y)) by (nonlinear_arith);
        assert(0 <= 2 * x * y) by (nonlinear_arith)
            requires
                0 <= x,
                0 <= y,
        ;
        lemma_two_root_sign_of_squares(k, 2 * x * y, -2 * s, z);
        let u = x + y;
        let v = z + s;
        assert(x * x + y * y + 2 * x * y == u * u) by (nonlinear_arith)
            requires
                u == x + y,
        ;
        assert(z * z + s * s - (-2 * s) * z == v * v) by (nonlinear_arith)
            requires
                v == z + s,
        ;
        assert(u * u - v * v == (u - v) * (u + v)) by (nonlinear_arith);
        if x + y + z + s == 0 {
            assert(x + y - z - s == 0);
        } else {
            assert(sgn((u - v) * (u + v)) == sgn(u - v)) by (nonlinear_arith)
                requires
                    u + v > 0,
            ;
        }
    }
}

/// The sign of `k + sqrt(p) + y * sqrt(c)` does not fall where `p` grows.
pub proof fn lemma_two_root_grows_with_radicand(k: int, p1: int, p2: int, y: int, c: int)
    requires
        0 <= c,
        p1 <= p2,
    ensures
        two_root_sign(k, p1, y, c) <= two_root_sign(k, p2, y, c),
{
    if lin_root_sign(k, y, c) < 0 {
        lemma_lin_root_nonneg(p2 - p1, 0, c);
        lemma_lin_root_sign_monotone(
            p1 - k * k - y * y * c,
            -2 * k * y,
            p2 - k * k - y * y * c,
            -2 * k * y,
            c,
        );
    }
}

/// The sign of `k + sqrt(p) + y * sqrt(c)` does not fall where `k` grows.
pub proof fn lemma_two_root_grows_with_offset(k1: int, k2: int, p: int, y: int, c: int)
    requires
        0 <= c,
        0 <= p,
        k1 <= k2,
    ensures
        two_root_sign(k1, p, y, c) <= two_root_sign(k2, p, y, c),
{
    let t1 = lin_root_sign(k1, y, c);
    let t2 = lin_root_sign(k2, y, c);
    lemma_lin_root_nonneg(k2 - k1, 0, c);
    lemma_lin_root_sign_monotone(k1, y, k2, y, c);
    if k1 == k2 {
    } else if t2 > 0 {
    } else if t2 == 0 {
        if t1 == 0 {
            // Two different whole parts cannot both give zero.
            assert(signed_square(k1) < signed_square(k2)) by (nonlinear_arith)
                requires
                    k1 < k2,
            ;
        } else if p == 0 {
            lemma_lin_root_square_nonneg(k1, y, c);
            lemma_lin_root_negate(k1 * k1 + y * y * c, 2 * k1 * y, c);
            assert(-(2 * k1 * y) == -2 * k1 * y) by (nonlinear_arith);
        }
    } else {
        // Both `k1 + y * sqrt(c)` and `k2 + y * sqrt(c)` are negative, so
        // their sum is, and the squares differ by that sum times `k1 - k2`.
        lemma_lin_root_negate(k1, y, c);
        lemma_lin_root_negate(k2, y, c);
        lemma_lin_root_add_nonneg(-k1, -y, -k2, -y, c);
        let d = k2 - k1;
        lemma_lin_root_scale(d, -k1 - k2, -2 * y, c);
        assert(d * (-k1 - k2) == (p - k2 * k2 - y * y * c) - (p - k1 * k1 - y * y * c))
            by (nonlinear_arith)
            requires
                d == k2 - k1,
        ;
        assert(d * (-2 * y) == (-2 * k2 * y) - (-2 * k1 * y)) by (nonlinear_arith)
            requires
                d == k2 - k1,
        ;
        lemma_lin_root_sign_monotone(
            p - k1 * k1 - y * y * c,
            -2 * k1 * y,
            p - k2 * k2 - y * y * c,
            -2 * k2 * y,
            c,
        );
    }
}

/// The sign of `sqrt(a) + sqrt(b) - (sqrt(c) + s)` does not fall where `a`
/// grows.
pub proof fn lemma_gap_grows_with_first(a1: int, a2: int, b: int, c: int, s: int)
    requires
        0 <= a1 <= a2,
        0 <= b,
        0 <= c,
    ensures
        gap_sign(a1, b, c, s) <= gap_sign(a2, b, c, s),
{
    if !(s < 0 && c < s * s) {
        let k1 = a1 + b - c - s * s;
        let k2 = a2 + b - c - s * s;
        assert(0 <= 4 * a1 * b <= 4 * a2 * b) by (nonlinear_arith)
            requires
                0 <= a1 <= a2,
                0 <= b,
        ;
        lemma_two_root_grows_with_offset(k1, k2, 4 * a1 * b, -2 * s, c);
        lemma_two_root_grows_with_radicand(k2, 4 * a1 * b, 4 * a2 * b, -2 * s, c);
    }
}

/// The sign of `sqrt(a) + sqrt(b) - (sqrt(c) + s)` does not fall where `b`
/// grows.
pub proof fn lemma_gap_grows_with_second(a: int, b1: int, b2: int, c: int, s: int)
    requires
        0 <= a,
        0 <= b1 <= b2,
        0 <= c,
    ensures
        gap_sign(a, b1, c, s) <= gap_sign(a, b2, c, s),
{
    lemma_gap_symmetric(a, b1, c, s);
    lemma_gap_symmetric(a, b2, c, s);
    lemma_gap_grows_with_first(b1, b2, a, c, s);
}

/// `z + 2 * s + sqrt(c)` is not negative where `z` and `sqrt(c)` are both at
/// least `-s`.
proof fn lemma_sum_above_offset(z: int, s: int, c: int)
    requires
        0 <= c,
        0 <= z,
        s < 0 ==> s * s <= c && s * s <= z * z,
    ensures
        lin_root_sign(z + 2 * s, 1, c) >= 0,
{
    lemma_lin_root_nonneg(z + 2 * s, 1, c);
    if z + 2 * s < 0 {
        assert((z + 2 * s) * (z + 2 * s) <= s * s) by (nonlinear_arith)
            requires
                0 <= z,
                s < 0,
                s * s <= z * z,
                z + 2 * s < 0,
        ;
        assert(1 * 1 * c == c) by (nonlinear_arith);
    }
}

/// The sign of `n + sqrt(p)`, for a whole number `n` and `p >= 0`.
spec fn whole_plus_root_sign(n: int, p: int) -> int {
    if n > 0 {
        1
    } else if n == 0 {
        if p > 0 {
            1
        } else {
            0
        }
    } else {
        sgn(p - n * n)
    }
}

/// Where the radicand of the third root is the square of `z`, the sign of
/// the gap is that of `a + b - (z + s) * (z + s) + sqrt(4 * a * b)`.
proof fn lemma_gap_with_whole_third(a: int, b: int, z: int, s: int)
    requires
        0 <= z,
        0 <= z + s,
    ensures
        gap_sign(a, b, z * z, s) == whole_plus_root_sign(
            a + b - (z + s) * (z + s),
            4 * a * b,
        ),
{
    let k = a + b - z * z - s * s;
    let n = a + b - (z + s) * (z + s);
    let p = 4 * a * b;
    assert(!(s < 0 && z * z < s * s)) by (nonlinear_arith)
        requires
            0 <= z,
            0 <= z + s,
    ;
    assert(n == k + (-2 * s) * z) by (nonlinear_arith)
        requires
            k == a + b - z * z - s * s,
            n == a + b - (z + s) * (z + s),
    ;
    lemma_lin_root_sign_of_square(k, -2 * s, z);
    let x = p - k * k - (-2 * s) * (-2 * s) * (z * z);
    let w = -2 * k * (-2 * s);
    lemma_lin_root_sign_of_square(x, w, z);
    assert(x + w * z == p - n * n) by (nonlinear_arith)
        requires
            x == p - k * k - (-2 * s) * (-2 * s) * (z * z),
            w == -2 * k * (-2 * s),
            n == k + (-2 * s) * z,
    {
        let m = (-2 * s) * z;
        assert((-2 * s) * (-2 * s) * (z * z) == m * m);
        assert(w * z == -2 * (k * m));
        assert((k + m) * (k + m) == k * k + 2 * (k * m) + m * m);
    }
}

/// Replacing `sqrt(c)` by a whole number `z` that is not below it does not
/// raise the sign of the gap.
pub proof fn lemma_gap_third_bounded_above(a: int, b: int, c: int, s: int, z: int)
    requires
        0 <= a,
        0 <= b,
        0 <= z,
        0 <= c <= z * z,
    ensures
        gap_sign(a, b, c, s) >= gap_sign(a, b, z * z, s),
{
    if s < 0 && c < s * s {
    } else {
        assert(0 <= z + s) by (nonlinear_arith)
            requires
                0 <= z,
                s < 0 ==> s * s <= z * z,
        ;
        lemma_gap_with_whole_third(a, b, z, s);
        let p = 4 * a * b;
        let k = a + b - c - s * s;
        let n = a + b - (z + s) * (z + s);
        let y = -2 * s;
        let t = lin_root_sign(k, y, c);
        // e - 2 * s * sqrt(c), the excess of t over n, is the product of
        // z - sqrt(c) and z + 2 * s + sqrt(c).
        let e = k - n;
        lemma_lin_root_nonneg(z, -1, c);
        assert((-1) * (-1) * c == c) by (nonlinear_arith);
        lemma_sum_above_offset(z, s, c);
        lemma_lin_root_product_nonneg(z, -1, z + 2 * s, 1, c);
        assert(product_whole(z, -1, z + 2 * s, 1, c) == e) by (nonlinear_arith)
            requires
                e == k - n,
                k == a + b - c - s * s,
                n == a + b - (z + s) * (z + s),
        ;
        assert(product_root(z, -1, z + 2 * s, 1) == y);
        lemma_lin_root_sign_monotone(n, 0, k, y, c);
        assert(lin_root_sign(n, 0, c) == sgn(n)) by {
            assert(signed_square(0) * c == 0) by (nonlinear_arith);
            assert(n != 0 ==> n * n > 0) by (nonlinear_arith);
        }
        if n < 0 && p >= n * n && t < 0 {
            // n * n - t * t is the product of the excess and -(n + t).
            lemma_lin_root_nonneg(-n, 0, c);
            lemma_lin_root_negate(k, y, c);
            lemma_lin_root_add_nonneg(-n, 0, -k, -y, c);
            lemma_lin_root_product_nonneg(e, y, -n - k, -y, c);
            let dx = n * n - k * k - y * y * c;
            let dw = -2 * k * y;
            assert(product_whole(e, y, -n - k, -y, c) == dx) by (nonlinear_arith)
                requires
                    e == k - n,
                    dx == n * n - k * k - y * y * c,
            {
                assert((k - n) * (-n - k) == n * n - k * k);
                assert(y * (-y) * c == -(y * y * c));
            }
            assert(product_root(e, y, -n - k, -y) == dw) by (nonlinear_arith)
                requires
                    e == k - n,
                    dw == -2 * k * y,
            ;
            lemma_lin_root_sign_monotone(p - n * n, 0, p - k * k - y * y * c, dw, c);
            assert(lin_root_sign(p - n * n, 0, c) == sgn(p - n * n)) by {
                assert(signed_square(0) * c == 0) by (nonlinear_arith);
                assert(p - n * n != 0 ==> (p - n * n) * (p - n * n) > 0) by (nonlinear_arith);
            }
        }
        assert(n < 0 ==> n * n > 0) by (nonlinear_arith);
    }
}

/// Replacing `sqrt(c)` by a whole number `z` that is not above it does not
/// lower the sign of the gap.
pub proof fn lemma_gap_third_bounded_below(a: int, b: int, c: int, s: int, z: int)
    requires
        0 <= a,
        0 <= b,
        0 <= z,
        z * z <= c,
    ensures
        gap_sign(a, b, c, s) <= gap_sign(a, b, z * z, s),
{
    if s < 0 && z * z < s * s {
    } else {
        assert(0 <= z + s) by (nonlinear_arith)
            requires
                0 <= z,
                s < 0 ==> s * s <= z * z,
        ;
        lemma_gap_with_whole_third(a, b, z, s);
        let p = 4 * a * b;
        assert(0 <= p) by (nonlinear_arith)
            requires
                0 <= a,
                0 <= b,
                p == 4 * a * b,
        ;
        let k = a + b - c - s * s;
        let n = a + b - (z + s) * (z + s);
        let y = -2 * s;
        let t = lin_root_sign(k, y, c);
        // The excess of n over t is the product of sqrt(c) - z and
        // z + 2 * s + sqrt(c).
        let e = n - k;
        lemma_lin_root_nonneg(-z, 1, c);
        assert(1 * 1 * c == c && (-z) * (-z) == z * z) by (nonlinear_arith);
        lemma_sum_above_offset(z, s, c);
        lemma_lin_root_product_nonneg(-z, 1, z + 2 * s, 1, c);
        assert(product_whole(-z, 1, z + 2 * s, 1, c) == e) by (nonlinear_arith)
            requires
                e == n - k,
                k == a + b - c - s * s,
                n == a + b - (z + s) * (z + s),
        ;
        assert(product_root(-z, 1, z + 2 * s, 1) == -y);
        lemma_lin_root_sign_monotone(k, y, n, 0, c);
        assert(lin_root_sign(n, 0, c) == sgn(n)) by {
            assert(signed_square(0) * c == 0) by (nonlinear_arith);
            assert(n != 0 ==> n * n > 0) by (nonlinear_arith);
        }
        if t < 0 {
            if n < 0 {
                // t * t - n * n is the product of the excess and -(n + t).
                lemma_lin_root_nonneg(-n, 0, c);
                lemma_lin_root_negate(k, y, c);
                lemma_lin_root_add_nonneg(-n, 0, -k, -y, c);
                lemma_lin_root_product_nonneg(e, -y, -n - k, -y, c);
                let dx = k * k + y * y * c - n * n;
                let dw = 2 * k * y;
                assert(product_whole(e, -y, -n - k, -y, c) == dx) by (nonlinear_arith)
                    requires
                        e == n - k,
                        dx == k * k + y * y * c - n * n,
                {
                    assert((n - k) * (-n - k) == k * k - n * n);
                    assert((-y) * (-y) * c == y * y * c);
                }
                assert(product_root(e, -y, -n - k, -y) == dw) by (nonlinear_arith)
                    requires
                        e == n - k,
                        dw == 2 * k * y,
                ;
                assert(0 - (-2 * k * y) == dw) by (nonlinear_arith)
                    requires
                        dw == 2 * k * y,
                ;
                lemma_lin_root_sign_monotone(p - k * k - y * y * c, -2 * k * y, p - n * n, 0, c);
                assert(lin_root_sign(p - n * n, 0, c) == sgn(p - n * n)) by {
                    assert(signed_square(0) * c == 0) by (nonlinear_arith);
                    assert(p - n * n != 0 ==> (p - n * n) * (p - n * n) > 0)
                        by (nonlinear_arith);
                }
            } else if n == 0 && p == 0 {
                lemma_lin_root_square_nonneg(k, y, c);
                lemma_lin_root_negate(k * k + y * y * c, 2 * k * y, c);
                assert(-(2 * k * y) == -2 * k * y) by (nonlinear_arith);
            }
        }
    }
}

/// `u * n * x + u * y * sqrt(n * n * c)` is `u * n` times `x + y * sqrt(c)`
/// and so has its sign, for positive `u` and `n`.
proof fn lemma_lin_root_rescale(u: int, n: int, x: int, y: int, c: int)
    requires
        0 < u,
        0 < n,
    ensures
        lin_root_sign(u * n * x, u * y, n * n * c) == lin_root_sign(x, y, c),
{
    let m = u * n;
    assert(0 < m) by (nonlinear_arith)
        requires
            0 < u,
            0 < n,
            m == u * n,
    ;
    assert(signed_square(m * x) == m * m * signed_square(x)) by (nonlinear_arith)
        requires
            0 < m,
    ;
    assert(signed_square(u * y) * (n * n * c) == m * m * (signed_square(y) * c))
        by (nonlinear_arith)
        requires
            0 < u,
            m == u * n,
    {
        assert(signed_square(u * y) == u * u * signed_square(y));
        assert(m * m == u * u * (n * n));
    }
    let f = signed_square(x) + signed_square(y) * c;
    assert(sgn(m * m * signed_square(x) + m * m * (signed_square(y) * c)) == sgn(f))
        by (nonlinear_arith)
        requires
            0 < m,
            f == signed_square(x) + signed_square(y) * c,
    ;
}

/// Measuring in units `n` times smaller does not change the sign of a gap:
/// the roots of `n * n * a`, `n * n * b` and `n * n * c` are `n` times those
/// of `a`, `b` and `c`.
pub proof fn lemma_gap_scale(n: int, a: int, b: int, c: int, s: int)
    requires
        0 < n,
    ensures
        gap_sign(n * n * a, n * n * b, n * n * c, n * s) == gap_sign(a, b, c, s),
{
    let nn = n * n;
    assert(0 < nn) by (nonlinear_arith)
        requires
            0 < n,
            nn == n * n,
    ;
    assert((n * s) * (n * s) == nn * (s * s)) by (nonlinear_arith)
        requires
            nn == n * n,
    ;
    assert(nn * c < nn * (s * s) <==> c < s * s) by (nonlinear_arith)
        requires
            0 < nn,
    ;
    assert(n * s < 0 <==> s < 0) by (nonlinear_arith)
        requires
            0 < n,
    ;
    if !(s < 0 && c < s * s) {
        let k = a + b - c - s * s;
        let p = 4 * a * b;
        let y = -2 * s;
        let k2 = nn * a + nn * b - nn * c - (n * s) * (n * s);
        let p2 = 4 * (nn * a) * (nn * b);
        let y2 = -2 * (n * s);
        assert(k2 == n * n * k) by (nonlinear_arith)
            requires
                k2 == nn * a + nn * b - nn * c - nn * (s * s),
                k == a + b - c - s * s,
                nn == n * n,
        ;
        assert(y2 == n * y) by (nonlinear_arith)
            requires
                y2 == -2 * (n * s),
                y == -2 * s,
        ;
        assert(p2 == nn * nn * p) by (nonlinear_arith)
            requires
                p2 == 4 * (nn * a) * (nn * b),
                p == 4 * a * b,
        ;
        assert(p2 > 0 <==> p > 0) by (nonlinear_arith)
            requires
                p2 == nn * nn * p,
                0 < nn,
        ;
        lemma_lin_root_rescale(n, n, k, y, c);
        let x = p - k * k - y * y * c;
        let w = -2 * k * y;
        let x2 = p2 - k2 * k2 - y2 * y2 * (nn * c);
        let w2 = -2 * k2 * y2;
        let u = nn * n;
        assert(0 < u) by (nonlinear_arith)
            requires
                0 < nn,
                0 < n,
                u == nn * n,
        ;
        assert(x2 == u * n * x) by (nonlinear_arith)
            requires
                x2 == p2 - k2 * k2 - y2 * y2 * (nn * c),
                x == p - k * k - y * y * c,
                p2 == nn * nn * p,
                k2 == nn * k,
                y2 == n * y,
                nn == n * n,
                u == nn * n,
        {
            assert(k2 * k2 == nn * nn * (k * k));
            assert(y2 * y2 * (nn * c) == nn * nn * (y * y * c));
            assert(u * n == nn * nn);
        }
        assert(w2 == u * w) by (nonlinear_arith)
            requires
                w2 == -2 * k2 * y2,
                w == -2 * k * y,
                k2 == nn * k,
                y2 == n * y,
                u == nn * n,
        {
            assert(k2 * y2 == nn * n * (k * y));
        }
        lemma_lin_root_rescale(u, n, x, w, c);
    }
}

/// Whole numbers `x`, `y` at or below the first two roots and `z` at or above
/// the third bound the gap from below: the sign of
/// `sqrt(a) + sqrt(b) - (sqrt(c) + s)` is not below that of `x + y - (z + s)`.
pub proof fn lemma_gap_bounded_below(a: int, b: int, c: int, s: int, x: int, y: int, z: int)
    requires
        0 <= x,
        0 <= y,
        0 <= z,
        x * x <= a,
        y * y <= b,
        0 <= c <= z * z,
    ensures
        gap_sign(a, b, c, s) >= sgn(x + y - z - s),
{
    assert(0 <= x * x && 0 <= y * y) by (nonlinear_arith);
    lemma_gap_grows_with_first(x * x, a, b, c, s);
    lemma_gap_grows_with_second(x * x, y * y, b, c, s);
    lemma_gap_third_bounded_above(x * x, y * y, c, s, z);
    lemma_gap_sign_of_squares(x, y, z, s);
}

/// Whole numbers `x`, `y` at or above the first two roots and `z` at or below
/// the third bound the gap from above: the sign of
/// `sqrt(a) + sqrt(b) - (sqrt(c) + s)` is not above that of `x + y - (z + s)`.
pub proof fn lemma_gap_bounded_above(a: int, b: int, c: int, s: int, x: int, y: int, z: int)
    requires
        0 <= x,
        0 <= y,
        0 <= z,
        0 <= a <= x * x,
        0 <= b <= y * y,
        z * z <= c,
    ensures
        gap_sign(a, b, c, s) <= sgn(x + y - z - s),
{
    lemma_gap_grows_with_first(a, x * x, b, c, s);
    lemma_gap_grows_with_second(x * x, b, y * y, c, s);
    lemma_gap_third_bounded_below(x * x, y * y, c, s, z);
    lemma_gap_sign_of_squares(x, y, z, s);
}

/// The bounds of `lemma_gap_bounded_below`, with fractions `x / n`, `y / n`
/// and `z / n` in place of whole numbers.
pub proof fn lemma_gap_bounded_below_by_fractions(
    a: int,
    b: int,
    c: int,
    s: int,
    n: int,
    x: int,
    y: int,
    z: int,
)
    requires
        0 < n,
        0 <= x,
        0 <= y,
        0 <= z,
        x * x <= n * n * a,
        y * y <= n * n * b,
        0 <= c,
        n * n * c <= z * z,
    ensures
        gap_sign(a, b, c, s) >= sgn(x + y - z - n * s),
{
    assert(0 <= n * n * c) by (nonlinear_arith)
        requires
            0 <= c,
    ;
    lemma_gap_scale(n, a, b, c, s);
    lemma_gap_bounded_below(n * n * a, n * n * b, n * n * c, n * s, x, y, z);
}

/// The bounds of `lemma_gap_bounded_above`, with fractions `x / n`, `y / n`
/// and `z / n` in place of whole numbers.
pub proof fn lemma_gap_bounded_above_by_fractions(
    a: int,
    b: int,
    c: int,
    s: int,
    n: int,
    x: int,
    y: int,
    z: int,
)
    requires
        0 < n,
        0 <= x,
        0 <= y,
        0 <= z,
        0 <= a,
        0 <= b,
        n * n * a <= x * x,
        n * n * b <= y * y,
        z * z <= n * n * c,
    ensures
        gap_sign(a, b, c, s) <= sgn(x + y - z - n * s),
{
    assert(0 <= n * n * a && 0 <= n * n * b) by (nonlinear_arith)
        requires
            0 <= a,
            0 <= b,
    ;
    lemma_gap_scale(n, a, b, c, s);
    lemma_gap_bounded_above(n * n * a, n * n * b, n * n * c, n * s, x, y, z);
}

/// Whether `a`, `b` and `c` can be the squares of the sides of a triangle,
/// flat ones included: `sqrt(c)` lies between the difference and the sum of
/// `sqrt(a)` and `sqrt(b)`.
pub open spec fn triangle_squares(a: int, b: int, c: int) -> bool {
    &&& 0 <= a
    &&& 0 <= b
    &&& 0 <= c
    &&& (c - a - b) * (c - a - b) <= 4 * a * b
}

/// Two sides of a triangle together are longer than the third side less any
/// positive amount: for the squares `a`, `b`, `c` of the sides of a triangle
/// and `r > 0`, `sqrt(a) + sqrt(b)` exceeds `sqrt(c) - r`.
pub proof fn lemma_gap_of_triangle(a: int, b: int, c: int, r: int)
    requires
        triangle_squares(a, b, c),
        0 < r,
    ensures
        gap_sign(a, b, c, -r) == 1,
{
    let s = -r;
    assert(s * s == r * r && 0 < r * r) by (nonlinear_arith)
        requires
            s == -r,
            0 < r,
    ;
    if !(c < s * s) {
        let e = c - a - b;
        let k = a + b - c - s * s;
        let p = 4 * a * b;
        let y = -2 * s;
        let t = lin_root_sign(k, y, c);
        // 2 * r * sqrt(c) - r * r is positive.
        lemma_lin_root_nonneg(-(r * r), y, c);
        lemma_lin_root_nonneg(r * r, -y, c);
        lemma_lin_root_negate(r * r, -y, c);
        assert(y * y * c > (r * r) * (r * r)) by (nonlinear_arith)
            requires
                y == 2 * r,
                0 < r,
                r * r <= c,
        {
            assert(y * y * c == 4 * (r * r) * c);
            assert(4 * (r * r) * c >= 4 * (r * r) * (r * r));
            assert((r * r) * (r * r) > 0);
        }
        assert((-(r * r)) * (-(r * r)) == (r * r) * (r * r) && (-y) * (-y) * c == y * y * c)
            by (nonlinear_arith);
        assert(lin_root_sign(-(r * r), y, c) == 1);
        if t <= 0 {
            // Then e is positive, for t is 2 * r * sqrt(c) - r * r less e.
            if e <= 0 {
                lemma_lin_root_nonneg(-e, 0, c);
                lemma_lin_root_sign_monotone(-(r * r), y, k, y, c);
            }
            assert(0 < e * e) by (nonlinear_arith)
                requires
                    0 < e,
            ;
            if t < 0 {
                let x = p - k * k - y * y * c;
                let w = -2 * k * y;
                // (e + t) * (e - t - 1) is not negative, so e * e - t * t is
                // at least e + t, which is positive.
                lemma_lin_root_negate(k, y, c);
                lemma_lin_root_nonneg(e - 1, 0, c);
                lemma_lin_root_add_nonneg(e - 1, 0, -k, -y, c);
                lemma_lin_root_product_nonneg(-(r * r), y, e - 1 - k, -y, c);
                let hx = product_whole(-(r * r), y, e - 1 - k, -y, c);
                let hw = product_root(-(r * r), y, e - 1 - k, -y);
                assert(hx == e * e - k * k - y * y * c - (-(r * r))) by (nonlinear_arith)
                    requires
                        hx == (-(r * r)) * (e - 1 - k) + y * (-y) * c,
                        k == -e - r * r,
                {
                    assert((-(r * r)) * (e - 1 - k) == (e + k) * (e - k) - (e + k));
                    assert((e + k) * (e - k) == e * e - k * k);
                    assert(y * (-y) * c == -(y * y * c));
                }
                assert(hw == w - y) by (nonlinear_arith)
                    requires
                        hw == (-(r * r)) * (-y) + (e - 1 - k) * y,
                        w == -2 * k * y,
                        k == -e - r * r,
                ;
                lemma_lin_root_sign_monotone(-(r * r), y, e * e - k * k - y * y * c, w, c);
                lemma_lin_root_nonneg(p - e * e, 0, c);
                lemma_lin_root_sign_monotone(e * e - k * k - y * y * c, w, x, w, c);
            }
        }
    }
}

/// Where `sqrt(a) + sqrt(b)` is exactly `sqrt(c)`, it is below `sqrt(c) + r`
/// for every positive `r`. The two roots add up to the third exactly when
/// `c - a - b` is not negative and its square is `4 * a * b`.
pub proof fn lemma_gap_of_flat_triangle(a: int, b: int, c: int, r: int)
    requires
        0 <= a,
        0 <= b,
        0 <= c,
        a + b <= c,
        (c - a - b) * (c - a - b) == 4 * a * b,
        0 < r,
    ensures
        gap_sign(a, b, c, r) == -1,
{
    let e = c - a - b;
    let k = a + b - c - r * r;
    let p = 4 * a * b;
    let y = -2 * r;
    assert(0 < r * r) by (nonlinear_arith)
        requires
            0 < r,
    ;
    assert(k < 0);
    // k - 2 * r * sqrt(c) is negative.
    lemma_lin_root_nonneg(k, y, c);
    // Its square exceeds p, which is the square of e.
    let x = p - k * k - y * y * c;
    let w = -2 * k * y;
    lemma_lin_root_nonneg(x, w, c);
    assert(x < 0) by (nonlinear_arith)
        requires
            x == e * e - k * k - y * y * c,
            k == -e - r * r,
            0 <= e,
            0 < r * r,
            0 <= c,
    {
        assert(k * k == e * e + 2 * (e * (r * r)) + (r * r) * (r * r));
        assert(0 <= e * (r * r));
        assert(0 < (r * r) * (r * r));
        assert(0 <= y * y * c);
    }
    assert(w < 0) by (nonlinear_arith)
        requires
            w == -2 * k * y,
            k < 0,
            y == -2 * r,
            0 < r,
    ;
}

} // verus!
