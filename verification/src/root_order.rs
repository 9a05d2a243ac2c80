//! The order of the numbers `x + y * sqrt(c)`, for whole `x` and `y` and a
//! fixed `c >= 0`, as `lin_root_sign` decides it: sums and products of
//! numbers that are not negative are not negative.

use crate::roots::lin_root_sign;
use crate::roots::sgn;
use crate::roots::signed_square;
use vstd::prelude::*;

verus! {

/// `x + y * sqrt(c)` is not negative: `x` and `y` are both not negative, or
/// the one of them that is negative is outweighed by the other.
pub open spec fn lin_root_nonneg(x: int, y: int, c: int) -> bool {
    ||| x >= 0 && y >= 0
    ||| x >= 0 && y < 0 && x * x >= y * y * c
    ||| x < 0 && y > 0 && y * y * c >= x * x
}

/// `lin_root_sign` is not negative exactly where `lin_root_nonneg` holds.
pub proof fn lemma_lin_root_nonneg(x: int, y: int, c: int)
    requires
        0 <= c,
    ensures
        lin_root_sign(x, y, c) >= 0 <==> lin_root_nonneg(x, y, c),
{
    let xx = x * x;
    let yyc = y * y * c;
    assert(0 <= xx && 0 <= yyc) by (nonlinear_arith)
        requires
            0 <= c,
            xx == x * x,
            yyc == y * y * c,
    ;
    assert(x != 0 ==> 0 < xx) by (nonlinear_arith)
        requires
            xx == x * x,
    ;
    assert(y == 0 ==> yyc == 0) by (nonlinear_arith)
        requires
            yyc == y * y * c,
    ;
    assert(signed_square(y) * c == if y >= 0 {
        yyc
    } else {
        -yyc
    }) by (nonlinear_arith)
        requires
            yyc == y * y * c,
    ;
    assert(signed_square(x) == if x >= 0 {
        xx
    } else {
        -xx
    });
}

/// The hard case of adding two numbers that are not negative: `u - m *
/// sqrt(c)` and `n * sqrt(c) - v`.
proof fn lemma_cross_sum(u: int, v: int, m: int, n: int, c: int)
    by (nonlinear_arith)
    requires
        0 <= c,
        0 <= v <= u,
        0 <= n < m,
        u * u >= m * m * c,
        n * n * c >= v * v,
    ensures
        (u - v) * (u - v) >= (m - n) * (m - n) * c,
{
}

/// Adding a number with both parts not negative to `x2 - |y2| * sqrt(c)`.
proof fn lemma_sum_plain_down(x1: int, y1: int, x2: int, y2: int, c: int)
    by (nonlinear_arith)
    requires
        0 <= c,
        0 <= x1,
        0 <= y1,
        0 <= x2,
        y2 < 0,
        x2 * x2 >= y2 * y2 * c,
        y1 + y2 < 0,
    ensures
        (x1 + x2) * (x1 + x2) >= (y1 + y2) * (y1 + y2) * c,
{
    assert((y1 + y2) * (y1 + y2) <= y2 * y2);
    assert((x1 + x2) * (x1 + x2) >= x2 * x2);
    assert((y1 + y2) * (y1 + y2) * c <= y2 * y2 * c);
}

/// Adding a number with both parts not negative to `y2 * sqrt(c) - |x2|`.
proof fn lemma_sum_plain_up(x1: int, y1: int, x2: int, y2: int, c: int)
    by (nonlinear_arith)
    requires
        0 <= c,
        0 <= x1,
        0 <= y1,
        x2 < 0,
        0 < y2,
        y2 * y2 * c >= x2 * x2,
        x1 + x2 < 0,
    ensures
        (y1 + y2) * (y1 + y2) * c >= (x1 + x2) * (x1 + x2),
{
    assert((x1 + x2) * (x1 + x2) <= x2 * x2);
    assert((y1 + y2) * (y1 + y2) >= y2 * y2);
    assert((y1 + y2) * (y1 + y2) * c >= y2 * y2 * c);
}

/// Adding `x1 - |y1| * sqrt(c)` and `x2 - |y2| * sqrt(c)`.
proof fn lemma_sum_down_down(x1: int, y1: int, x2: int, y2: int, c: int)
    by (nonlinear_arith)
    requires
        0 <= c,
        0 <= x1,
        0 <= x2,
        y1 <= 0,
        y2 <= 0,
        x1 * x1 >= y1 * y1 * c,
        x2 * x2 >= y2 * y2 * c,
    ensures
        (x1 + x2) * (x1 + x2) >= (y1 + y2) * (y1 + y2) * c,
{
    assert((x1 * x2) * (x1 * x2) >= (y1 * y2 * c) * (y1 * y2 * c)) by {
        assert((x1 * x2) * (x1 * x2) == (x1 * x1) * (x2 * x2));
        assert((y1 * y2 * c) * (y1 * y2 * c) == (y1 * y1 * c) * (y2 * y2 * c));
        assert(0 <= y1 * y1 * c && 0 <= y2 * y2 * c);
    }
    assert(0 <= x1 * x2 && 0 <= y1 * y2 * c);
    assert(x1 * x2 >= y1 * y2 * c);
    assert((x1 + x2) * (x1 + x2) == x1 * x1 + 2 * (x1 * x2) + x2 * x2);
    assert((y1 + y2) * (y1 + y2) * c == y1 * y1 * c + 2 * (y1 * y2 * c) + y2 * y2 * c);
}

/// Adding `y1 * sqrt(c) - |x1|` and `y2 * sqrt(c) - |x2|`.
proof fn lemma_sum_up_up(x1: int, y1: int, x2: int, y2: int, c: int)
    by (nonlinear_arith)
    requires
        0 <= c,
        x1 <= 0,
        x2 <= 0,
        0 <= y1,
        0 <= y2,
        y1 * y1 * c >= x1 * x1,
        y2 * y2 * c >= x2 * x2,
    ensures
        (y1 + y2) * (y1 + y2) * c >= (x1 + x2) * (x1 + x2),
{
    assert((y1 * y2 * c) * (y1 * y2 * c) >= (x1 * x2) * (x1 * x2)) by {
        assert((x1 * x2) * (x1 * x2) == (x1 * x1) * (x2 * x2));
        assert((y1 * y2 * c) * (y1 * y2 * c) == (y1 * y1 * c) * (y2 * y2 * c));
    }
    assert(0 <= x1 * x2 && 0 <= y1 * y2 * c);
    assert(y1 * y2 * c >= x1 * x2);
    assert((x1 + x2) * (x1 + x2) == x1 * x1 + 2 * (x1 * x2) + x2 * x2);
    assert((y1 + y2) * (y1 + y2) * c == y1 * y1 * c + 2 * (y1 * y2 * c) + y2 * y2 * c);
}

/// The mirror image of `lemma_cross_sum`.
proof fn lemma_cross_sum_up(u: int, v: int, m: int, n: int, c: int)
    by (nonlinear_arith)
    requires
        0 <= c,
        0 <= u <= v,
        0 <= m <= n,
        u * u >= m * m * c,
        n * n * c >= v * v,
    ensures
        (n - m) * (n - m) * c >= (v - u) * (v - u),
{
}

/// Where `u - m * sqrt(c)` and `n * sqrt(c) - v` are both not negative and
/// their root parts do not add up to a positive one, their whole parts do not
/// add up to a negative one.
proof fn lemma_cross_sum_sign(u: int, v: int, m: int, n: int, c: int)
    by (nonlinear_arith)
    requires
        0 <= c,
        0 <= u,
        0 <= v,
        0 <= n <= m,
        u * u >= m * m * c,
        n * n * c >= v * v,
    ensures
        v <= u,
{
    assert(m * m * c >= n * n * c) by {
        assert(m * m >= n * n);
    }
    assert(v * v <= u * u);
}

/// The sum of two numbers `x + y * sqrt(c)` that are not negative is not
/// negative.
pub proof fn lemma_lin_root_add_nonneg(x1: int, y1: int, x2: int, y2: int, c: int)
    requires
        0 <= c,
        lin_root_sign(x1, y1, c) >= 0,
        lin_root_sign(x2, y2, c) >= 0,
    ensures
        lin_root_sign(x1 + x2, y1 + y2, c) >= 0,
{
    lemma_lin_root_nonneg(x1, y1, c);
    lemma_lin_root_nonneg(x2, y2, c);
    lemma_lin_root_nonneg(x1 + x2, y1 + y2, c);
    let x = x1 + x2;
    let y = y1 + y2;
    if x1 >= 0 && y1 >= 0 {
        if x2 >= 0 && y2 >= 0 {
        } else if x2 >= 0 {
            if y < 0 {
                lemma_sum_plain_down(x1, y1, x2, y2, c);
            }
        } else {
            if x < 0 {
                lemma_sum_plain_up(x1, y1, x2, y2, c);
            }
        }
    } else if x1 >= 0 {
        if x2 >= 0 && y2 >= 0 {
            if y < 0 {
                lemma_sum_plain_down(x2, y2, x1, y1, c);
            }
        } else if x2 >= 0 {
            lemma_sum_down_down(x1, y1, x2, y2, c);
        } else {
            assert((-x2) * (-x2) == x2 * x2 && (-y1) * (-y1) * c == y1 * y1 * c)
                by (nonlinear_arith);
            if x >= 0 && y < 0 {
                lemma_cross_sum(x1, -x2, -y1, y2, c);
                assert((x1 - (-x2)) * (x1 - (-x2)) == x * x && ((-y1) - y2) * ((-y1) - y2) * c
                    == y * y * c) by (nonlinear_arith)
                    requires
                        x == x1 + x2,
                        y == y1 + y2,
                ;
            } else if x < 0 && y > 0 {
                lemma_cross_sum_up(x1, -x2, -y1, y2, c);
                assert(((-x2) - x1) * ((-x2) - x1) == x * x && (y2 - (-y1)) * (y2 - (-y1)) * c
                    == y * y * c) by (nonlinear_arith)
                    requires
                        x == x1 + x2,
                        y == y1 + y2,
                ;
            } else if x < 0 {
                lemma_cross_sum_sign(x1, -x2, -y1, y2, c);
            }
        }
    } else {
        if x2 >= 0 && y2 >= 0 {
            if x < 0 {
                lemma_sum_plain_up(x2, y2, x1, y1, c);
            }
        } else if x2 >= 0 {
            assert((-x1) * (-x1) == x1 * x1 && (-y2) * (-y2) * c == y2 * y2 * c)
                by (nonlinear_arith);
            if x >= 0 && y < 0 {
                lemma_cross_sum(x2, -x1, -y2, y1, c);
                assert((x2 - (-x1)) * (x2 - (-x1)) == x * x && ((-y2) - y1) * ((-y2) - y1) * c
                    == y * y * c) by (nonlinear_arith)
                    requires
                        x == x1 + x2,
                        y == y1 + y2,
                ;
            } else if x < 0 && y > 0 {
                lemma_cross_sum_up(x2, -x1, -y2, y1, c);
                assert(((-x1) - x2) * ((-x1) - x2) == x * x && (y1 - (-y2)) * (y1 - (-y2)) * c
                    == y * y * c) by (nonlinear_arith)
                    requires
                        x == x1 + x2,
                        y == y1 + y2,
                ;
            } else if x < 0 {
                lemma_cross_sum_sign(x2, -x1, -y2, y1, c);
            }
        } else {
            lemma_sum_up_up(x1, y1, x2, y2, c);
        }
    }
}

/// The sign of `-(x + y * sqrt(c))` is the opposite of that of `x + y * sqrt(c)`.
pub proof fn lemma_lin_root_negate(x: int, y: int, c: int)
    ensures
        lin_root_sign(-x, -y, c) == -lin_root_sign(x, y, c),
{
    assert((-x) * (-x) == x * x && (-y) * (-y) == y * y) by (nonlinear_arith);
    assert(signed_square(-x) == -signed_square(x));
    assert(signed_square(-y) * c == -(signed_square(y) * c)) by (nonlinear_arith)
        requires
            signed_square(-y) == -signed_square(y),
    ;
}

/// Where `x2 + y2 * sqrt(c)` exceeds `x1 + y1 * sqrt(c)` by a number that is
/// not negative, its sign is not below that of `x1 + y1 * sqrt(c)`.
pub proof fn lemma_lin_root_sign_monotone(x1: int, y1: int, x2: int, y2: int, c: int)
    requires
        0 <= c,
        lin_root_sign(x2 - x1, y2 - y1, c) >= 0,
    ensures
        lin_root_sign(x1, y1, c) <= lin_root_sign(x2, y2, c),
{
    if lin_root_sign(x1, y1, c) >= 0 {
        lemma_lin_root_add_nonneg(x1, y1, x2 - x1, y2 - y1, c);
    }
    if lin_root_sign(x2, y2, c) <= 0 {
        lemma_lin_root_negate(x2, y2, c);
        lemma_lin_root_add_nonneg(-x2, -y2, x2 - x1, y2 - y1, c);
        lemma_lin_root_negate(x1, y1, c);
    }
}

/// Multiplying `x + y * sqrt(c)` by a positive whole number keeps its sign.
pub proof fn lemma_lin_root_scale(m: int, x: int, y: int, c: int)
    requires
        0 < m,
    ensures
        lin_root_sign(m * x, m * y, c) == lin_root_sign(x, y, c),
{
    assert(signed_square(m * x) == m * m * signed_square(x)) by (nonlinear_arith)
        requires
            0 < m,
    ;
    assert(signed_square(m * y) * c == m * m * (signed_square(y) * c)) by (nonlinear_arith)
        requires
            0 < m,
    ;
    let f = signed_square(x) + signed_square(y) * c;
    assert(sgn(m * m * signed_square(x) + m * m * (signed_square(y) * c)) == sgn(f))
        by (nonlinear_arith)
        requires
            0 < m,
            f == signed_square(x) + signed_square(y) * c,
    ;
}

/// The square of `k + y * sqrt(c)`, which is `k * k + y * y * c + 2 * k * y *
/// sqrt(c)`, is not negative.
pub proof fn lemma_lin_root_square_nonneg(k: int, y: int, c: int)
    requires
        0 <= c,
    ensures
        lin_root_sign(k * k + y * y * c, 2 * k * y, c) >= 0,
{
    lemma_lin_root_nonneg(k * k + y * y * c, 2 * k * y, c);
    let x = k * k + y * y * c;
    let w = 2 * k * y;
    assert(0 <= x) by (nonlinear_arith)
        requires
            0 <= c,
            x == k * k + y * y * c,
    ;
    assert(x * x >= w * w * c) by (nonlinear_arith)
        requires
            0 <= c,
            x == k * k + y * y * c,
            w == 2 * k * y,
    {
        assert(x * x - w * w * c == (k * k - y * y * c) * (k * k - y * y * c));
    }
}

/// Multiplying `x + y * sqrt(c)` by a whole number that is not negative
/// keeps it from being negative.
pub proof fn lemma_lin_root_scale_nonneg(m: int, x: int, y: int, c: int)
    requires
        0 <= m,
        0 <= c,
        lin_root_sign(x, y, c) >= 0,
    ensures
        lin_root_sign(m * x, m * y, c) >= 0,
{
    if m == 0 {
        assert(m * x == 0 && m * y == 0) by (nonlinear_arith)
            requires
                m == 0,
        ;
        lemma_lin_root_nonneg(0, 0, c);
    } else {
        lemma_lin_root_scale(m, x, y, c);
    }
}

/// Multiplying a number `x + y * sqrt(c)` that is not negative by `sqrt(c)`
/// gives `y * c + x * sqrt(c)`, which is not negative either.
pub proof fn lemma_lin_root_times_root(x: int, y: int, c: int)
    requires
        0 <= c,
        lin_root_sign(x, y, c) >= 0,
    ensures
        lin_root_sign(y * c, x, c) >= 0,
{
    lemma_lin_root_nonneg(x, y, c);
    lemma_lin_root_nonneg(y * c, x, c);
    assert(y >= 0 ==> y * c >= 0) by (nonlinear_arith)
        requires
            0 <= c,
    ;
    assert(y < 0 ==> y * c <= 0) by (nonlinear_arith)
        requires
            0 <= c,
    ;
    assert(x * x >= y * y * c ==> x * x * c >= (y * c) * (y * c)) by (nonlinear_arith)
        requires
            0 <= c,
    ;
    assert(y * y * c >= x * x ==> (y * c) * (y * c) >= x * x * c) by (nonlinear_arith)
        requires
            0 <= c,
    ;
    assert(y > 0 && y * c == 0 ==> c == 0) by (nonlinear_arith);
    assert(c == 0 ==> y * y * c == 0) by (nonlinear_arith);
    assert(x < 0 ==> x * x > 0) by (nonlinear_arith);
}

/// The whole part and the root part of the product of `x1 + y1 * sqrt(c)` and
/// `x2 + y2 * sqrt(c)`.
pub open spec fn product_whole(x1: int, y1: int, x2: int, y2: int, c: int) -> int {
    x1 * x2 + y1 * y2 * c
}

/// See `product_whole`.
pub open spec fn product_root(x1: int, y1: int, x2: int, y2: int) -> int {
    x1 * y2 + x2 * y1
}

/// The norm `x * x - y * y * c` of a product is the product of the norms.
proof fn lemma_norm_of_product(x1: int, y1: int, x2: int, y2: int, c: int)
    ensures
        product_whole(x1, y1, x2, y2, c) * product_whole(x1, y1, x2, y2, c) - product_root(
            x1,
            y1,
            x2,
            y2,
        ) * product_root(x1, y1, x2, y2) * c == (x1 * x1 - y1 * y1 * c) * (x2 * x2 - y2 * y2 * c),
{
    let a = x1 * x2;
    let b = y1 * y2 * c;
    let p = x1 * y2;
    let q = x2 * y1;
    let a1 = x1 * x1;
    let b1 = y1 * y1 * c;
    let a2 = x2 * x2;
    let b2 = y2 * y2 * c;
    assert(a * a == a1 * a2) by (nonlinear_arith)
        requires
            a == x1 * x2,
            a1 == x1 * x1,
            a2 == x2 * x2,
    ;
    assert(b * b == b1 * b2) by (nonlinear_arith)
        requires
            b == y1 * y2 * c,
            b1 == y1 * y1 * c,
            b2 == y2 * y2 * c,
    ;
    assert(p * p * c == a1 * b2) by (nonlinear_arith)
        requires
            p == x1 * y2,
            a1 == x1 * x1,
            b2 == y2 * y2 * c,
    ;
    assert(q * q * c == a2 * b1) by (nonlinear_arith)
        requires
            q == x2 * y1,
            a2 == x2 * x2,
            b1 == y1 * y1 * c,
    ;
    assert(p * q * c == a * b) by (nonlinear_arith)
        requires
            p == x1 * y2,
            q == x2 * y1,
            a == x1 * x2,
            b == y1 * y2 * c,
    ;
    assert((a + b) * (a + b) == a * a + 2 * (a * b) + b * b) by (nonlinear_arith);
    assert((p + q) * (p + q) * c == p * p * c + 2 * (p * q * c) + q * q * c) by (nonlinear_arith);
    assert((a1 - b1) * (a2 - b2) == a1 * a2 - a1 * b2 - a2 * b1 + b1 * b2) by (nonlinear_arith);
}

/// The product of two numbers neither of which has both parts not negative.
proof fn lemma_product_mixed(x1: int, y1: int, x2: int, y2: int, c: int)
    requires
        0 <= c,
        lin_root_nonneg(x1, y1, c),
        lin_root_nonneg(x2, y2, c),
        !(x1 >= 0 && y1 >= 0),
        !(x2 >= 0 && y2 >= 0),
    ensures
        lin_root_nonneg(product_whole(x1, y1, x2, y2, c), product_root(x1, y1, x2, y2), c),
{
    let x = product_whole(x1, y1, x2, y2, c);
    let y = product_root(x1, y1, x2, y2);
    let n1 = x1 * x1 - y1 * y1 * c;
    let n2 = x2 * x2 - y2 * y2 * c;
    lemma_norm_of_product(x1, y1, x2, y2, c);
    if x1 >= 0 && x2 >= 0 {
        assert(x >= 0 && y <= 0 && n1 * n2 >= 0) by (nonlinear_arith)
            requires
                x == x1 * x2 + y1 * y2 * c,
                y == x1 * y2 + x2 * y1,
                0 <= c,
                x1 >= 0,
                x2 >= 0,
                y1 < 0,
                y2 < 0,
                n1 >= 0,
                n2 >= 0,
        ;
    } else if x1 < 0 && x2 < 0 {
        assert(x >= 0 && y <= 0 && n1 * n2 >= 0) by (nonlinear_arith)
            requires
                x == x1 * x2 + y1 * y2 * c,
                y == x1 * y2 + x2 * y1,
                0 <= c,
                x1 < 0,
                x2 < 0,
                y1 > 0,
                y2 > 0,
                n1 <= 0,
                n2 <= 0,
        ;
    } else if x1 >= 0 {
        assert(x <= 0 && y >= 0 && n1 * n2 <= 0) by (nonlinear_arith)
            requires
                x == x1 * x2 + y1 * y2 * c,
                y == x1 * y2 + x2 * y1,
                0 <= c,
                x1 >= 0,
                x2 < 0,
                y1 < 0,
                y2 > 0,
                n1 >= 0,
                n2 <= 0,
        ;
        assert(y == 0 ==> y * y * c == 0) by (nonlinear_arith);
        assert(x < 0 ==> x * x > 0) by (nonlinear_arith);
    } else {
        assert(x <= 0 && y >= 0 && n1 * n2 <= 0) by (nonlinear_arith)
            requires
                x == x1 * x2 + y1 * y2 * c,
                y == x1 * y2 + x2 * y1,
                0 <= c,
                x1 < 0,
                x2 >= 0,
                y1 > 0,
                y2 < 0,
                n1 <= 0,
                n2 >= 0,
        ;
        assert(y == 0 ==> y * y * c == 0) by (nonlinear_arith);
        assert(x < 0 ==> x * x > 0) by (nonlinear_arith);
    }
}

/// The product of two numbers `x + y * sqrt(c)` that are not negative is not
/// negative.
pub proof fn lemma_lin_root_product_nonneg(x1: int, y1: int, x2: int, y2: int, c: int)
    requires
        0 <= c,
        lin_root_sign(x1, y1, c) >= 0,
        lin_root_sign(x2, y2, c) >= 0,
    ensures
        lin_root_sign(product_whole(x1, y1, x2, y2, c), product_root(x1, y1, x2, y2), c) >= 0,
{
    let x = product_whole(x1, y1, x2, y2, c);
    let y = product_root(x1, y1, x2, y2);
    lemma_lin_root_nonneg(x1, y1, c);
    lemma_lin_root_nonneg(x2, y2, c);
    lemma_lin_root_nonneg(x, y, c);
    if x1 >= 0 && y1 >= 0 {
        // x1 times the second number, plus y1 times sqrt(c) times it.
        lemma_lin_root_scale_nonneg(x1, x2, y2, c);
        lemma_lin_root_times_root(x2, y2, c);
        lemma_lin_root_scale_nonneg(y1, y2 * c, x2, c);
        lemma_lin_root_add_nonneg(x1 * x2, x1 * y2, y1 * (y2 * c), y1 * x2, c);
        assert(x1 * x2 + y1 * (y2 * c) == x && x1 * y2 + y1 * x2 == y) by (nonlinear_arith)
            requires
                x == x1 * x2 + y1 * y2 * c,
                y == x1 * y2 + x2 * y1,
        ;
    } else if x2 >= 0 && y2 >= 0 {
        lemma_lin_root_scale_nonneg(x2, x1, y1, c);
        lemma_lin_root_times_root(x1, y1, c);
        lemma_lin_root_scale_nonneg(y2, y1 * c, x1, c);
        lemma_lin_root_add_nonneg(x2 * x1, x2 * y1, y2 * (y1 * c), y2 * x1, c);
        assert(x2 * x1 + y2 * (y1 * c) == x && x2 * y1 + y2 * x1 == y) by (nonlinear_arith)
            requires
                x == x1 * x2 + y1 * y2 * c,
                y == x1 * y2 + x2 * y1,
        ;
    } else {
        lemma_product_mixed(x1, y1, x2, y2, c);
    }
}

} // verus!
