//! Positions, line segments and the collision test between a segment and the ball.

use crate::ball::Ball;
use crate::roots::gap_sign;
use crate::roots::gap_sign_of;
use crate::root_laws::lemma_gap_bounded_above_by_fractions;
use crate::root_laws::lemma_gap_bounded_below;
use crate::root_laws::lemma_gap_bounded_below_by_fractions;
use crate::root_laws::lemma_gap_of_flat_triangle;
use crate::root_laws::lemma_gap_of_triangle;
use crate::root_laws::lemma_gap_symmetric;
use crate::root_laws::triangle_squares;
use crate::roots::lemma_square_bound;
use crate::roots::sgn;
use crate::roots::signed_square;
use vstd::prelude::*;

verus! {

/// Longest extent, along either axis, of a segment that the collision test
/// supports, and largest radius of a ball: `2^28`.
pub const MAX_EXTENT: i64 = 0x1000_0000;

/// Largest magnitude of a coordinate for which sums and differences of
/// coordinates, and squared distances, are computed without overflow.
pub const COORD_MAX: i64 = 0x2000_0000_0000_0000;

/// A point of the court, in whole court units.
#[derive(Clone, Copy, Debug, PartialEq, Eq, Structural)]
pub struct Position {
    pub x: i64,
    pub y: i64,
}

/// A line segment between two points, used as a flat collidable edge.
#[derive(Clone, Copy, Debug, PartialEq, Eq, Structural)]
pub struct Line {
    pub p1: Position,
    pub p2: Position,
}

/// Whether `d1 + d2` lies in the open band `(l - r / 2, l + r / 2)`, where
/// `d1`, `d2` and `l` are the distances whose squares are given and `r` is
/// `radius`.
///
/// Doubled, the two bounds read `2 * l - r < 2 * d1 + 2 * d2` and
/// `2 * d1 + 2 * d2 < 2 * l + r`, and `2 * d` is the square root of
/// `4 * d * d`.
pub open spec fn in_band(d1_sq: int, d2_sq: int, len_sq: int, radius: int) -> bool {
    &&& gap_sign(4 * d1_sq, 4 * d2_sq, 4 * len_sq, -radius) > 0
    &&& gap_sign(4 * d1_sq, 4 * d2_sq, 4 * len_sq, radius) < 0
}

impl Position {
    /// Both coordinates lie within `COORD_MAX` of the origin.
    pub open spec fn in_range(self) -> bool {
        &&& -COORD_MAX <= self.x <= COORD_MAX
        &&& -COORD_MAX <= self.y <= COORD_MAX
    }

    /// The square of the Euclidean distance to `other`.
    pub open spec fn dist_sq(self, other: Position) -> int {
        (self.x - other.x) * (self.x - other.x) + (self.y - other.y) * (self.y - other.y)
    }

    /// The point `(x, y)`.
    pub fn new(x: i64, y: i64) -> (p: Position)
        ensures
            p == (Position { x, y }),
    {
        Position { x, y }
    }

    /// Moves the point to `(new_x, new_y)`.
    pub fn update(&mut self, new_x: i64, new_y: i64)
        ensures
            *final(self) == (Position { x: new_x, y: new_y }),
    {
        self.x = new_x;
        self.y = new_y;
    }

    /// The square of the Euclidean distance to `other`; the distance itself is
    /// its square root.
    pub fn distance_sq_from(&self, other: &Position) -> (d: u128)
        requires
            self.in_range(),
            other.in_range(),
        ensures
            d == self.dist_sq(*other),
    {
        let dx: i128 = self.x as i128 - other.x as i128;
        let dy: i128 = self.y as i128 - other.y as i128;
        proof {
            lemma_square_bound(dx as int, 0x4000_0000_0000_0000);
            lemma_square_bound(dy as int, 0x4000_0000_0000_0000);
        }
        let dx2: u128 = (dx * dx) as u128;
        let dy2: u128 = (dy * dy) as u128;
        dx2 + dy2
    }
}

/// The magnitude of a difference of coordinates.
fn magnitude(x: i128) -> (m: i128)
    requires
        -0x1_0000_0000_0000_0000 < x < 0x1_0000_0000_0000_0000,
    ensures
        m == if x >= 0 { x as int } else { -x },
{
    if x >= 0 {
        x
    } else {
        -x
    }
}

impl Line {
    /// The segment is at most `MAX_EXTENT` wide and at most `MAX_EXTENT` high.
    pub open spec fn wf(self) -> bool {
        &&& -MAX_EXTENT <= self.p2.x - self.p1.x <= MAX_EXTENT
        &&& -MAX_EXTENT <= self.p2.y - self.p1.y <= MAX_EXTENT
    }

    /// Tests whether the collision test supports the segment.
    pub fn is_wf(&self) -> (ok: bool)
        ensures
            ok == self.wf(),
    {
        let wx: i128 = self.p2.x as i128 - self.p1.x as i128;
        let wy: i128 = self.p2.y as i128 - self.p1.y as i128;
        let extent: i128 = MAX_EXTENT as i128;
        -extent <= wx && wx <= extent && -extent <= wy && wy <= extent
    }

    /// The same segment with its endpoints exchanged.
    pub open spec fn reversed(self) -> Line {
        Line { p1: self.p2, p2: self.p1 }
    }

    /// Whether `p` lies on the segment: in line with the endpoints, and not
    /// on the same side of both.
    pub open spec fn holds(self, p: Position) -> bool {
        let ux = p.x - self.p1.x;
        let uy = p.y - self.p1.y;
        let vx = p.x - self.p2.x;
        let vy = p.y - self.p2.y;
        &&& ux * vy - uy * vx == 0
        &&& ux * vx + uy * vy <= 0
    }

    /// Whether the centre of `ball` lies on the segment, up to the tolerance
    /// that the radius of the ball allows: the distances from the centre to
    /// the two endpoints add up to the length of the segment, give or take
    /// less than half the radius.
    pub open spec fn collides(self, ball: Ball) -> bool {
        in_band(
            ball.position.dist_sq(self.p1),
            ball.position.dist_sq(self.p2),
            self.p1.dist_sq(self.p2),
            ball.radius as int,
        )
    }

    /// Decides whether `ball` touches the segment.
    pub fn collide_with_ball(&self, ball: &Ball) -> (hit: bool)
        requires
            self.wf(),
            ball.wf(),
        ensures
            hit == self.collides(*ball),
    {
        let wx: i128 = self.p2.x as i128 - self.p1.x as i128;
        let wy: i128 = self.p2.y as i128 - self.p1.y as i128;
        let ux: i128 = ball.position.x as i128 - self.p1.x as i128;
        let uy: i128 = ball.position.y as i128 - self.p1.y as i128;
        let vx: i128 = ball.position.x as i128 - self.p2.x as i128;
        let vy: i128 = ball.position.y as i128 - self.p2.y as i128;
        let r: i128 = ball.radius as i128;
        // No shorter than twice the segment.
        let span: i128 = 2 * (magnitude(wx) + magnitude(wy));
        let reach: i128 = span + r;
        let mux: i128 = 2 * magnitude(ux);
        let muy: i128 = 2 * magnitude(uy);
        let mvx: i128 = 2 * magnitude(vx);
        let mvy: i128 = 2 * magnitude(vy);
        let ghost a = 4 * ball.position.dist_sq(self.p1);
        let ghost b = 4 * ball.position.dist_sq(self.p2);
        let ghost c = 4 * self.p1.dist_sq(self.p2);
        proof {
            assert(self.p1.dist_sq(self.p2) == wx * wx + wy * wy) by (nonlinear_arith)
                requires
                    wx == self.p2.x - self.p1.x,
                    wy == self.p2.y - self.p1.y,
            ;
            assert(c <= span * span) by (nonlinear_arith)
                requires
                    c == 4 * (wx * wx + wy * wy),
                    span == 2 * ((if wx >= 0 { wx as int } else { -wx }) + (if wy >= 0 { wy as int } else { -wy })),
            ;
            assert(0 <= a && mux * mux <= a && muy * muy <= a) by (nonlinear_arith)
                requires
                    a == 4 * (ux * ux + uy * uy),
                    mux == 2 * (if ux >= 0 { ux as int } else { -ux }),
                    muy == 2 * (if uy >= 0 { uy as int } else { -uy }),
            ;
            assert(0 <= b && mvx * mvx <= b && mvy * mvy <= b) by (nonlinear_arith)
                requires
                    b == 4 * (vx * vx + vy * vy),
                    mvx == 2 * (if vx >= 0 { vx as int } else { -vx }),
                    mvy == 2 * (if vy >= 0 { vy as int } else { -vy }),
            ;
            assert(0 <= c) by (nonlinear_arith)
                requires
                    c == 4 * (wx * wx + wy * wy),
            ;
        }
        if mux >= reach || muy >= reach {
            proof {
                // One distance alone reaches past the band.
                let m = if mux >= reach { mux as int } else { muy as int };
                lemma_gap_bounded_below(a, b, c, r as int, m, 0, span as int);
            }
            return false;
        }
        if mvx >= reach || mvy >= reach {
            proof {
                let m = if mvx >= reach { mvx as int } else { mvy as int };
                lemma_gap_bounded_below(a, b, c, r as int, 0, m, span as int);
            }
            return false;
        }
        proof {
            // Each offset of the ball is below five halves of `MAX_EXTENT`.
            lemma_square_bound(ux as int, 0x2800_0000);
            lemma_square_bound(uy as int, 0x2800_0000);
            lemma_square_bound(vx as int, 0x2800_0000);
            lemma_square_bound(vy as int, 0x2800_0000);
            lemma_square_bound(wx as int, 0x1000_0000);
            lemma_square_bound(wy as int, 0x1000_0000);
        }
        let ea: i128 = 4 * (ux * ux + uy * uy);
        let eb: i128 = 4 * (vx * vx + vy * vy);
        let ec: i128 = 4 * (wx * wx + wy * wy);
        gap_sign_of(ea, eb, ec, -r) > 0 && gap_sign_of(ea, eb, ec, r) < 0
    }
}

/// The collision test gives the same answer for a segment and for the
/// segment with its endpoints exchanged.
pub proof fn lemma_collides_symmetric(line: Line, ball: Ball)
    ensures
        line.collides(ball) == line.reversed().collides(ball),
{
    let a = 4 * ball.position.dist_sq(line.p1);
    let b = 4 * ball.position.dist_sq(line.p2);
    let c = 4 * line.p1.dist_sq(line.p2);
    assert(line.p2.dist_sq(line.p1) == line.p1.dist_sq(line.p2)) by (nonlinear_arith);
    lemma_gap_symmetric(a, b, c, ball.radius as int);
    lemma_gap_symmetric(a, b, c, -(ball.radius as int));
}

/// A segment that has shrunk to a point collides with a ball exactly when the
/// centre of the ball is closer to the point than a quarter of the radius:
/// the two distances, which are then equal, add up to less than half the
/// radius.
pub proof fn lemma_collides_with_point(line: Line, ball: Ball)
    requires
        line.p1 == line.p2,
        0 < ball.radius,
    ensures
        line.collides(ball) <==> 16 * ball.position.dist_sq(line.p1) < ball.radius * ball.radius,
{
    let r = ball.radius as int;
    let a = 4 * ball.position.dist_sq(line.p1);
    let k = a + a - r * r;
    let x = 4 * a * a - k * k;
    assert(0 <= a) by (nonlinear_arith)
        requires
            a == 4 * ((ball.position.x - line.p1.x) * (ball.position.x - line.p1.x) + (
            ball.position.y - line.p1.y) * (ball.position.y - line.p1.y)),
    ;
    assert(line.p1.dist_sq(line.p2) == 0) by (nonlinear_arith)
        requires
            line.p1 == line.p2,
    ;
    assert(0 < r * r && (-r) * (-r) == r * r) by (nonlinear_arith)
        requires
            0 < r,
    ;
    // The lower edge: the length less half the radius is negative.
    assert(gap_sign(a, a, 0, -r) == 1);
    // The upper edge: with no length, every root but one drops out.
    assert(signed_square(-2 * r) * 0 == 0);
    assert((-2 * r) * (-2 * r) * 0 == 0) by (nonlinear_arith);
    assert(-2 * k * (-2 * r) == 4 * (k * r)) by (nonlinear_arith);
    assert(signed_square(4 * (k * r)) * 0 == 0);
    assert(sgn(k) == sgn(signed_square(k))) by (nonlinear_arith);
    assert(sgn(x) == sgn(signed_square(x))) by (nonlinear_arith);
    assert(x == r * r * (4 * a - r * r)) by (nonlinear_arith)
        requires
            x == 4 * a * a - k * k,
            k == a + a - r * r,
    ;
    assert(sgn(r * r * (4 * a - r * r)) == sgn(4 * a - r * r)) by (nonlinear_arith)
        requires
            0 < r * r,
    ;
    assert(4 * a * a > 0 <==> a > 0) by (nonlinear_arith)
        requires
            0 <= a,
    ;
}

/// The squares of the lengths of two vectors multiply to the square of
/// their dot product plus the square of their cross product.
proof fn lemma_dot_and_cross(ux: int, uy: int, vx: int, vy: int)
    ensures
        (ux * ux + uy * uy) * (vx * vx + vy * vy) == (ux * vx + uy * vy) * (ux * vx + uy * vy) + (
        ux * vy - uy * vx) * (ux * vy - uy * vx),
{
    let a = ux * ux + uy * uy;
    let b = vx * vx + vy * vy;
    let dot = ux * vx + uy * vy;
    let cross = ux * vy - uy * vx;
    let m1 = ux * vx;
    let m2 = uy * vy;
    let m3 = ux * vy;
    let m4 = uy * vx;
    assert(m1 * m2 == m3 * m4) by (nonlinear_arith)
        requires
            m1 == ux * vx,
            m2 == uy * vy,
            m3 == ux * vy,
            m4 == uy * vx,
    ;
    assert((ux * ux) * (vx * vx) == m1 * m1 && (uy * uy) * (vy * vy) == m2 * m2 && (ux * ux) * (vy
        * vy) == m3 * m3 && (uy * uy) * (vx * vx) == m4 * m4) by (nonlinear_arith)
        requires
            m1 == ux * vx,
            m2 == uy * vy,
            m3 == ux * vy,
            m4 == uy * vx,
    ;
    assert(a * b == (ux * ux) * (vx * vx) + (ux * ux) * (vy * vy) + (uy * uy) * (vx * vx) + (uy
        * uy) * (vy * vy)) by (nonlinear_arith)
        requires
            a == ux * ux + uy * uy,
            b == vx * vx + vy * vy,
    ;
    assert(dot * dot + cross * cross == m1 * m1 + m2 * m2 + m3 * m3 + m4 * m4)
        by (nonlinear_arith)
        requires
            dot == m1 + m2,
            cross == m3 - m4,
            m1 * m2 == m3 * m4,
    ;
}

/// The squares of the distances between three points are the squares of the
/// sides of a triangle.
pub proof fn lemma_points_form_triangle(p: Position, q: Position, r: Position)
    ensures
        triangle_squares(4 * p.dist_sq(q), 4 * p.dist_sq(r), 4 * q.dist_sq(r)),
{
    let ux = p.x - q.x;
    let uy = p.y - q.y;
    let vx = p.x - r.x;
    let vy = p.y - r.y;
    let a = ux * ux + uy * uy;
    let b = vx * vx + vy * vy;
    let c = q.dist_sq(r);
    let dot = ux * vx + uy * vy;
    let cross = ux * vy - uy * vx;
    assert(0 <= a && 0 <= b && 0 <= c) by (nonlinear_arith)
        requires
            a == ux * ux + uy * uy,
            b == vx * vx + vy * vy,
            c == (q.x - r.x) * (q.x - r.x) + (q.y - r.y) * (q.y - r.y),
    ;
    assert(c == a + b - 2 * dot) by (nonlinear_arith)
        requires
            c == (q.x - r.x) * (q.x - r.x) + (q.y - r.y) * (q.y - r.y),
            a == ux * ux + uy * uy,
            b == vx * vx + vy * vy,
            dot == ux * vx + uy * vy,
            ux == p.x - q.x,
            uy == p.y - q.y,
            vx == p.x - r.x,
            vy == p.y - r.y,
    ;
    lemma_dot_and_cross(ux, uy, vx, vy);
    assert(0 <= cross * cross) by (nonlinear_arith);
    assert((4 * c - 4 * a - 4 * b) * (4 * c - 4 * a - 4 * b) == 64 * (dot * dot))
        by (nonlinear_arith)
        requires
            c == a + b - 2 * dot,
    ;
    assert(4 * (4 * a) * (4 * b) == 64 * (a * b)) by (nonlinear_arith);
}

/// The lower edge of the band never keeps a ball of positive radius out: the
/// distances from the centre of the ball to the two endpoints add up to at
/// least the length of the segment. Whether the ball collides is decided at
/// the upper edge alone.
pub proof fn lemma_collides_below_upper_edge(line: Line, ball: Ball)
    requires
        0 < ball.radius,
    ensures
        line.collides(ball) <==> gap_sign(
            4 * ball.position.dist_sq(line.p1),
            4 * ball.position.dist_sq(line.p2),
            4 * line.p1.dist_sq(line.p2),
            ball.radius as int,
        ) < 0,
{
    lemma_points_form_triangle(ball.position, line.p1, line.p2);
    lemma_gap_of_triangle(
        4 * ball.position.dist_sq(line.p1),
        4 * ball.position.dist_sq(line.p2),
        4 * line.p1.dist_sq(line.p2),
        ball.radius as int,
    );
}

/// A ball collides with a segment whenever fractions show it inside the
/// band: with `x / n` and `y / n` not below twice the distances from the
/// centre of the ball to the endpoints, and `z / n` not above twice the length
/// of the segment, `x / n + y / n < z / n + r`.
pub proof fn lemma_collides_within(line: Line, ball: Ball, n: int, x: int, y: int, z: int)
    requires
        0 < ball.radius,
        0 < n,
        0 <= x,
        0 <= y,
        0 <= z,
        n * n * (4 * ball.position.dist_sq(line.p1)) <= x * x,
        n * n * (4 * ball.position.dist_sq(line.p2)) <= y * y,
        z * z <= n * n * (4 * line.p1.dist_sq(line.p2)),
        x + y < z + n * ball.radius,
    ensures
        line.collides(ball),
{
    lemma_collides_below_upper_edge(line, ball);
    lemma_points_form_triangle(ball.position, line.p1, line.p2);
    lemma_gap_bounded_above_by_fractions(
        4 * ball.position.dist_sq(line.p1),
        4 * ball.position.dist_sq(line.p2),
        4 * line.p1.dist_sq(line.p2),
        ball.radius as int,
        n,
        x,
        y,
        z,
    );
}

/// A ball does not collide with a segment whenever fractions show it at or
/// beyond the upper edge of the band: with `x / n` and `y / n` not above
/// twice the distances from the centre of the ball to the endpoints, and
/// `z / n` not below twice the length of the segment,
/// `x / n + y / n >= z / n + r`.
pub proof fn lemma_collides_beyond(line: Line, ball: Ball, n: int, x: int, y: int, z: int)
    requires
        0 < n,
        0 <= x,
        0 <= y,
        0 <= z,
        x * x <= n * n * (4 * ball.position.dist_sq(line.p1)),
        y * y <= n * n * (4 * ball.position.dist_sq(line.p2)),
        n * n * (4 * line.p1.dist_sq(line.p2)) <= z * z,
        x + y >= z + n * ball.radius,
    ensures
        !line.collides(ball),
{
    lemma_points_form_triangle(ball.position, line.p1, line.p2);
    lemma_gap_bounded_below_by_fractions(
        4 * ball.position.dist_sq(line.p1),
        4 * ball.position.dist_sq(line.p2),
        4 * line.p1.dist_sq(line.p2),
        ball.radius as int,
        n,
        x,
        y,
        z,
    );
}

/// A ball of positive radius whose centre lies on a segment collides with
/// it.
pub proof fn lemma_collides_on_segment(line: Line, ball: Ball)
    requires
        0 < ball.radius,
        line.holds(ball.position),
    ensures
        line.collides(ball),
{
    let ux = ball.position.x - line.p1.x;
    let uy = ball.position.y - line.p1.y;
    let vx = ball.position.x - line.p2.x;
    let vy = ball.position.y - line.p2.y;
    let a = ux * ux + uy * uy;
    let b = vx * vx + vy * vy;
    let c = line.p1.dist_sq(line.p2);
    let dot = ux * vx + uy * vy;
    lemma_collides_below_upper_edge(line, ball);
    lemma_dot_and_cross(ux, uy, vx, vy);
    assert(0 <= a && 0 <= b && 0 <= c) by (nonlinear_arith)
        requires
            a == ux * ux + uy * uy,
            b == vx * vx + vy * vy,
            c == (line.p1.x - line.p2.x) * (line.p1.x - line.p2.x) + (line.p1.y - line.p2.y) * (
            line.p1.y - line.p2.y),
    ;
    assert(c == a + b - 2 * dot) by (nonlinear_arith)
        requires
            c == (line.p1.x - line.p2.x) * (line.p1.x - line.p2.x) + (line.p1.y - line.p2.y) * (
            line.p1.y - line.p2.y),
            a == ux * ux + uy * uy,
            b == vx * vx + vy * vy,
            dot == ux * vx + uy * vy,
            ux == ball.position.x - line.p1.x,
            uy == ball.position.y - line.p1.y,
            vx == ball.position.x - line.p2.x,
            vy == ball.position.y - line.p2.y,
    ;
    assert((4 * c - 4 * a - 4 * b) * (4 * c - 4 * a - 4 * b) == 64 * (dot * dot))
        by (nonlinear_arith)
        requires
            c == a + b - 2 * dot,
    ;
    assert(4 * (4 * a) * (4 * b) == 64 * (a * b)) by (nonlinear_arith);
    lemma_gap_of_flat_triangle(4 * a, 4 * b, 4 * c, ball.radius as int);
}

} // verus!
