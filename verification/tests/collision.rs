use canvas_demos::ball::Ball;
use canvas_demos::geometry::Line;
use canvas_demos::geometry::Position;
use canvas_demos::geometry::COORD_MAX;
use canvas_demos::geometry::MAX_EXTENT;

fn line(x1: i64, y1: i64, x2: i64, y2: i64) -> Line {
    Line { p1: Position::new(x1, y1), p2: Position::new(x2, y2) }
}

/// The band test as it reads in floating point.
fn float_band(line: &Line, ball: &Ball) -> Option<bool> {
    let dist = |p: &Position, q: &Position| -> f64 {
        let dx = p.x as f64 - q.x as f64;
        let dy = p.y as f64 - q.y as f64;
        (dx * dx + dy * dy).sqrt()
    };
    let d = dist(&ball.position, &line.p1) + dist(&ball.position, &line.p2);
    let l = dist(&line.p1, &line.p2);
    let half = ball.radius as f64 / 2.0;
    if (d - (l + half)).abs() < 1e-9 || (d - (l - half)).abs() < 1e-9 {
        None
    } else {
        Some(d > l - half && d < l + half)
    }
}

#[test]
fn position_new_and_update() {
    let mut p = Position::new(3, -4);
    assert_eq!(p, Position { x: 3, y: -4 });
    p.update(7, 9);
    assert_eq!(p, Position { x: 7, y: 9 });
}

#[test]
fn distance_squared_is_exact() {
    let p = Position::new(0, 0);
    let q = Position::new(3, 4);
    assert_eq!(p.distance_sq_from(&q), 25);
    assert_eq!(q.distance_sq_from(&p), 25);
    assert_eq!(q.distance_sq_from(&q), 0);
    let far = Position::new(COORD_MAX, -COORD_MAX);
    let other = Position::new(-COORD_MAX, COORD_MAX);
    let side = 2 * (COORD_MAX as u128);
    assert_eq!(far.distance_sq_from(&other), 2 * side * side);
}

#[test]
fn ball_on_the_segment_collides() {
    let l = line(0, 0, 0, 100);
    assert!(l.collide_with_ball(&Ball::new(0, 50, 6)));
    assert!(l.collide_with_ball(&Ball::new(0, 0, 6)));
    assert!(l.collide_with_ball(&Ball::new(0, 100, 6)));
}

#[test]
fn ball_off_the_segment_does_not_collide() {
    let l = line(0, 0, 0, 100);
    assert!(!l.collide_with_ball(&Ball::new(40, 50, 6)));
    assert!(!l.collide_with_ball(&Ball::new(-40, 50, 6)));
    assert!(!l.collide_with_ball(&Ball::new(0, 200, 6)));
}

#[test]
fn band_is_open_at_its_upper_edge() {
    // Past the end of the segment the two distances add up to 100 + 2 * k.
    let l = line(0, 0, 0, 100);
    // radius 8: the band ends at 104.
    assert!(l.collide_with_ball(&Ball::new(0, -1, 8)));
    assert!(!l.collide_with_ball(&Ball::new(0, -2, 8)));
    assert!(!l.collide_with_ball(&Ball::new(0, -3, 8)));
    assert!(l.collide_with_ball(&Ball::new(0, 101, 8)));
    assert!(!l.collide_with_ball(&Ball::new(0, 102, 8)));
    // radius 6: the band ends at 103.
    assert!(l.collide_with_ball(&Ball::new(0, -1, 6)));
    assert!(!l.collide_with_ball(&Ball::new(0, -2, 6)));
    // radius 5: the band ends at 102.5.
    assert!(l.collide_with_ball(&Ball::new(0, -1, 5)));
    assert!(!l.collide_with_ball(&Ball::new(0, -2, 5)));
}

#[test]
fn slanted_segment_with_whole_distances() {
    // Length 5; from (6, 8) the distances are 10 and 5.
    let l = line(0, 0, 3, 4);
    assert!(l.collide_with_ball(&Ball::new(3, 4, 1)));
    assert!(!l.collide_with_ball(&Ball::new(6, 8, 20)));
    assert!(l.collide_with_ball(&Ball::new(6, 8, 21)));
    assert!(!l.collide_with_ball(&Ball::new(6, 8, 19)));
}

#[test]
fn slanted_segment_with_irrational_distances() {
    // Length sqrt(2); from (1, 0) the distances add up to 2, which is below
    // sqrt(2) + r / 2 from r = 2 on.
    let l = line(0, 0, 1, 1);
    assert!(!l.collide_with_ball(&Ball::new(1, 0, 1)));
    assert!(l.collide_with_ball(&Ball::new(1, 0, 2)));
    // From (2, 0): sqrt(4) + sqrt(2) against sqrt(2) + r / 2.
    assert!(!l.collide_with_ball(&Ball::new(2, 0, 4)));
    assert!(l.collide_with_ball(&Ball::new(2, 0, 5)));
}

#[test]
fn degenerate_segment_collides_only_with_a_ball_at_it() {
    let l = line(7, 7, 7, 7);
    assert!(l.collide_with_ball(&Ball::new(7, 7, 1)));
    // One unit away the distances add up to 2: inside the band from r = 5 on.
    assert!(!l.collide_with_ball(&Ball::new(8, 7, 4)));
    assert!(l.collide_with_ball(&Ball::new(8, 7, 5)));
    assert!(!l.collide_with_ball(&Ball::new(7, 9, 6)));
}

#[test]
fn ball_far_away_does_not_collide() {
    let l = line(0, 0, 0, 300);
    assert!(!l.collide_with_ball(&Ball::new(i64::MAX, 150, 6)));
    assert!(!l.collide_with_ball(&Ball::new(i64::MIN, 150, 6)));
    assert!(!l.collide_with_ball(&Ball::new(0, i64::MAX, 6)));
    assert!(!l.collide_with_ball(&Ball::new(0, i64::MIN, 6)));
    assert!(!l.collide_with_ball(&Ball::new(i64::MIN, i64::MAX, MAX_EXTENT)));
    let high = line(i64::MAX, i64::MAX - 300, i64::MAX, i64::MAX);
    assert!(!high.collide_with_ball(&Ball::new(i64::MIN, i64::MIN, 6)));
    assert!(high.collide_with_ball(&Ball::new(i64::MAX, i64::MAX - 150, 6)));
}

#[test]
fn longest_segment_and_largest_ball() {
    assert_eq!(MAX_EXTENT, 1 << 28);
    let e = MAX_EXTENT;
    let diagonal = line(0, 0, e, e);
    assert!(diagonal.collide_with_ball(&Ball::new(e / 2, e / 2, 1)));
    assert!(diagonal.collide_with_ball(&Ball::new(e / 2 + 1, e / 2 - 1, 1)));
    assert!(diagonal.collide_with_ball(&Ball::new(e / 2 + 5793, e / 2 - 5793, 1)));
    assert!(!diagonal.collide_with_ball(&Ball::new(e / 2 + 10000, e / 2 - 10000, 1)));
    assert!(!diagonal.collide_with_ball(&Ball::new(e / 2 + 10000, e / 2 - 10000, 2)));
    assert!(diagonal.collide_with_ball(&Ball::new(e / 2 + 10000, e / 2 - 10000, 3)));
    assert!(diagonal.collide_with_ball(&Ball::new(e / 2 + 10000, e / 2 - 10000, e)));
    assert!(!diagonal.collide_with_ball(&Ball::new(e, 0, e)));
    assert!(!diagonal.collide_with_ball(&Ball::new(e + e / 8, -e / 8, e)));
    assert!(!diagonal.collide_with_ball(&Ball::new(2 * e, -e, e)));
    let centred = line(-e / 2, -e / 2, e / 2, e / 2);
    assert!(centred.collide_with_ball(&Ball::new(7, 7, 5)));
    assert!(centred.collide_with_ball(&Ball::new(7, 11, 5)));
    let shifted = line(3, -5, 3 + e, -5 + e);
    assert!(shifted.collide_with_ball(&Ball::new(3 + e, -5 + e, 1)));
    // One step past the far end the distances add up to the length and
    // twice the square root of two.
    assert!(!shifted.collide_with_ball(&Ball::new(4 + e, -4 + e, 1)));
    assert!(!shifted.collide_with_ball(&Ball::new(4 + e, -4 + e, 5)));
    assert!(shifted.collide_with_ball(&Ball::new(4 + e, -4 + e, 6)));
}

#[test]
fn band_edge_is_exact_on_a_long_segment() {
    // Beside the middle of a segment of length 2^28, at distance x, the two
    // distances add up to the length and about x * x / 2^27. At x = 8192 that
    // is less than half a unit by less than a billionth.
    let e = MAX_EXTENT;
    let upright = line(0, 0, 0, e);
    assert!(upright.collide_with_ball(&Ball::new(8192, e / 2, 1)));
    assert!(upright.collide_with_ball(&Ball::new(-8192, e / 2, 1)));
    assert!(!upright.collide_with_ball(&Ball::new(8193, e / 2, 1)));
    assert!(upright.collide_with_ball(&Ball::new(11585, e / 2, 2)));
    assert!(!upright.collide_with_ball(&Ball::new(11586, e / 2, 2)));
    let level = line(0, 0, e, 0);
    assert!(level.collide_with_ball(&Ball::new(e / 2, 8192, 1)));
    assert!(!level.collide_with_ball(&Ball::new(e / 2, 8193, 1)));
    let nearly_level = line(0, 0, e, 1);
    assert!(nearly_level.collide_with_ball(&Ball::new(e / 2, 0, 1)));
    assert!(nearly_level.collide_with_ball(&Ball::new(e / 2, 2, 1)));
    assert!(!nearly_level.collide_with_ball(&Ball::new(e / 3, 12000, 2)));
    assert!(nearly_level.collide_with_ball(&Ball::new(e / 3, 12000, 3)));
}

#[test]
fn collision_is_symmetric_in_the_endpoints() {
    let segments = [line(0, 0, 0, 100), line(0, 0, 3, 4), line(-5, 2, 9, -7), line(1, 1, 1, 1)];
    for l in segments.iter() {
        let swapped = Line { p1: l.p2, p2: l.p1 };
        for x in -12..=12 {
            for y in -12..=112 {
                for r in [1, 2, 6, 13] {
                    let ball = Ball::new(x, y, r);
                    assert_eq!(l.collide_with_ball(&ball), swapped.collide_with_ball(&ball));
                }
            }
        }
    }
}

#[test]
fn agrees_with_the_band_test_in_floating_point() {
    let segments = [
        line(12, 10, 12, 90),
        line(0, 0, 0, 300),
        line(-3, 5, 17, -11),
        line(0, 0, 40, 0),
        line(2, 2, 2, 2),
    ];
    let mut compared = 0;
    for l in segments.iter() {
        for x in -30..=50 {
            for y in -30..=110 {
                for r in [1, 3, 6, 7, 40] {
                    let ball = Ball::new(x, y, r);
                    if let Some(expected) = float_band(l, &ball) {
                        assert_eq!(l.collide_with_ball(&ball), expected, "{:?} {:?}", l, ball);
                        compared += 1;
                    }
                }
            }
        }
    }
    assert!(compared > 250_000);
}
