use canvas_demos::roots::gap_sign_of;
use canvas_demos::roots::lin_root_sign_of;
use canvas_demos::roots::sign_of;
use canvas_demos::roots::two_root_sign_of;
use canvas_demos::roots::MULTIPLIER_MAX;
use canvas_demos::roots::OFFSET_MAX;
use canvas_demos::roots::RADICAND_MAX;

#[test]
fn sign_of_an_integer() {
    assert_eq!(sign_of(17), 1);
    assert_eq!(sign_of(0), 0);
    assert_eq!(sign_of(-3), -1);
    assert_eq!(sign_of(i128::MIN), -1);
    assert_eq!(sign_of(i128::MAX), 1);
}

#[test]
fn sign_of_an_integer_plus_a_multiple_of_a_root() {
    // 3 - 2 * sqrt(2) > 0, 3 - 2 * sqrt(3) < 0, 4 - 2 * sqrt(4) = 0.
    assert_eq!(lin_root_sign_of(3, -2, 2), 1);
    assert_eq!(lin_root_sign_of(3, -2, 3), -1);
    assert_eq!(lin_root_sign_of(4, -2, 4), 0);
    assert_eq!(lin_root_sign_of(-3, 2, 2), -1);
    assert_eq!(lin_root_sign_of(-3, 2, 3), 1);
    assert_eq!(lin_root_sign_of(-7, -1, 5), -1);
    assert_eq!(lin_root_sign_of(7, 1, 5), 1);
    assert_eq!(lin_root_sign_of(0, 0, 5), 0);
    assert_eq!(lin_root_sign_of(0, 5, 0), 0);
}

#[test]
fn sign_of_an_integer_plus_two_roots() {
    // -5 + sqrt(9) + 2 * sqrt(1) = 0.
    assert_eq!(two_root_sign_of(-5, 9, 2, 1), 0);
    assert_eq!(two_root_sign_of(-5, 10, 2, 1), 1);
    assert_eq!(two_root_sign_of(-5, 8, 2, 1), -1);
    // 1 + sqrt(2) - 1 * sqrt(6): 2.4142 against 2.4495.
    assert_eq!(two_root_sign_of(1, 2, -1, 6), -1);
    // 1 + sqrt(3) - 1 * sqrt(7): 2.7321 against 2.6458.
    assert_eq!(two_root_sign_of(1, 3, -1, 7), 1);
    assert_eq!(two_root_sign_of(0, 0, 0, 0), 0);
    assert_eq!(two_root_sign_of(0, 1, 0, 0), 1);
}

#[test]
fn sign_of_a_gap_between_whole_roots() {
    assert_eq!(gap_sign_of(4, 9, 25, 0), 0);
    assert_eq!(gap_sign_of(4, 9, 16, 0), 1);
    assert_eq!(gap_sign_of(4, 9, 36, 0), -1);
    assert_eq!(gap_sign_of(4, 9, 16, 1), 0);
    assert_eq!(gap_sign_of(4, 9, 16, 2), -1);
    assert_eq!(gap_sign_of(4, 9, 36, -1), 0);
    assert_eq!(gap_sign_of(4, 9, 36, -2), 1);
    assert_eq!(gap_sign_of(0, 0, 0, 0), 0);
    assert_eq!(gap_sign_of(0, 0, 9, -3), 0);
    assert_eq!(gap_sign_of(0, 0, 9, -4), 1);
    assert_eq!(gap_sign_of(0, 0, 9, -2), -1);
}

#[test]
fn sign_of_a_gap_between_irrational_roots() {
    // sqrt(2) + sqrt(3) = 3.1463, sqrt(10) = 3.1623, sqrt(9) = 3.
    assert_eq!(gap_sign_of(2, 3, 10, 0), -1);
    assert_eq!(gap_sign_of(2, 3, 9, 0), 1);
    // sqrt(2) + sqrt(8) = sqrt(18).
    assert_eq!(gap_sign_of(2, 8, 18, 0), 0);
    assert_eq!(gap_sign_of(2, 8, 18, 1), -1);
    assert_eq!(gap_sign_of(2, 8, 18, -1), 1);
    // sqrt(5) + sqrt(7) = 4.8818 against sqrt(3) + 3 = 4.7321 and sqrt(3) + 4.
    assert_eq!(gap_sign_of(5, 7, 3, 3), 1);
    assert_eq!(gap_sign_of(5, 7, 3, 4), -1);
}

#[test]
fn gap_at_the_limits() {
    assert_eq!(RADICAND_MAX, 1 << 62);
    assert_eq!(OFFSET_MAX, 1 << 28);
    assert_eq!(MULTIPLIER_MAX, 1 << 93);
    assert_eq!(gap_sign_of(RADICAND_MAX, RADICAND_MAX, RADICAND_MAX, OFFSET_MAX), 1);
    assert_eq!(gap_sign_of(RADICAND_MAX, RADICAND_MAX, 0, -OFFSET_MAX), 1);
    assert_eq!(gap_sign_of(0, 0, RADICAND_MAX, OFFSET_MAX), -1);
    assert_eq!(gap_sign_of(0, 0, RADICAND_MAX, -OFFSET_MAX), -1);
    // sqrt(2^62) = 2^31, and 2^31 = (2^31 - 2^28) + 2^28.
    let z: i128 = (1 << 31) - (1 << 28);
    assert_eq!(gap_sign_of(RADICAND_MAX, 0, z * z, OFFSET_MAX), 0);
    assert_eq!(gap_sign_of(RADICAND_MAX, 1, z * z, OFFSET_MAX), 1);
    assert_eq!(gap_sign_of(RADICAND_MAX - 1, 0, z * z, OFFSET_MAX), -1);
    assert_eq!(gap_sign_of(RADICAND_MAX, 0, z * z + 1, OFFSET_MAX), -1);
    assert_eq!(gap_sign_of(RADICAND_MAX, 0, z * z - 1, OFFSET_MAX), 1);
    // 2^31 + 2^31 = sqrt(2^62 - 1) + d with d a little above 2^31.
    assert_eq!(gap_sign_of(RADICAND_MAX, RADICAND_MAX, RADICAND_MAX - 1, 1 << 28), 1);
}

#[test]
fn multiples_of_roots_at_the_limits() {
    // 2^93 * sqrt(2^62) = 2^124.
    let big: i128 = 1 << 124;
    assert_eq!(lin_root_sign_of(-big, MULTIPLIER_MAX, RADICAND_MAX), 0);
    assert_eq!(lin_root_sign_of(-big + 1, MULTIPLIER_MAX, RADICAND_MAX), 1);
    assert_eq!(lin_root_sign_of(-big - 1, MULTIPLIER_MAX, RADICAND_MAX), -1);
    assert_eq!(lin_root_sign_of(big, -MULTIPLIER_MAX, RADICAND_MAX), 0);
    assert_eq!(lin_root_sign_of(big, -MULTIPLIER_MAX, RADICAND_MAX - 1), 1);
    assert_eq!(lin_root_sign_of(big, -MULTIPLIER_MAX + 1, RADICAND_MAX), 1);
    assert_eq!(lin_root_sign_of(big - 1, -MULTIPLIER_MAX, RADICAND_MAX), -1);
    assert_eq!(lin_root_sign_of(i128::MAX, -MULTIPLIER_MAX, RADICAND_MAX), 1);
    assert_eq!(lin_root_sign_of(i128::MIN + 1, MULTIPLIER_MAX, RADICAND_MAX), -1);
    assert_eq!(lin_root_sign_of(i128::MAX, MULTIPLIER_MAX, RADICAND_MAX), 1);
    assert_eq!(lin_root_sign_of(i128::MIN + 1, -MULTIPLIER_MAX, RADICAND_MAX), -1);
    assert_eq!(lin_root_sign_of(0, MULTIPLIER_MAX, 0), 0);
    assert_eq!(lin_root_sign_of(0, -MULTIPLIER_MAX, 1), -1);
    // sqrt(2) * 10^27 lies between these two numbers.
    let below: i128 = 1_414_213_562_373_095_048_801_688_724;
    let ten_27: i128 = 1_000_000_000_000_000_000_000_000_000;
    assert_eq!(lin_root_sign_of(-below, ten_27, 2), 1);
    assert_eq!(lin_root_sign_of(-below - 1, ten_27, 2), -1);
    assert_eq!(lin_root_sign_of(below, -ten_27, 2), -1);
    assert_eq!(lin_root_sign_of(below + 1, -ten_27, 2), 1);
}

#[test]
fn gap_agrees_with_floating_point_away_from_zero() {
    let mut compared = 0;
    for a in 0i128..40 {
        for b in 0i128..40 {
            for c in 0i128..40 {
                for s in -7i128..=7 {
                    let value = (a as f64).sqrt() + (b as f64).sqrt() - (c as f64).sqrt() - s as f64;
                    if value.abs() > 1e-9 {
                        let expected = if value > 0.0 { 1 } else { -1 };
                        assert_eq!(gap_sign_of(a, b, c, s), expected, "{} {} {} {}", a, b, c, s);
                        compared += 1;
                    }
                }
            }
        }
    }
    assert!(compared > 900_000);
}
