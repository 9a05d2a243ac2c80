use canvas_demos::wide::Wide;
use canvas_demos::wide::HALF;

#[test]
fn products_of_small_numbers() {
    assert_eq!(Wide::product(0, 0), Wide { hi: 0, lo: 0 });
    assert_eq!(Wide::product(0, u128::MAX), Wide { hi: 0, lo: 0 });
    assert_eq!(Wide::product(6, 7), Wide { hi: 0, lo: 42 });
    assert_eq!(Wide::product(1, u128::MAX), Wide { hi: 0, lo: u128::MAX });
    assert_eq!(HALF, 1 << 64);
    assert_eq!(Wide::product(HALF - 1, HALF + 1), Wide { hi: 0, lo: u128::MAX });
}

#[test]
fn products_that_need_both_halves() {
    assert_eq!(Wide::product(HALF, HALF), Wide { hi: 1, lo: 0 });
    assert_eq!(Wide::product(2, u128::MAX), Wide { hi: 1, lo: u128::MAX - 1 });
    // (2^128 - 1)^2 = (2^128 - 2) * 2^128 + 1.
    assert_eq!(Wide::product(u128::MAX, u128::MAX), Wide { hi: u128::MAX - 1, lo: 1 });
    // (2^100 + 3) * (2^90 + 5) = 2^190 + 5 * 2^100 + 3 * 2^90 + 15.
    assert_eq!(
        Wide::product((1 << 100) + 3, (1 << 90) + 5),
        Wide { hi: 1 << 62, lo: 5 * (1 << 100) + 3 * (1 << 90) + 15 }
    );
    // 10^30 * 10^30 = 10^60 = 2938735877055718769921 * 2^128 + rest.
    let ten_30: u128 = 1_000_000_000_000_000_000_000_000_000_000;
    let product = Wide::product(ten_30, ten_30);
    assert_eq!(product.hi, 2_938_735_877_055_718_769_921);
    assert_eq!(product.lo, 286_294_206_356_892_884_406_003_407_681_459_585_024);
    assert_eq!(Wide::product(ten_30, 7), Wide::product(7, ten_30));
}

#[test]
fn product_times_a_number() {
    assert_eq!(Wide { hi: 0, lo: 6 }.times(7), Wide { hi: 0, lo: 42 });
    assert_eq!(Wide { hi: 3, lo: 5 }.times(0), Wide { hi: 0, lo: 0 });
    assert_eq!(Wide { hi: 3, lo: 5 }.times(4), Wide { hi: 12, lo: 20 });
    assert_eq!(Wide { hi: 3, lo: u128::MAX }.times(4), Wide { hi: 15, lo: u128::MAX - 3 });
    assert_eq!(
        Wide::product(1 << 93, 1 << 93).times(1 << 62),
        Wide { hi: 1 << 120, lo: 0 }
    );
    assert_eq!(Wide { hi: 0, lo: u128::MAX }.times(u128::MAX - 1), Wide::product(u128::MAX, u128::MAX - 1));
}

#[test]
fn order_of_wide_numbers() {
    let small = Wide { hi: 1, lo: u128::MAX };
    let large = Wide { hi: 2, lo: 0 };
    assert!(small.less_than(&large));
    assert!(!large.less_than(&small));
    assert!(!small.less_than(&small));
    assert!(Wide { hi: 2, lo: 0 }.less_than(&Wide { hi: 2, lo: 1 }));
    assert!(!Wide { hi: 2, lo: 1 }.less_than(&Wide { hi: 2, lo: 0 }));
    assert!(Wide { hi: 0, lo: u128::MAX }.less_than(&Wide { hi: 1, lo: 0 }));
}
