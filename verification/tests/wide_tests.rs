use raytracer::wide::{mul_wide, product_less};

#[test]
fn mul_wide_small_products() {
    assert_eq!(mul_wide(0, 0), (0, 0));
    assert_eq!(mul_wide(7, 6), (0, 42));
    assert_eq!(mul_wide(1 << 64, 1 << 63), (0, 1 << 127));
    assert_eq!(mul_wide(1 << 64, 1 << 64), (1, 0));
}

#[test]
fn mul_wide_largest_product() {
    // (2^128 - 1)^2 == (2^128 - 2) * 2^128 + 1
    assert_eq!(mul_wide(u128::MAX, u128::MAX), (u128::MAX - 1, 1));
    assert_eq!(mul_wide(u128::MAX, 2), (1, u128::MAX - 1));
    assert_eq!(mul_wide(u128::MAX, 1 << 64), ((1 << 64) - 1, u128::MAX - ((1 << 64) - 1)));
}

#[test]
fn mul_wide_carries_between_halves() {
    // (2^64 + 1) * (2^64 - 1) == 2^128 - 1
    assert_eq!(mul_wide((1 << 64) + 1, (1 << 64) - 1), (0, u128::MAX));
    // (2^64 + 1)^2 == 2^128 + 2^65 + 1
    assert_eq!(mul_wide((1 << 64) + 1, (1 << 64) + 1), (1, (1 << 65) + 1));
    // (2^127 + 2^63)^2 == 2^254 + 2^191 + 2^126
    assert_eq!(
        mul_wide((1 << 127) + (1 << 63), (1 << 127) + (1 << 63)),
        ((1 << 126) + (1 << 63), 1 << 126)
    );
}

#[test]
fn product_less_is_strict() {
    assert!(product_less(2, 3, 7, 1));
    assert!(!product_less(2, 3, 3, 2));
    assert!(!product_less(7, 1, 2, 3));
    assert!(product_less(u128::MAX, u128::MAX - 1, u128::MAX, u128::MAX));
    assert!(!product_less(u128::MAX, u128::MAX, u128::MAX, u128::MAX));
    assert!(product_less(0, u128::MAX, 1, 1));
}
