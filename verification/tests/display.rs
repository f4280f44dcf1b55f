//! The humanized display form and the big-counter arithmetic.

use pasta_cranker::game_value::{GameUInt, GameValue};

#[test]
fn display_plain_values() {
    assert_eq!(GameUInt::from_u64(0).to_display_string(), "0");
    assert_eq!(GameUInt::from_u64(7).to_display_string(), "7");
    assert_eq!(GameUInt::from_u64(42).to_display_string(), "42");
    assert_eq!(GameUInt::from_u64(999).to_display_string(), "999");
}

#[test]
fn display_thousand_is_1k() {
    assert_eq!(GameUInt::from_u64(1000).to_display_string(), "1k");
}

#[test]
fn display_1500_is_1_5k() {
    assert_eq!(GameUInt::from_u64(1500).to_display_string(), "1.5k");
}

#[test]
fn display_150000_is_150k() {
    assert_eq!(GameUInt::from_u64(150000).to_display_string(), "150k");
}

#[test]
fn display_suffix_ladder() {
    assert_eq!(GameUInt::from_u64(1234).to_display_string(), "1.23k");
    assert_eq!(GameUInt::from_u64(12345).to_display_string(), "12.3k");
    assert_eq!(GameUInt::from_u64(123456).to_display_string(), "123k");
    assert_eq!(GameUInt::from_u64(1234567).to_display_string(), "1.23M");
    assert_eq!(GameUInt::from_u64(1_000_000_000).to_display_string(), "1G");
    assert_eq!(GameUInt::from_u64(1_050_000_000_000).to_display_string(), "1.05T");
    assert_eq!(GameUInt::from_u64(2_000_000_000_000_000).to_display_string(), "2P");
    assert_eq!(GameUInt::from_u64(3_100_000_000_000_000_000).to_display_string(), "3.1E");
}

#[test]
fn display_trait_matches_inherent() {
    let v = GameUInt::from_u64(1500);
    assert_eq!(v.to_string_hum(), v.to_display_string());
}

#[test]
fn display_beyond_u64_suffixes() {
    // 10^21 = 1Z, 10^24 = 1Y, 10^27 = 1R, 10^30 = 1Q.
    let ten = GameUInt::from_u64(10);
    assert_eq!(ten.pow(21).to_display_string(), "1Z");
    assert_eq!(ten.pow(24).to_display_string(), "1Y");
    assert_eq!(ten.pow(27).to_display_string(), "1R");
    assert_eq!(ten.pow(30).to_display_string(), "1Q");
}

#[test]
fn digit_count_examples() {
    assert_eq!(GameUInt::from_u64(0).digit_count(), 1);
    assert_eq!(GameUInt::from_u64(9).digit_count(), 1);
    assert_eq!(GameUInt::from_u64(10).digit_count(), 2);
    assert_eq!(GameUInt::from_u64(1000).digit_count(), 4);
    assert_eq!(GameUInt::from_u64(10).pow(20).digit_count(), 21);
}

#[test]
fn arithmetic_add_sub() {
    let mut a = GameUInt::from_u64(u64::MAX);
    a.add_assign(&GameUInt::from_u64(u64::MAX));
    // 2 * (2^64 - 1) = 36893488147419103230
    assert_eq!(a.to_display_string(), "36.8E");
    let mut b = a.clone();
    b.sub_assign(&GameUInt::from_u64(u64::MAX));
    assert_eq!(b, GameUInt::from_u64(u64::MAX));
    let mut c = GameUInt::from_u64(1000);
    c.add_assign_u64(500);
    assert_eq!(c, GameUInt::from_u64(1500));
}

#[test]
fn arithmetic_sub_to_zero() {
    let mut a = GameUInt::from_u64(126);
    a.sub_assign(&GameUInt::from_u64(126));
    assert!(a.is_zero());
    assert_eq!(a, GameUInt::default());
}

#[test]
fn arithmetic_mul_carries() {
    let a = GameUInt::from_u64(99_999);
    let b = GameUInt::from_u64(99_999);
    assert_eq!(a.mul(&b), GameUInt::from_u64(9_999_800_001));
    assert_eq!(GameUInt::from_u64(0).mul(&a), GameUInt::from_u64(0));
    assert_eq!(a.mul(&GameUInt::one()), a);
}

#[test]
fn arithmetic_ordering() {
    let small = GameUInt::from_u64(99);
    let big = GameUInt::from_u64(100);
    assert!(small.lt(&big));
    assert!(!big.lt(&small));
    assert!(!small.lt(&small));
    // Different digit counts.
    assert!(GameUInt::from_u64(999).lt(&GameUInt::from_u64(1000)));
    // Only the least significant digit differs.
    assert!(GameUInt::from_u64(12340).lt(&GameUInt::from_u64(12341)));
}

#[test]
fn digits_round_trip_through_vec() {
    let a = GameUInt::from_u64(90210);
    let digits = a.get();
    assert_eq!(digits, vec![0, 1, 2, 0, 9]);
    let back = GameUInt::new(digits);
    assert_eq!(back, a);
    assert_eq!(a.take(), vec![0, 1, 2, 0, 9]);
}

#[test]
fn pow_is_repeated_multiplication() {
    assert_eq!(GameUInt::from_u64(20).pow(0), GameUInt::one());
    assert_eq!(GameUInt::from_u64(20).pow(3), GameUInt::from_u64(8000));
    assert_eq!(GameUInt::from_u64(2).pow(64).to_display_string(), "18.4E");
}
