use device_monitor::text::{digit_str, render_decimal, render_one_decimal, render_two_decimals};

#[test]
fn decimal_has_no_leading_zeros() {
    assert_eq!(render_decimal(0), "0");
    assert_eq!(render_decimal(7), "7");
    assert_eq!(render_decimal(10), "10");
    assert_eq!(render_decimal(1234567890), "1234567890");
    assert_eq!(render_decimal(u64::MAX), "18446744073709551615");
}

#[test]
fn digits_are_single_characters() {
    for d in 0..10u64 {
        assert_eq!(digit_str(d), format!("{}", d));
    }
}

#[test]
fn one_decimal_rounds_half_up_in_magnitude() {
    assert_eq!(render_one_decimal(85_000), "85.0");
    assert_eq!(render_one_decimal(97_250), "97.3");
    assert_eq!(render_one_decimal(97_249), "97.2");
    assert_eq!(render_one_decimal(49), "0.0");
    assert_eq!(render_one_decimal(50), "0.1");
    assert_eq!(render_one_decimal(0), "0.0");
    assert_eq!(render_one_decimal(-49), "0.0");
    assert_eq!(render_one_decimal(-50), "-0.1");
    assert_eq!(render_one_decimal(-12_340), "-12.3");
    assert_eq!(render_one_decimal(999_950), "1000.0");
}

#[test]
fn one_decimal_takes_the_extremes() {
    assert_eq!(render_one_decimal(i64::MAX), "9223372036854775.8");
    assert_eq!(render_one_decimal(i64::MIN), "-9223372036854775.8");
}

#[test]
fn two_decimals_keep_both_places() {
    assert_eq!(render_two_decimals(0), "0.00");
    assert_eq!(render_two_decimals(5), "0.05");
    assert_eq!(render_two_decimals(50), "0.50");
    assert_eq!(render_two_decimals(327), "3.27");
    assert_eq!(render_two_decimals(12_000), "120.00");
}
