use smart_order_router::decimal::Decimal;

fn dec(text: &str) -> Decimal {
    Decimal::parse(text).unwrap()
}

#[test]
fn new_keeps_mantissa_and_scale() {
    let d = Decimal::new(-12345, 3);
    assert_eq!(d.mantissa(), -12345);
    assert_eq!(d.scale(), 3);
    assert_eq!(d.to_text(), "-12.345");
    assert!(Decimal::try_new(1, 28).is_some());
    assert!(Decimal::try_new(1, 29).is_none());
    let big = Decimal::from_i128_with_scale(79_228_162_514_264_337_593_543_950_335, 0);
    assert_eq!(big.to_text(), "79228162514264337593543950335");
    assert!(Decimal::try_from_i128_with_scale(79_228_162_514_264_337_593_543_950_336, 0).is_none());
    assert!(Decimal::try_from_i128_with_scale(-79_228_162_514_264_337_593_543_950_336, 0).is_none());
    assert!(Decimal::try_from_i128_with_scale(1, 29).is_none());
    assert_eq!(Decimal::try_from_i128_with_scale(15, 1).unwrap(), dec("1.5"));
}

#[test]
fn zero_is_zero() {
    assert!(Decimal::zero().is_zero());
    assert!(dec("0.000").is_zero());
    assert!(!dec("0.001").is_zero());
    assert!(dec("0.001").is_positive());
    assert!(!dec("0").is_positive());
    assert!(!dec("-3").is_positive());
    assert!(dec("-3").is_negative());
    assert!(!dec("0").is_negative());
}

#[test]
fn comparison_is_by_number() {
    assert_eq!(dec("1.0"), dec("1.00"));
    assert_ne!(dec("1.0"), dec("1.01"));
    assert!(dec("1.5") > dec("1.25"));
    assert!(dec("-1.5") < dec("-1.25"));
    assert!(dec("2") >= dec("2.000"));
    assert!(dec("2") <= dec("2.000"));
    assert!(dec("0.5") < dec("50"));
    assert!(!(dec("50") < dec("0.5")));
    assert!(dec("-1") < dec("0"));
}

#[test]
fn sum_difference_product_quotient() {
    assert_eq!(dec("1.25").checked_add(dec("2.5")).unwrap(), dec("3.75"));
    assert_eq!(dec("1.25").checked_sub(dec("2.5")).unwrap(), dec("-1.25"));
    assert_eq!(dec("1.25").checked_mul(dec("2.5")).unwrap(), dec("3.125"));
    assert_eq!(dec("1.25").checked_div(dec("2.5")).unwrap(), dec("0.5"));
    assert_eq!(dec("1").checked_div(dec("3")).unwrap(), dec("0.3333333333333333333333333333"));
}

#[test]
fn operations_without_a_result_give_none() {
    let max = Decimal::from_i128_with_scale(79_228_162_514_264_337_593_543_950_335, 0);
    assert!(max.checked_add(dec("1")).is_none());
    assert!(dec("0").checked_sub(max).is_some());
    assert!(dec("-1").checked_sub(max).is_none());
    assert!(max.checked_mul(dec("2")).is_none());
    assert!(dec("1").checked_div(dec("0")).is_none());
    assert!(max.checked_div(dec("0.1")).is_none());
}

#[test]
fn min_takes_the_smaller_and_the_first_of_equals() {
    assert_eq!(dec("1.5").min(dec("2")), dec("1.5"));
    assert_eq!(dec("2").min(dec("1.5")), dec("1.5"));
    assert_eq!(dec("1.50").min(dec("1.5")).scale(), 2);
    assert_eq!(dec("1.5").min(dec("1.50")).scale(), 1);
}

#[test]
fn abs_drops_the_sign() {
    assert_eq!(dec("-1.50").abs(), dec("1.5"));
    assert_eq!(dec("-1.50").abs().scale(), 2);
    assert_eq!(dec("-1.50").abs().mantissa(), 150);
    assert_eq!(dec("1.5").abs(), dec("1.5"));
    assert_eq!(dec("0").abs(), dec("0"));
}

#[test]
fn whole_numbers_have_scale_zero() {
    let five = Decimal::from_usize(5);
    assert_eq!(five.mantissa(), 5);
    assert_eq!(five.scale(), 0);
    assert_eq!(Decimal::from_usize(0), dec("0"));
}

#[test]
fn parse_reads_decimal_text() {
    let d = dec("50000.25");
    assert_eq!(d.mantissa(), 5000025);
    assert_eq!(d.scale(), 2);
    assert_eq!(dec("-0.5").mantissa(), -5);
    assert!(Decimal::parse("").is_none());
    assert!(Decimal::parse("abc").is_none());
    assert!(Decimal::parse("1.2.3").is_none());
}

#[test]
fn text_with_and_without_fixed_places() {
    assert_eq!(dec("50000.256").to_text(), "50000.256");
    assert_eq!(dec("50000.256").to_fixed(2), "50000.25");
    assert_eq!(dec("50000.2").to_fixed(2), "50000.20");
    assert_eq!(dec("50000").to_fixed(4), "50000.0000");
    assert_eq!(dec("-0.5").to_fixed(0), "-0");
    assert_eq!(dec("7").to_fixed(0), "7");
}

#[test]
fn fixed_text_has_a_longest_length() {
    let max = Decimal::from_i128_with_scale(79_228_162_514_264_337_593_543_950_335, 0);
    // 29 digits, the point and 2 places are 32 characters
    assert_eq!(max.try_to_fixed(2).unwrap(), "79228162514264337593543950335.00");
    assert_eq!(max.try_to_fixed(0).unwrap(), "79228162514264337593543950335");
    assert_eq!(max.try_to_fixed(3), None);
    let thousand_septillion = dec("1000000000000000000000000000");
    assert_eq!(thousand_septillion.try_to_fixed(3).unwrap(), "1000000000000000000000000000.000");
    assert_eq!(thousand_septillion.try_to_fixed(4), None);
    // a number below one has its zero before the point
    let tiny = dec("0.0000000000000000000000000001");
    assert_eq!(tiny.try_to_fixed(28).unwrap(), "0.0000000000000000000000000001");
    assert_eq!(tiny.try_to_fixed(29), None);
    assert_eq!(tiny.try_to_fixed(0).unwrap(), "0");
    assert_eq!(dec("123.4").try_to_fixed(28).unwrap(), "123.4000000000000000000000000000");
    assert_eq!(dec("1234.5").try_to_fixed(28), None);
    assert_eq!(dec("-1234.5").try_to_fixed(27).unwrap(), "-1234.500000000000000000000000000");
    assert_eq!(dec("0").try_to_fixed(2).unwrap(), "0.00");
    assert_eq!(dec("0.5").try_to_fixed(1).unwrap(), "0.5");
    assert_eq!(dec("9.99").try_to_fixed(1).unwrap(), "9.9");
    assert_eq!(dec("10").try_to_fixed(1).unwrap(), "10.0");
}
