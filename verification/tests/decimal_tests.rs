use trading_core::decimal::{narrow, wide_div, Decimal, RAW_MAX, RAW_MIN, SCALE};
use trading_core::statistics::{mean_of, sum_raw, variance_of, wide_sqrt};
use trading_core::text::{digit_text, numbered};

fn amount(value: f64) -> Decimal {
    Decimal::from_raw((value * 100_000_000.0).round() as i64)
}

#[test]
fn amounts_keep_eight_places() {
    assert_eq!(SCALE, 100_000_000);
    assert_eq!(Decimal::from_int(3).raw, 300_000_000);
    assert_eq!(Decimal::from_int(-3).raw, -300_000_000);
    assert_eq!(Decimal::zero().raw, 0);
    assert_eq!(Decimal::from_raw(5).raw, 5);
    assert_eq!(Decimal::from_int(i64::MAX).raw, RAW_MAX);
    assert_eq!(Decimal::from_int(i64::MIN).raw, RAW_MIN);
}

#[test]
fn sums_and_differences_clamp() {
    assert_eq!(amount(1.5).plus(amount(2.25)), amount(3.75));
    assert_eq!(amount(1.5).minus(amount(2.25)), amount(-0.75));
    assert_eq!(Decimal::from_raw(RAW_MAX).plus(amount(1.0)), Decimal::from_raw(RAW_MAX));
    assert_eq!(Decimal::from_raw(RAW_MIN).minus(amount(1.0)), Decimal::from_raw(RAW_MIN));
    assert_eq!(Decimal::from_raw(RAW_MIN).minus(Decimal::from_raw(RAW_MAX)), Decimal::from_raw(RAW_MIN));
    assert_eq!(Decimal::from_raw(RAW_MAX).minus(Decimal::from_raw(RAW_MIN)), Decimal::from_raw(RAW_MAX));
}

#[test]
fn products_round_toward_zero_and_clamp() {
    assert_eq!(amount(1.5).times(amount(2.0)), amount(3.0));
    assert_eq!(amount(-1.5).times(amount(2.0)), amount(-3.0));
    assert_eq!(Decimal::from_raw(1).times(Decimal::from_raw(99_999_999)), Decimal::from_raw(0));
    assert_eq!(Decimal::from_raw(-1).times(Decimal::from_raw(99_999_999)), Decimal::from_raw(0));
    assert_eq!(Decimal::from_raw(3).times(amount(0.5)), Decimal::from_raw(1));
    assert_eq!(Decimal::from_raw(-3).times(amount(0.5)), Decimal::from_raw(-1));
    assert_eq!(Decimal::from_raw(RAW_MAX).times(amount(2.0)), Decimal::from_raw(RAW_MAX));
    assert_eq!(Decimal::from_raw(RAW_MAX).times(amount(-2.0)), Decimal::from_raw(RAW_MIN));
    assert_eq!(Decimal::from_raw(RAW_MIN).times(Decimal::from_raw(RAW_MIN)), Decimal::from_raw(RAW_MAX));
}

#[test]
fn quotients_round_toward_zero_and_clamp() {
    assert_eq!(amount(3.0).over(amount(2.0)), amount(1.5));
    assert_eq!(amount(1.0).over(amount(3.0)), Decimal::from_raw(33_333_333));
    assert_eq!(amount(-1.0).over(amount(3.0)), Decimal::from_raw(-33_333_333));
    assert_eq!(amount(1.0).over(amount(-3.0)), Decimal::from_raw(-33_333_333));
    assert_eq!(amount(-1.0).over(amount(-3.0)), Decimal::from_raw(33_333_333));
    assert_eq!(amount(1.0).over(Decimal::from_raw(1)), amount(100_000_000.0));
    assert_eq!(Decimal::from_raw(RAW_MAX).over(Decimal::from_raw(1)), Decimal::from_raw(RAW_MAX));
    assert_eq!(Decimal::from_raw(RAW_MIN).over(Decimal::from_raw(1)), Decimal::from_raw(RAW_MIN));
    assert_eq!(Decimal::from_raw(RAW_MIN).over(Decimal::from_raw(-1)), Decimal::from_raw(RAW_MAX));
}

#[test]
fn division_by_zero_takes_the_bound_of_the_sign() {
    assert_eq!(amount(1.0).over(amount(0.0)), Decimal::from_raw(RAW_MAX));
    assert_eq!(amount(-1.0).over(amount(0.0)), Decimal::from_raw(RAW_MIN));
    assert_eq!(amount(0.0).over(amount(0.0)), amount(0.0));
}

#[test]
fn comparisons_follow_the_raw_value() {
    assert!(amount(1.0).lt(amount(2.0)));
    assert!(!amount(2.0).lt(amount(2.0)));
    assert!(amount(2.0).le(amount(2.0)));
    assert!(amount(3.0).gt(amount(2.0)));
    assert!(!amount(2.0).gt(amount(2.0)));
    assert!(amount(2.0).ge(amount(2.0)));
    assert!(amount(0.00000001).is_positive());
    assert!(!amount(0.0).is_positive());
    assert!(!amount(-1.0).is_positive());
    assert!(amount(-1.0) < amount(1.0));
}

#[test]
fn wide_helpers() {
    assert_eq!(wide_div(7, 2), 3);
    assert_eq!(wide_div(-7, 2), -3);
    assert_eq!(wide_div(7, -2), -3);
    assert_eq!(wide_div(-7, -2), 3);
    assert_eq!(wide_div(0, -2), 0);
    assert_eq!(narrow(i128::MAX), RAW_MAX);
    assert_eq!(narrow(i128::MIN), RAW_MIN);
    assert_eq!(narrow(-12), -12);
}

#[test]
fn square_roots_round_down() {
    assert_eq!(wide_sqrt(0), 0);
    assert_eq!(wide_sqrt(1), 1);
    assert_eq!(wide_sqrt(3), 1);
    assert_eq!(wide_sqrt(4), 2);
    assert_eq!(wide_sqrt(99), 9);
    assert_eq!(wide_sqrt(u128::MAX), u64::MAX);
    assert_eq!(wide_sqrt((u64::MAX as u128) * (u64::MAX as u128) - 1), u64::MAX - 1);
    assert_eq!(amount(4.0).sqrt(), amount(2.0));
    assert_eq!(amount(2.0).sqrt(), Decimal::from_raw(141_421_356));
    assert_eq!(amount(365.0).sqrt(), Decimal::from_raw(1_910_497_317));
    assert_eq!(amount(0.0).sqrt(), amount(0.0));
    assert_eq!(amount(-4.0).sqrt(), amount(0.0));
    assert_eq!(Decimal::from_raw(1).sqrt(), Decimal::from_raw(10_000));
}

#[test]
fn means_and_variances() {
    let values = vec![amount(1.0), amount(2.0), amount(4.0)];
    assert_eq!(sum_raw(&values), 700_000_000);
    assert_eq!(mean_of(&values), Decimal::from_raw(233_333_333));
    assert_eq!(mean_of(&vec![]), amount(0.0));
    assert_eq!(mean_of(&vec![amount(-1.0), amount(-2.0), amount(-4.0)]), Decimal::from_raw(-233_333_333));
    assert_eq!(variance_of(&vec![amount(1.0), amount(3.0)]), amount(1.0));
    assert_eq!(variance_of(&vec![amount(5.0)]), amount(0.0));
    assert_eq!(variance_of(&vec![]), amount(0.0));
    let extremes = vec![Decimal::from_raw(RAW_MAX), Decimal::from_raw(RAW_MAX), Decimal::from_raw(RAW_MAX)];
    assert_eq!(mean_of(&extremes), Decimal::from_raw(RAW_MAX));
}

#[test]
fn parse_reads_plain_decimals() {
    assert_eq!(Decimal::parse("0"), Some(amount(0.0)));
    assert_eq!(Decimal::parse("42"), Some(amount(42.0)));
    assert_eq!(Decimal::parse("42.5"), Some(amount(42.5)));
    assert_eq!(Decimal::parse("-42.5"), Some(amount(-42.5)));
    assert_eq!(Decimal::parse("+42.5"), Some(amount(42.5)));
    assert_eq!(Decimal::parse("0.00000001"), Some(Decimal::from_raw(1)));
    assert_eq!(Decimal::parse("65432.12345678"), Some(Decimal::from_raw(6_543_212_345_678)));
    assert_eq!(Decimal::parse("007.100"), Some(amount(7.1)));
    assert_eq!(Decimal::parse(".5"), Some(amount(0.5)));
    assert_eq!(Decimal::parse("5."), Some(amount(5.0)));
    assert_eq!(Decimal::parse("-.5"), Some(amount(-0.5)));
    assert_eq!(Decimal::parse("-0"), Some(amount(0.0)));
}

#[test]
fn parse_drops_places_after_the_eighth() {
    assert_eq!(Decimal::parse("1.123456789"), Some(Decimal::from_raw(112_345_678)));
    assert_eq!(Decimal::parse("-1.999999999999"), Some(Decimal::from_raw(-199_999_999)));
    assert_eq!(Decimal::parse("0.000000009"), Some(amount(0.0)));
}

#[test]
fn parse_clamps_what_is_out_of_range() {
    assert_eq!(Decimal::parse("92233720368.54775807"), Some(Decimal::from_raw(RAW_MAX)));
    assert_eq!(Decimal::parse("92233720368.54775808"), Some(Decimal::from_raw(RAW_MAX)));
    assert_eq!(Decimal::parse("-92233720368.54775808"), Some(Decimal::from_raw(RAW_MIN)));
    assert_eq!(Decimal::parse("-92233720368.54775809"), Some(Decimal::from_raw(RAW_MIN)));
    assert_eq!(Decimal::parse("999999999999"), Some(Decimal::from_raw(RAW_MAX)));
    assert_eq!(Decimal::parse("1000000000000"), Some(Decimal::from_raw(RAW_MAX)));
    assert_eq!(
        Decimal::parse("123456789012345678901234567890123456789012345678901234567890"),
        Some(Decimal::from_raw(RAW_MAX))
    );
    assert_eq!(
        Decimal::parse("-123456789012345678901234567890123456789012345678901234567890.5"),
        Some(Decimal::from_raw(RAW_MIN))
    );
}

#[test]
fn parse_refuses_other_text() {
    for text in ["", "-", "+", ".", "-.", "1.2.3", "1e5", "abc", "1,5", " 1", "1 ", "--1", "+-1", "1-", "inf", "NaN", "١٢", "1.٢", "0x10", "1_000"] {
        assert_eq!(Decimal::parse(text), None, "{:?}", text);
    }
}

#[test]
fn numbers_as_text() {
    assert_eq!(digit_text(0), "0");
    assert_eq!(digit_text(9), "9");
    assert_eq!(numbered("n", 0), "n0");
    assert_eq!(numbered("", 10), "10");
    assert_eq!(numbered("ema_", 305), "ema_305");
    assert_eq!(numbered("x", usize::MAX), format!("x{}", usize::MAX));
}

#[test]
fn amounts_as_text() {
    assert_eq!(amount(1234.567).to_text(2), "1234.57");
    assert_eq!(amount(1234.564).to_text(2), "1234.56");
    assert_eq!(amount(0.005).to_text(2), "0.01");
    assert_eq!(amount(-0.005).to_text(2), "-0.01");
    assert_eq!(amount(0.004).to_text(2), "0.00");
    assert_eq!(amount(-0.004).to_text(2), "0.00");
    assert_eq!(amount(-1.5).to_text(2), "-1.50");
    assert_eq!(amount(2.5).to_text(0), "3");
    assert_eq!(amount(-2.5).to_text(0), "-3");
    assert_eq!(amount(2.4).to_text(0), "2");
    assert_eq!(amount(0.0).to_text(0), "0");
    assert_eq!(amount(0.0).to_text(4), "0.0000");
    assert_eq!(amount(1.00005).to_text(4), "1.0001");
    assert_eq!(amount(0.10000002).to_text(4), "0.1000");
    assert_eq!(Decimal::from_raw(1).to_text(8), "0.00000001");
    assert_eq!(amount(99.999).to_text(2), "100.00");
    assert_eq!(amount(7.0).to_text(8), "7.00000000");
    assert_eq!(Decimal::from_raw(RAW_MAX).to_text(8), "92233720368.54775807");
    assert_eq!(Decimal::from_raw(RAW_MIN).to_text(8), "-92233720368.54775808");
    assert_eq!(Decimal::from_raw(RAW_MAX).to_text(2), "92233720368.55");
    assert_eq!(Decimal::from_raw(RAW_MIN).to_text(0), "-92233720369");
    let mut text = "x=".to_string();
    amount(3.14159).push_text(&mut text, 3);
    assert_eq!(text, "x=3.142");
}

#[test]
fn whole_numbers_as_text() {
    let mut text = String::new();
    trading_core::text::push_signed(&mut text, -45);
    trading_core::text::push_signed(&mut text, 0);
    trading_core::text::push_signed(&mut text, i64::MIN);
    trading_core::text::push_padded(&mut text, 7, 3);
    trading_core::text::push_padded(&mut text, 12345, 2);
    trading_core::text::push_padded(&mut text, 9, 0);
    trading_core::text::push_wide(&mut text, u128::MAX);
    assert_eq!(text, format!("-450{}00745{}", i64::MIN, u128::MAX));
    assert_eq!(trading_core::text::power_of_ten(0), 1);
    assert_eq!(trading_core::text::power_of_ten(8), 100_000_000);
}
