use system_monitor::decimal::{format_fixed, push_decimal, push_fixed, round_to_hundredths};

#[test]
fn zero_has_two_places() {
    assert_eq!(format_fixed(0), "0.00");
}

#[test]
fn twelve_and_a_half() {
    assert_eq!(format_fixed(12_500_000), "12.50");
}

#[test]
fn fifty_percent() {
    assert_eq!(format_fixed(50_000_000), "50.00");
}

#[test]
fn small_values_keep_leading_zero() {
    assert_eq!(format_fixed(10_000), "0.01");
    assert_eq!(format_fixed(90_000), "0.09");
    assert_eq!(format_fixed(100_000), "0.10");
    assert_eq!(format_fixed(4_999), "0.00");
}

#[test]
fn rounds_to_nearest_hundredth() {
    assert_eq!(format_fixed(1_234_567), "1.23");
    assert_eq!(format_fixed(1_235_001), "1.24");
    assert_eq!(format_fixed(1_236_000), "1.24");
    assert_eq!(format_fixed(66_666_666), "66.67");
    assert_eq!(format_fixed(33_333_333), "33.33");
}

#[test]
fn ties_go_to_the_even_hundredth() {
    assert_eq!(format_fixed(125_000), "0.12");
    assert_eq!(format_fixed(135_000), "0.14");
    assert_eq!(format_fixed(375_000), "0.38");
    assert_eq!(format_fixed(5_000), "0.00");
    assert_eq!(format_fixed(15_000), "0.02");
}

#[test]
fn rounding_can_carry_into_the_whole_part() {
    assert_eq!(format_fixed(999_995_000), "1000.00");
    assert_eq!(format_fixed(999_996), "1.00");
    assert_eq!(format_fixed(9_995_000), "10.00");
}

#[test]
fn largest_value() {
    assert_eq!(round_to_hundredths(u64::MAX), 1_844_674_407_370_955);
    assert_eq!(format_fixed(u64::MAX), "18446744073709.55");
}

#[test]
fn round_to_hundredths_exact_values() {
    assert_eq!(round_to_hundredths(0), 0);
    assert_eq!(round_to_hundredths(10_000), 1);
    assert_eq!(round_to_hundredths(14_999), 1);
    assert_eq!(round_to_hundredths(15_000), 2);
    assert_eq!(round_to_hundredths(25_000), 2);
    assert_eq!(round_to_hundredths(25_001), 3);
}

#[test]
fn push_decimal_appends_digits() {
    let mut text = String::from("n=");
    push_decimal(&mut text, 0);
    assert_eq!(text, "n=0");
    push_decimal(&mut text, 1_234_567_890);
    assert_eq!(text, "n=01234567890");
    let mut largest = String::new();
    push_decimal(&mut largest, u64::MAX);
    assert_eq!(largest, "18446744073709551615");
}

#[test]
fn push_fixed_appends_to_what_is_there() {
    let mut text = String::from("cpu ");
    push_fixed(&mut text, 7_050_000);
    assert_eq!(text, "cpu 7.05");
}

#[test]
fn agrees_with_float_formatting_on_exact_binary_fractions() {
    for millionths in [0u64, 125_000, 250_000, 375_000, 500_000, 625_000, 875_000, 1_500_000, 12_500_000, 200_000_000] {
        let expected = format!("{:.2}", millionths as f64 / 1_000_000.0);
        assert_eq!(format_fixed(millionths), expected);
    }
}

#[test]
fn agrees_with_float_formatting_away_from_ties() {
    let mut millionths: u64 = 1;
    while millionths < 5_000_000_000 {
        if millionths % 10_000 != 5_000 {
            let expected = format!("{:.2}", millionths as f64 / 1_000_000.0);
            assert_eq!(format_fixed(millionths), expected);
        }
        millionths = millionths * 3 + 7;
    }
}
