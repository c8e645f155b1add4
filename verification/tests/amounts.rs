use uomi_agent::amount::{
    amount_digits, format_amount, format_converted, parse_amount, parse_decimal,
};
use uomi_agent::digits::{
    add_scaled, digits_of_u64, fixed_string, increment, mul_digits, round_digits, scale_digits,
    shift_left,
};

fn digits(text: &str) -> Vec<u8> {
    text.bytes().map(|b| b - b'0').collect()
}

#[test]
fn native_balance_shows_six_places() {
    assert_eq!(format_amount("1500000000000000000", 18, 6), "1.500000");
}

#[test]
fn fiat_value_shows_two_places() {
    assert_eq!(format_converted("1500000000000000000", 18, "2.5", 2), "3.75");
}

#[test]
fn token_balance_shows_two_places() {
    assert_eq!(format_amount("1000000", 6, 2), "1.00");
}

#[test]
fn zero_shows_as_zero() {
    assert_eq!(format_amount("0", 18, 6), "0.000000");
    assert_eq!(format_amount("000", 0, 2), "0.00");
}

#[test]
fn a_balance_below_the_last_place_rounds_away() {
    assert_eq!(format_amount("1234567", 18, 6), "0.000000");
    assert_eq!(format_amount("499999999999", 18, 6), "0.000000");
    assert_eq!(format_amount("500000000001", 18, 6), "0.000001");
}

#[test]
fn a_half_goes_to_the_even_neighbour() {
    assert_eq!(format_amount("125", 3, 2), "0.12");
    assert_eq!(format_amount("135", 3, 2), "0.14");
    assert_eq!(format_amount("1250", 4, 2), "0.12");
    assert_eq!(format_amount("1251", 4, 2), "0.13");
    assert_eq!(format_amount("5", 1, 0), "0");
    assert_eq!(format_amount("15", 1, 0), "2");
    assert_eq!(format_amount("25", 1, 0), "2");
}

#[test]
fn rounding_up_carries_into_the_whole_part() {
    assert_eq!(format_amount("999999", 5, 2), "10.00");
    assert_eq!(format_amount("9999995", 7, 6), "1.000000");
    assert_eq!(format_amount("995", 3, 2), "1.00");
    assert_eq!(format_amount("985", 3, 2), "0.98");
}

#[test]
fn fewer_decimals_than_places_pads_with_zeros() {
    assert_eq!(format_amount("42", 0, 2), "42.00");
    assert_eq!(format_amount("425", 1, 2), "42.50");
    assert_eq!(format_amount("7", 1, 6), "0.700000");
}

#[test]
fn leading_zeros_do_not_show() {
    assert_eq!(format_amount("0001500000000000000000", 18, 6), "1.500000");
}

#[test]
fn a_balance_beyond_any_machine_word_is_exact() {
    let raw = "115792089237316195423570985008687907853269984665640564039457584007913129639935";
    assert_eq!(
        format_amount(raw, 18, 6),
        "115792089237316195423570985008687907853269984665640564039457.584008"
    );
    assert_eq!(
        format_amount(raw, 0, 0),
        "115792089237316195423570985008687907853269984665640564039457584007913129639935"
    );
}

#[test]
fn the_widest_token_scale_is_handled() {
    assert_eq!(format_amount("1", 255, 2), "0.00");
    let raw = format!("12345{}", "0".repeat(253));
    assert_eq!(format_amount(&raw, 255, 2), "123.45");
}

#[test]
fn text_that_is_no_number_counts_as_zero() {
    for raw in ["", "abc", "-5", "+5", "1.5", "1e18", " 12", "12 ", "\u{ff11}\u{ff12}", "0x10"] {
        assert_eq!(format_amount(raw, 18, 6), "0.000000", "on {:?}", raw);
        assert_eq!(parse_amount(raw), None, "on {:?}", raw);
        assert_eq!(amount_digits(raw), Vec::<u8>::new(), "on {:?}", raw);
    }
}

#[test]
fn parse_amount_gives_the_digits() {
    assert_eq!(parse_amount("1500"), Some(vec![1, 5, 0, 0]));
    assert_eq!(parse_amount("007"), Some(vec![0, 0, 7]));
    assert_eq!(amount_digits("90"), vec![9, 0]);
}

#[test]
fn parse_decimal_reads_digits_and_scale() {
    let d = parse_decimal("2.5").unwrap();
    assert_eq!((d.digits, d.scale), (vec![2, 5], 1));
    let d = parse_decimal("3").unwrap();
    assert_eq!((d.digits, d.scale), (vec![3], 0));
    let d = parse_decimal("0.0000001").unwrap();
    assert_eq!((d.digits, d.scale), (vec![0, 0, 0, 0, 0, 0, 0, 1], 7));
    let d = parse_decimal("100.250").unwrap();
    assert_eq!((d.digits, d.scale), (vec![1, 0, 0, 2, 5, 0], 3));
}

#[test]
fn parse_decimal_refuses_what_is_no_decimal() {
    for text in ["", ".", ".5", "5.", "1.2.3", "-2.5", "2,5", "1e3", "NaN", "inf", " 2.5", "2.5 "] {
        assert!(parse_decimal(text).is_none(), "on {:?}", text);
    }
}

#[test]
fn converting_multiplies_exactly() {
    assert_eq!(format_converted("1000000000000000000", 18, "0.005", 2), "0.00");
    assert_eq!(format_converted("1000000000000000000", 18, "0.015", 2), "0.02");
    assert_eq!(format_converted("3000000000000000000", 18, "0.005", 2), "0.02");
    assert_eq!(format_converted("2000000000000000000", 18, "1234.5678", 2), "2469.14");
    assert_eq!(format_converted("1", 18, "100000000000000000000", 2), "100.00");
    assert_eq!(format_converted("123456789012345678901234567890", 18, "3", 2), "370370367037.04");
    assert_eq!(format_converted("0", 18, "2.5", 2), "0.00");
    assert_eq!(format_converted("1500000000000000000", 18, "0", 2), "0.00");
}

#[test]
fn a_rate_that_is_no_number_counts_as_zero() {
    assert_eq!(format_converted("1500000000000000000", 18, "-2.5", 2), "0.00");
    assert_eq!(format_converted("1500000000000000000", 18, "NaN", 2), "0.00");
    assert_eq!(format_converted("abc", 18, "2.5", 2), "0.00");
}

#[test]
fn increment_carries() {
    assert_eq!(increment(&digits("")), digits("1"));
    assert_eq!(increment(&digits("0")), digits("1"));
    assert_eq!(increment(&digits("129")), digits("130"));
    assert_eq!(increment(&digits("999")), digits("1000"));
    assert_eq!(increment(&digits("0099")), digits("0100"));
}

#[test]
fn round_digits_rounds_half_to_even() {
    assert_eq!(round_digits(&digits("12345"), 0), digits("12345"));
    assert_eq!(round_digits(&digits("12345"), 1), digits("1234"));
    assert_eq!(round_digits(&digits("12355"), 1), digits("1236"));
    assert_eq!(round_digits(&digits("12350"), 2), digits("124"));
    assert_eq!(round_digits(&digits("12250"), 2), digits("122"));
    assert_eq!(round_digits(&digits("12251"), 2), digits("123"));
    assert_eq!(round_digits(&digits("51"), 2), digits("1"));
    assert_eq!(round_digits(&digits("50"), 2), digits(""));
    assert_eq!(round_digits(&digits("99"), 3), digits(""));
    assert_eq!(round_digits(&digits("99"), 2), digits("1"));
}

#[test]
fn scale_digits_counts_in_steps_of_the_last_place() {
    assert_eq!(scale_digits(&digits("15"), 1, 3), digits("1500"));
    assert_eq!(scale_digits(&digits("15"), 3, 3), digits("15"));
    assert_eq!(scale_digits(&digits("1567"), 3, 1), digits("16"));
    assert_eq!(scale_digits(&digits("1567"), u128::MAX, 1), digits(""));
}

#[test]
fn shift_left_appends_zeros() {
    assert_eq!(shift_left(&digits("12"), 0), digits("12"));
    assert_eq!(shift_left(&digits("12"), 3), digits("12000"));
}

#[test]
fn fixed_string_puts_the_point() {
    assert_eq!(fixed_string(&digits("12345"), 2), "123.45");
    assert_eq!(fixed_string(&digits("45"), 2), "0.45");
    assert_eq!(fixed_string(&digits("5"), 2), "0.05");
    assert_eq!(fixed_string(&digits(""), 2), "0.00");
    assert_eq!(fixed_string(&digits("00123"), 0), "123");
    assert_eq!(fixed_string(&digits(""), 0), "0");
}

fn as_number(d: &[u8]) -> u128 {
    d.iter().fold(0u128, |n, &x| n * 10 + x as u128)
}

#[test]
fn mul_digits_is_the_product() {
    let samples: [u64; 9] = [0, 1, 9, 10, 99, 12345, 99999, 4294967295, 18446744073709551615];
    for &a in samples.iter() {
        for &b in samples.iter() {
            let got = mul_digits(&digits_of_u64(a), &digits_of_u64(b));
            assert!(got.iter().all(|&d| d < 10));
            assert_eq!(as_number(&got), a as u128 * b as u128, "{} * {}", a, b);
        }
    }
}

#[test]
fn add_scaled_adds_a_multiple() {
    let got = add_scaled(&digits("999"), &digits("99"), 9);
    assert_eq!(as_number(&got), 999 + 99 * 9);
    let got = add_scaled(&digits(""), &digits("12"), 0);
    assert_eq!(as_number(&got), 0);
    let got = add_scaled(&digits("5"), &digits("123456"), 7);
    assert_eq!(as_number(&got), 5 + 123456 * 7);
}

#[test]
fn digits_of_u64_are_the_digits() {
    assert_eq!(digits_of_u64(0), digits(""));
    assert_eq!(digits_of_u64(7), digits("7"));
    assert_eq!(digits_of_u64(1200), digits("1200"));
    assert_eq!(digits_of_u64(u64::MAX), digits("18446744073709551615"));
}
