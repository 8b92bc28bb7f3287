use ss58_registry::numeral::{decimal_string, parse_u16, push_decimal, push_three_digits};
use ss58_registry::token::power_of_ten;
use ss58_registry::Token;

#[test]
fn token_is_shown_with_grouped_digits() {
    let token = Token { name: "I❤U", decimals: 8, amount: 100_000_000_000 };
    assert_eq!(token.to_string(), "1_000,000 I❤U");
    assert_eq!(token.to_debug_string(), "1000,000 I❤U (100_000_000_000)");
}

#[test]
fn fraction_shows_its_first_three_digits() {
    let token = Token { name: "DOT", decimals: 10, amount: 12_345_678_901_234 };
    assert_eq!(token.to_string(), "1_234,567 DOT");
    assert_eq!(token.to_debug_string(), "1234,567 DOT (12_345_678_901_234)");
    let small = Token { name: "DOT", decimals: 10, amount: 9_999_999 };
    assert_eq!(small.to_string(), "0,000 DOT");
    assert_eq!(small.to_debug_string(), "0,000 DOT (9_999_999)");
    let none = Token { name: "KSM", decimals: 12, amount: 0 };
    assert_eq!(none.to_string(), "0,000 KSM");
    assert_eq!(none.to_debug_string(), "0,000 KSM (0)");
}

#[test]
fn three_decimals_show_the_whole_fraction() {
    let token = Token { name: "T", decimals: 3, amount: 1_234_567 };
    assert_eq!(token.to_string(), "1_234,567 T");
    assert_eq!(token.to_debug_string(), "1234,567 T (1_234_567)");
    let padded = Token { name: "T", decimals: 3, amount: 5_007 };
    assert_eq!(padded.to_string(), "5,007 T");
}

#[test]
fn largest_amount_and_most_decimals() {
    let token = Token { name: "X", decimals: 38, amount: u128::MAX };
    assert_eq!(token.to_string(), "3,402 X");
    assert_eq!(
        token.to_debug_string(),
        "3,402 X (340_282_366_920_938_463_463_374_607_431_768_211_455)"
    );
    let whole = Token { name: "X", decimals: 3, amount: u128::MAX };
    assert_eq!(whole.to_string(), "340_282_366_920_938_463_463_374_607_431_768_211,455 X");
}

#[test]
fn amounts_with_too_few_or_too_many_decimals_are_not_written() {
    assert!(!Token { name: "TOTEM", decimals: 0, amount: 1 }.is_writable());
    assert!(!Token { name: "T", decimals: 2, amount: 1 }.is_writable());
    assert!(Token { name: "T", decimals: 3, amount: 1 }.is_writable());
    assert!(Token { name: "T", decimals: 38, amount: 1 }.is_writable());
    assert!(!Token { name: "T", decimals: 39, amount: 1 }.is_writable());
    assert!(!Token { name: "T", decimals: 255, amount: 1 }.is_writable());
}

#[test]
fn powers_of_ten() {
    assert_eq!(power_of_ten(0), 1);
    assert_eq!(power_of_ten(1), 10);
    assert_eq!(power_of_ten(3), 1000);
    assert_eq!(power_of_ten(38), 100_000_000_000_000_000_000_000_000_000_000_000_000);
}

#[test]
fn decimal_numerals_are_written() {
    assert_eq!(decimal_string(0), "0");
    assert_eq!(decimal_string(7), "7");
    assert_eq!(decimal_string(10), "10");
    assert_eq!(decimal_string(65535), "65535");
    assert_eq!(decimal_string(u128::MAX), u128::MAX.to_string());
    let mut text = String::from("n=");
    push_decimal(&mut text, 1203);
    assert_eq!(text, "n=1203");
    push_three_digits(&mut text, 7);
    assert_eq!(text, "n=1203007");
    push_three_digits(&mut text, 999);
    assert_eq!(text, "n=1203007999");
}

#[test]
fn decimal_numerals_are_read() {
    assert_eq!(parse_u16("0"), Some(0));
    assert_eq!(parse_u16("007"), Some(7));
    assert_eq!(parse_u16("65535"), Some(65535));
    assert_eq!(parse_u16("065535"), Some(65535));
    assert_eq!(parse_u16("65536"), None);
    assert_eq!(parse_u16("99999999999999999999999999"), None);
    assert_eq!(parse_u16(""), None);
    assert_eq!(parse_u16("+1"), None);
    assert_eq!(parse_u16("-1"), None);
    assert_eq!(parse_u16(" 1"), None);
    assert_eq!(parse_u16("1 "), None);
    assert_eq!(parse_u16("1_000"), None);
    assert_eq!(parse_u16("١٢"), None);
    assert_eq!(parse_u16("12a"), None);
}

#[test]
fn written_numerals_are_read_back() {
    for u in 0..=u16::MAX {
        assert_eq!(parse_u16(&decimal_string(u as u128)), Some(u));
    }
}
