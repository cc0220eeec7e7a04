use iotop_relay::decimal::{
    char_is_digit, char_is_space, is_measurement_text, parse_digits, parse_i64, parse_u32,
};

#[test]
fn parse_u32_reads_digits() {
    assert_eq!(parse_u32("0"), Some(0));
    assert_eq!(parse_u32("7"), Some(7));
    assert_eq!(parse_u32("42"), Some(42));
    assert_eq!(parse_u32("007"), Some(7));
    assert_eq!(parse_u32("31337"), Some(31337));
    assert_eq!(parse_u32("4294967295"), Some(u32::MAX));
    assert_eq!(parse_u32("0000000004294967295"), Some(u32::MAX));
}

#[test]
fn parse_u32_refuses_everything_else() {
    assert_eq!(parse_u32(""), None);
    assert_eq!(parse_u32("4294967296"), None);
    assert_eq!(parse_u32("99999999999999999999999999999999999999999999"), None);
    assert_eq!(parse_u32("+5"), None);
    assert_eq!(parse_u32("-5"), None);
    assert_eq!(parse_u32("12a"), None);
    assert_eq!(parse_u32("a12"), None);
    assert_eq!(parse_u32(" 12"), None);
    assert_eq!(parse_u32("1.5"), None);
    assert_eq!(parse_u32("١٢"), None);
}

#[test]
fn parse_u32_agrees_with_std_on_digit_strings() {
    for text in ["0", "1", "10", "999", "65535", "65536", "4294967295", "4294967296", "12345678901"] {
        assert_eq!(parse_u32(text), text.parse::<u32>().ok());
    }
}

#[test]
fn parse_digits_reads_a_range() {
    assert_eq!(parse_digits("ab123cd", 2, 5, 1000), Some(123));
    assert_eq!(parse_digits("ab123cd", 2, 5, 123), Some(123));
    assert_eq!(parse_digits("ab123cd", 2, 5, 122), None);
    assert_eq!(parse_digits("ab123cd", 2, 2, 1000), None);
    assert_eq!(parse_digits("ab123cd", 1, 5, 1000), None);
    assert_eq!(parse_digits("ab123cd", 2, 6, 1000), None);
    assert_eq!(parse_digits("é42", 1, 3, 50), Some(42));
    assert_eq!(parse_digits("18446744073709551615", 0, 20, u64::MAX), Some(u64::MAX));
    assert_eq!(parse_digits("18446744073709551616", 0, 20, u64::MAX), None);
}

#[test]
fn parse_i64_reads_signed_numbers() {
    assert_eq!(parse_i64("900"), Some(900));
    assert_eq!(parse_i64("0"), Some(0));
    assert_eq!(parse_i64("-0"), Some(0));
    assert_eq!(parse_i64("+7"), Some(7));
    assert_eq!(parse_i64("-5"), Some(-5));
    assert_eq!(parse_i64("0012"), Some(12));
    assert_eq!(parse_i64("9223372036854775807"), Some(i64::MAX));
    assert_eq!(parse_i64("-9223372036854775808"), Some(i64::MIN));
    assert_eq!(parse_i64("-9223372036854775807"), Some(i64::MIN + 1));
}

#[test]
fn parse_i64_passes_over_white_space_at_the_ends() {
    assert_eq!(parse_i64(" 900 "), Some(900));
    assert_eq!(parse_i64("\t\n 30\r\n"), Some(30));
    assert_eq!(parse_i64("\u{a0}15\u{3000}"), Some(15));
    assert_eq!(parse_i64("  -3"), Some(-3));
    assert_eq!(parse_i64("1 2"), None);
    assert_eq!(parse_i64("- 3"), None);
    assert_eq!(parse_i64("   "), None);
}

#[test]
fn parse_i64_refuses_everything_else() {
    assert_eq!(parse_i64(""), None);
    assert_eq!(parse_i64("-"), None);
    assert_eq!(parse_i64("+"), None);
    assert_eq!(parse_i64("--5"), None);
    assert_eq!(parse_i64("+-5"), None);
    assert_eq!(parse_i64("5-"), None);
    assert_eq!(parse_i64("9223372036854775808"), None);
    assert_eq!(parse_i64("-9223372036854775809"), None);
    assert_eq!(parse_i64("12.5"), None);
    assert_eq!(parse_i64("ten"), None);
    assert_eq!(parse_i64("0x10"), None);
}

#[test]
fn parse_i64_agrees_with_std() {
    for text in [
        "900", " 900", "-1", "+1", "", "-", "+", " +12 ", "9223372036854775807",
        "9223372036854775808", "-9223372036854775808", "-9223372036854775809", "1_000", "١٢",
        "\u{2003}4\u{2003}", "\u{200b}4", "4\u{feff}",
    ] {
        assert_eq!(parse_i64(text), text.trim().parse::<i64>().ok(), "{:?}", text);
    }
}

#[test]
fn measurements_are_digits_with_at_most_one_point() {
    assert!(is_measurement_text("0.00"));
    assert!(is_measurement_text("12"));
    assert!(is_measurement_text("1."));
    assert!(is_measurement_text(".5"));
    assert!(is_measurement_text("1234.5678"));
    assert!(!is_measurement_text(""));
    assert!(!is_measurement_text("."));
    assert!(!is_measurement_text(".."));
    assert!(!is_measurement_text("1.2.3"));
    assert!(!is_measurement_text("1..2"));
    assert!(!is_measurement_text("1a"));
    assert!(!is_measurement_text("-1"));
    assert!(!is_measurement_text("1e5"));
    assert!(!is_measurement_text(" 1"));
}

#[test]
fn measurements_are_what_a_float_parser_accepts() {
    for text in ["0.00", "12", "1.", ".5", ".", "1.2.3", "", "..", "007.250", "3.", "1..", ".1."] {
        assert_eq!(is_measurement_text(text), text.parse::<f32>().is_ok(), "{:?}", text);
    }
    assert_eq!("12.50".parse::<f32>().unwrap(), 12.5f32);
}

#[test]
fn digits_are_the_ten_ascii_digits() {
    for code in 0..0x11_0000u32 {
        if let Some(c) = char::from_u32(code) {
            assert_eq!(char_is_digit(c), c.is_ascii_digit());
        }
    }
}

#[test]
fn white_space_is_what_std_calls_white_space() {
    for code in 0..0x11_0000u32 {
        if let Some(c) = char::from_u32(code) {
            assert_eq!(char_is_space(c), c.is_whitespace(), "U+{:04X}", code);
        }
    }
}
