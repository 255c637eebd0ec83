use enma::text::{decimal, or_default, parse_port, same_text, signed_decimal};

#[test]
fn decimal_of_small_numbers() {
    assert_eq!(decimal(0), "0");
    assert_eq!(decimal(7), "7");
    assert_eq!(decimal(10), "10");
    assert_eq!(decimal(408), "408");
    assert_eq!(decimal(1234567890), "1234567890");
}

#[test]
fn decimal_of_the_largest_number() {
    assert_eq!(decimal(u64::MAX), "18446744073709551615");
}

#[test]
fn decimal_agrees_with_the_standard_rendering() {
    let mut n: u64 = 1;
    for _ in 0..60 {
        assert_eq!(decimal(n), n.to_string());
        assert_eq!(decimal(n - 1), (n - 1).to_string());
        n = n.wrapping_mul(3).wrapping_add(1);
    }
}

#[test]
fn signed_decimal_puts_a_minus_before_negatives() {
    assert_eq!(signed_decimal(0), "0");
    assert_eq!(signed_decimal(42), "42");
    assert_eq!(signed_decimal(-1), "-1");
    assert_eq!(signed_decimal(-2147483648), "-2147483648");
    assert_eq!(signed_decimal(i64::MAX), "9223372036854775807");
    assert_eq!(signed_decimal(i64::MIN), "-9223372036854775808");
}

#[test]
fn same_text_compares_characters() {
    assert!(same_text("", ""));
    assert!(same_text("/health", "/health"));
    assert!(!same_text("/health", "/healthz"));
    assert!(!same_text("/Health", "/health"));
    assert!(same_text("é", "é"));
}

#[test]
fn port_is_read_from_digits() {
    assert_eq!(parse_port("0"), Some(0));
    assert_eq!(parse_port("8200"), Some(8200));
    assert_eq!(parse_port("65535"), Some(65535));
    assert_eq!(parse_port("+8080"), Some(8080));
    assert_eq!(parse_port("0008080"), Some(8080));
    assert_eq!(parse_port("00000000000000000000000000000000000000007"), Some(7));
}

#[test]
fn port_beyond_the_range_is_refused() {
    assert_eq!(parse_port("65536"), None);
    assert_eq!(parse_port("99999"), None);
    assert_eq!(parse_port("4294967296"), None);
    assert_eq!(parse_port("18446744073709551616000"), None);
}

#[test]
fn port_with_anything_but_digits_is_refused() {
    assert_eq!(parse_port(""), None);
    assert_eq!(parse_port("+"), None);
    assert_eq!(parse_port("-1"), None);
    assert_eq!(parse_port("++1"), None);
    assert_eq!(parse_port("1+"), None);
    assert_eq!(parse_port(" 80"), None);
    assert_eq!(parse_port("80 "), None);
    assert_eq!(parse_port("8o"), None);
    assert_eq!(parse_port("0x50"), None);
    assert_eq!(parse_port("٨٠"), None);
}

#[test]
fn port_reading_agrees_with_the_standard_parser() {
    for text in ["1", "+1", "01", "65535", "65536", "", "+", "-0", "12a", "a12", "७"] {
        assert_eq!(parse_port(text), text.parse::<u16>().ok(), "{:?}", text);
    }
    for n in [0u16, 1, 9, 10, 99, 100, 8200, 65534, 65535] {
        assert_eq!(parse_port(decimal(n as u64).as_str()), Some(n));
    }
}

#[test]
fn default_stands_in_for_what_is_not_given() {
    assert_eq!(or_default(None, "info"), "info");
    assert_eq!(or_default(Some(String::from("debug")), "info"), "debug");
    assert_eq!(or_default(Some(String::new()), "info"), "");
}
