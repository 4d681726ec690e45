use vocab_lessons::ids::{format_id, next_id, parse_i64_or_default};
use vocab_lessons::text::{
    ascii_lowercase, i64_to_decimal, parse_i64, str_eq, trim, u128_to_decimal,
};

#[test]
fn decimal_of_unsigned_numbers() {
    assert_eq!(u128_to_decimal(0), "0");
    assert_eq!(u128_to_decimal(7), "7");
    assert_eq!(u128_to_decimal(10), "10");
    assert_eq!(u128_to_decimal(1_700_000_000_123), "1700000000123");
    assert_eq!(u128_to_decimal(u128::MAX), u128::MAX.to_string());
}

#[test]
fn decimal_of_signed_numbers() {
    assert_eq!(i64_to_decimal(0), "0");
    assert_eq!(i64_to_decimal(-5), "-5");
    assert_eq!(i64_to_decimal(42), "42");
    assert_eq!(i64_to_decimal(i64::MIN), "-9223372036854775808");
    assert_eq!(i64_to_decimal(i64::MAX), "9223372036854775807");
}

#[test]
fn parse_accepts_what_std_accepts() {
    for s in ["0", "12", "+12", "-12", "007", "-0", "9223372036854775807", "-9223372036854775808"] {
        assert_eq!(parse_i64(s), s.parse::<i64>().ok(), "{s}");
    }
}

#[test]
fn parse_rejects_what_std_rejects() {
    for s in ["", "+", "-", " 1", "1 ", "1a", "--1", "+-1", "9223372036854775808", "-9223372036854775809", "99999999999999999999", "１"] {
        assert_eq!(parse_i64(s), None, "{s}");
        assert!(s.parse::<i64>().is_err(), "{s}");
    }
}

#[test]
fn parse_of_decimal_gives_the_number_back() {
    for n in [0i64, 1, -1, 10, -10, 123456789, i64::MIN, i64::MAX] {
        assert_eq!(parse_i64(&i64_to_decimal(n)), Some(n));
    }
}

#[test]
fn parse_or_default_uses_the_default_when_absent_or_invalid() {
    let ten = String::from("10");
    let bad = String::from("ten");
    assert_eq!(parse_i64_or_default(Some(&ten), 3), 10);
    assert_eq!(parse_i64_or_default(Some(&bad), 3), 3);
    assert_eq!(parse_i64_or_default(None, 3), 3);
    let neg = String::from("-42");
    assert_eq!(parse_i64_or_default(Some(&neg), 0), -42);
}

#[test]
fn ids_are_prefix_dash_millis() {
    assert_eq!(format_id("lesson", 1700000000123), "lesson-1700000000123");
    assert_eq!(format_id("word", 0), "word-0");
    assert_eq!(format_id("", 5), "-5");
}

#[test]
fn next_id_uses_the_clock() {
    let before = std::time::SystemTime::now()
        .duration_since(std::time::UNIX_EPOCH)
        .unwrap()
        .as_millis();
    let id = next_id("lesson");
    let after = std::time::SystemTime::now()
        .duration_since(std::time::UNIX_EPOCH)
        .unwrap()
        .as_millis();
    let millis: u128 = id.strip_prefix("lesson-").unwrap().parse().unwrap();
    assert!(before <= millis && millis <= after);
}

#[test]
fn trim_removes_unicode_whitespace_at_both_ends() {
    for s in ["  hello ", "\t\nhi\r\n", "\u{3000}word\u{00A0}", "", "   ", "a b", "\u{2003}x y\u{205F}", "\u{200B}z"] {
        assert_eq!(trim(s), s.trim(), "{s:?}");
    }
}

#[test]
fn ascii_lowercase_only_touches_ascii_letters() {
    assert_eq!(ascii_lowercase("UK"), "uk");
    assert_eq!(ascii_lowercase("Us"), "us");
    assert_eq!(ascii_lowercase("ÀB-1"), "Àb-1");
}

#[test]
fn string_equality() {
    assert!(str_eq("abc", "abc"));
    assert!(!str_eq("abc", "abd"));
    assert!(!str_eq("ab", "abc"));
    assert!(str_eq("", ""));
}
