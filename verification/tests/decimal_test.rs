use okra::decimal::{i64_text, parse_u128, push_decimal};

fn parse(s: &str) -> Option<u128> {
    let chars: Vec<char> = s.chars().collect();
    parse_u128(&chars)
}

fn text(n: u128) -> String {
    let mut out = String::new();
    push_decimal(&mut out, n);
    out
}

#[test]
fn writes_numbers_in_decimal() {
    assert_eq!(text(0), "0");
    assert_eq!(text(7), "7");
    assert_eq!(text(10), "10");
    assert_eq!(text(1234567890), "1234567890");
    assert_eq!(text(u128::MAX), "340282366920938463463374607431768211455");
}

#[test]
fn appends_to_what_is_there() {
    let mut out = String::from("id=");
    push_decimal(&mut out, 42);
    assert_eq!(out, "id=42");
}

#[test]
fn writes_signed_numbers() {
    assert_eq!(i64_text(0), "0");
    assert_eq!(i64_text(15), "15");
    assert_eq!(i64_text(-15), "-15");
    assert_eq!(i64_text(i64::MAX), "9223372036854775807");
    assert_eq!(i64_text(i64::MIN), "-9223372036854775808");
}

#[test]
fn reads_plain_digits() {
    assert_eq!(parse("0"), Some(0));
    assert_eq!(parse("123"), Some(123));
    assert_eq!(parse("000123"), Some(123));
    assert_eq!(
        parse("340282366920938463463374607431768211455"),
        Some(u128::MAX)
    );
}

#[test]
fn reads_a_leading_plus() {
    assert_eq!(parse("+123"), Some(123));
    assert_eq!(parse("+"), None);
    assert_eq!(parse("++1"), None);
}

#[test]
fn refuses_what_is_no_number() {
    assert_eq!(parse(""), None);
    assert_eq!(parse("-1"), None);
    assert_eq!(parse("12a"), None);
    assert_eq!(parse(" 12"), None);
    assert_eq!(parse("12 "), None);
    assert_eq!(parse("١٢"), None);
}

#[test]
fn refuses_what_does_not_fit() {
    assert_eq!(parse("340282366920938463463374607431768211456"), None);
    assert_eq!(parse("3402823669209384634633746074317682114550"), None);
    assert_eq!(
        parse("999999999999999999999999999999999999999999999999"),
        None
    );
}

#[test]
fn reading_agrees_with_the_standard_library() {
    for s in ["0", "+0", "42", "+42", "", "+", "4 2", "0x10", "１２"] {
        assert_eq!(parse(s), s.parse::<u128>().ok(), "{:?}", s);
    }
}

#[test]
fn reads_back_what_it_wrote() {
    for n in [0u128, 1, 9, 10, 99, 100, 604_800_000, u64::MAX as u128, u128::MAX] {
        assert_eq!(parse(&text(n)), Some(n));
    }
}
