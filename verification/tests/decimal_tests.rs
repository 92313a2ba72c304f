use topic::decimal::{i64_text, parse_i64, push_decimal};

#[test]
fn parse_accepts_signed_numbers() {
    assert_eq!(parse_i64("42"), Some(42));
    assert_eq!(parse_i64("-7"), Some(-7));
    assert_eq!(parse_i64("+5"), Some(5));
    assert_eq!(parse_i64("007"), Some(7));
    assert_eq!(parse_i64("-0"), Some(0));
}

#[test]
fn parse_refuses_what_is_not_a_number() {
    assert_eq!(parse_i64(""), None);
    assert_eq!(parse_i64("-"), None);
    assert_eq!(parse_i64("+"), None);
    assert_eq!(parse_i64("12a"), None);
    assert_eq!(parse_i64(" 1"), None);
    assert_eq!(parse_i64("+-3"), None);
}

#[test]
fn parse_bounds_of_i64() {
    assert_eq!(parse_i64("9223372036854775807"), Some(i64::MAX));
    assert_eq!(parse_i64("9223372036854775808"), None);
    assert_eq!(parse_i64("-9223372036854775808"), Some(i64::MIN));
    assert_eq!(parse_i64("-9223372036854775809"), None);
    assert_eq!(parse_i64("99999999999999999999999"), None);
}

#[test]
fn parse_agrees_with_std() {
    for s in ["0", "1", "-1", "+12", "x", "", "123456789012", "-00", "1-", "٣"] {
        assert_eq!(parse_i64(s), s.parse::<i64>().ok(), "{}", s);
    }
}

#[test]
fn text_of_numbers() {
    assert_eq!(i64_text(0), "0");
    assert_eq!(i64_text(-15), "-15");
    assert_eq!(i64_text(i64::MIN), "-9223372036854775808");
    assert_eq!(i64_text(i64::MAX), "9223372036854775807");
    let mut s = String::from("n=");
    push_decimal(&mut s, u64::MAX);
    assert_eq!(s, "n=18446744073709551615");
    let mut s = String::new();
    push_decimal(&mut s, 10);
    assert_eq!(s, "10");
}

#[test]
fn text_then_parse_round_trips() {
    for n in [0i64, 1, -1, 9, 10, -10, 123456, i64::MAX, i64::MIN] {
        assert_eq!(i64_text(n), n.to_string());
        assert_eq!(parse_i64(&i64_text(n)), Some(n));
    }
}
