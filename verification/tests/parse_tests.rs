use quicktag::parse::parse_i64;

#[test]
fn parses_plain_number() {
    assert_eq!(parse_i64("128"), Some(128));
}

#[test]
fn parses_zero() {
    assert_eq!(parse_i64("0"), Some(0));
}

#[test]
fn parses_leading_zeros() {
    assert_eq!(parse_i64("0128"), Some(128));
}

#[test]
fn parses_negative() {
    assert_eq!(parse_i64("-5"), Some(-5));
}

#[test]
fn parses_explicit_plus() {
    assert_eq!(parse_i64("+7"), Some(7));
}

#[test]
fn rejects_empty() {
    assert_eq!(parse_i64(""), None);
}

#[test]
fn rejects_bare_sign() {
    assert_eq!(parse_i64("-"), None);
    assert_eq!(parse_i64("+"), None);
}

#[test]
fn rejects_letters() {
    assert_eq!(parse_i64("abc"), None);
}

#[test]
fn rejects_trailing_garbage() {
    assert_eq!(parse_i64("12a"), None);
}

#[test]
fn rejects_inner_space() {
    assert_eq!(parse_i64(" 128"), None);
    assert_eq!(parse_i64("128 "), None);
}

#[test]
fn rejects_double_sign() {
    assert_eq!(parse_i64("--3"), None);
    assert_eq!(parse_i64("+-3"), None);
}

#[test]
fn parses_extremes() {
    assert_eq!(parse_i64("9223372036854775807"), Some(i64::MAX));
    assert_eq!(parse_i64("-9223372036854775808"), Some(i64::MIN));
}

#[test]
fn rejects_overflow() {
    assert_eq!(parse_i64("9223372036854775808"), None);
    assert_eq!(parse_i64("-9223372036854775809"), None);
    assert_eq!(parse_i64("99999999999999999999999"), None);
}

#[test]
fn rejects_unicode() {
    assert_eq!(parse_i64("\u{0661}\u{0662}\u{0668}"), None);
    assert_eq!(parse_i64("12\u{00b2}"), None);
}

#[test]
fn agrees_with_std_parse() {
    let cases = [
        "128", "-5", "+7", "", "-", "+", "abc", "12a", " 128", "0128", "9223372036854775807",
        "9223372036854775808", "-9223372036854775808", "-9223372036854775809",
    ];
    for s in cases {
        assert_eq!(parse_i64(s), s.parse::<i64>().ok(), "input {:?}", s);
    }
}
