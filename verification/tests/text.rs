use revanced_discord_bot::text::{
    chars_of, decimal_string, lines_of, parse_i64_chars, parse_unsigned_chars, split_on_char,
    string_of, trim_char_bounds,
};

#[test]
fn decimal_and_parse_roundtrip() {
    for n in [0u64, 7, 10, 12345, u64::MAX] {
        let s = decimal_string(n);
        assert_eq!(s, n.to_string());
        assert_eq!(parse_unsigned_chars(&chars_of(&s), u64::MAX), Some(n));
    }
}

#[test]
fn parse_unsigned_follows_str_parse() {
    let p = |s: &str, max: u64| parse_unsigned_chars(&chars_of(s), max);
    assert_eq!(p("+42", u64::MAX), Some(42));
    assert_eq!(p("", u64::MAX), None);
    assert_eq!(p("+", u64::MAX), None);
    assert_eq!(p("-1", u64::MAX), None);
    assert_eq!(p("1a", u64::MAX), None);
    assert_eq!(p("256", 255), None);
    assert_eq!(p("255", 255), Some(255));
    assert_eq!(p("18446744073709551616", u64::MAX), None);
}

#[test]
fn parse_i64_follows_str_parse() {
    let p = |s: &str| parse_i64_chars(&chars_of(s));
    assert_eq!(p("-9223372036854775808"), Some(i64::MIN));
    assert_eq!(p("9223372036854775807"), Some(i64::MAX));
    assert_eq!(p("9223372036854775808"), None);
    assert_eq!(p("-0"), Some(0));
    assert_eq!(p("+5"), Some(5));
    assert_eq!(p("-+5"), None);
    assert_eq!(p("-"), None);
}

#[test]
fn split_trim_lines() {
    assert_eq!(split_on_char(&chars_of("a-b--c"), '-'), vec!["a", "b", "", "c"]);
    assert_eq!(split_on_char(&chars_of(""), '-'), vec![""]);
    let v = chars_of("LL12L");
    let (a, b) = trim_char_bounds(&v, 'L');
    assert_eq!(string_of(&v[a..b]), "12");
    let v = chars_of("LLL");
    let (a, b) = trim_char_bounds(&v, 'L');
    assert_eq!(a, b);
    assert_eq!(lines_of(&chars_of("a\r\nb\n\nc\r")), vec!["a", "b", "", "c\r"]);
    assert!(lines_of(&chars_of("")).is_empty());
}
