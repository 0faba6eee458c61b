use atm::format::{parse_line, parse_value, u64_to_string, Line, Value};

#[test]
fn decimal_rendering_is_exact() {
    assert_eq!(u64_to_string(0), "0");
    assert_eq!(u64_to_string(7), "7");
    assert_eq!(u64_to_string(12345), "12345");
    assert_eq!(u64_to_string(u64::MAX), "18446744073709551615");
}

#[test]
fn values_parse() {
    assert!(matches!(parse_value("\"abc\""), Some(Value::Text(s)) if s == "abc"));
    assert!(matches!(parse_value("\"\""), Some(Value::Text(s)) if s.is_empty()));
    assert!(matches!(parse_value("true"), Some(Value::Flag(true))));
    assert!(matches!(parse_value("false"), Some(Value::Flag(false))));
    assert!(matches!(parse_value("0"), Some(Value::Int(0))));
    assert!(matches!(parse_value("18446744073709551615"), Some(Value::Int(u64::MAX))));
}

#[test]
fn bad_values_do_not_parse() {
    assert!(parse_value("").is_none());
    assert!(parse_value("\"unterminated").is_none());
    assert!(parse_value("\"back\\slash\"").is_none());
    assert!(parse_value("tru").is_none());
    assert!(parse_value("12a").is_none());
    assert!(parse_value("-1").is_none());
    // one past the largest expressible count
    assert!(parse_value("18446744073709551616").is_none());
}

#[test]
fn lines_parse() {
    assert!(matches!(parse_line(""), Some(Line::Blank)));
    assert!(matches!(parse_line("   "), Some(Line::Blank)));
    assert!(matches!(parse_line("# comment"), Some(Line::Blank)));
    assert!(matches!(parse_line("[foo]"), Some(Line::Header(h)) if h == "foo"));
    match parse_line("url = \"x\"") {
        Some(Line::Entry(k, Value::Text(v))) => {
            assert_eq!(k, "url");
            assert_eq!(v, "x");
        },
        other => panic!("expected an entry, got {:?}", other),
    }
}

#[test]
fn bad_lines_do_not_parse() {
    assert!(parse_line("[]").is_none());
    assert!(parse_line("[.]").is_none());
    assert!(parse_line("[a b]").is_none());
    assert!(parse_line("key=\"x\"").is_none());
    assert!(parse_line("key = ").is_none());
    assert!(parse_line("= \"x\"").is_none());
    assert!(parse_line("key = what").is_none());
}
