use bypax_platform::text::{
    decimal_string, join_strs, parse_u32_str, str_equals, str_starts_with, trim_str, IntParseError,
};

fn std_kind(s: &str) -> Result<u32, IntParseError> {
    match s.parse::<u32>() {
        Ok(v) => Ok(v),
        Err(e) => match e.kind() {
            std::num::IntErrorKind::Empty => Err(IntParseError::Empty),
            std::num::IntErrorKind::InvalidDigit => Err(IntParseError::InvalidDigit),
            std::num::IntErrorKind::PosOverflow => Err(IntParseError::PosOverflow),
            other => panic!("unexpected kind {:?}", other),
        },
    }
}

#[test]
fn decimal_renders_like_to_string() {
    assert_eq!(decimal_string(0), "0");
    assert_eq!(decimal_string(7), "7");
    assert_eq!(decimal_string(10), "10");
    assert_eq!(decimal_string(8080), "8080");
    assert_eq!(decimal_string(u64::MAX), u64::MAX.to_string());
    for n in [1u64, 9, 99, 100, 101, 65535, 4294967295, 1234567890123] {
        assert_eq!(decimal_string(n), n.to_string());
    }
}

#[test]
fn trim_removes_unicode_whitespace() {
    assert_eq!(trim_str("  42\n"), "42");
    assert_eq!(trim_str("\u{3000}x y\u{85}\u{A0}"), "x y");
    assert_eq!(trim_str(""), "");
    assert_eq!(trim_str(" \t\r\n"), "");
    assert_eq!(trim_str("'manual'"), "'manual'");
    for s in ["\u{2000}a\u{200A}", "\u{1680}\u{2028}b\u{2029}\u{202F}\u{205F}", "\u{B}c\u{C}", "\u{200B}d"] {
        assert_eq!(trim_str(s), s.trim());
    }
}

#[test]
fn parse_reports_each_error() {
    assert_eq!(parse_u32_str(""), Err(IntParseError::Empty));
    assert_eq!(parse_u32_str("+"), Err(IntParseError::InvalidDigit));
    assert_eq!(parse_u32_str("-"), Err(IntParseError::InvalidDigit));
    assert_eq!(parse_u32_str("-1"), Err(IntParseError::InvalidDigit));
    assert_eq!(parse_u32_str("12a"), Err(IntParseError::InvalidDigit));
    assert_eq!(parse_u32_str("4294967296"), Err(IntParseError::PosOverflow));
    assert_eq!(parse_u32_str("99999999999x"), Err(IntParseError::PosOverflow));
    assert_eq!(parse_u32_str("4294967295"), Ok(4294967295));
    assert_eq!(parse_u32_str("+12"), Ok(12));
    assert_eq!(parse_u32_str("007"), Ok(7));
    assert_eq!(parse_u32_str("0"), Ok(0));
}

#[test]
fn parse_agrees_with_std() {
    let cases = [
        "", "+", "-", "0", "1", "+0", "-0", "42", " 42", "42 ", "4294967295", "4294967296",
        "42949672950", "429496729x", "4294967295x", "x", "++1", "1+", "١٢", "12\u{0}", "00000000000000000001",
        "9999999999", "4294967300", "+4294967295", "1_000",
    ];
    for s in cases {
        assert_eq!(parse_u32_str(s), std_kind(s), "input {:?}", s);
    }
}

#[test]
fn parse_error_messages_match_std() {
    for s in ["", "x", "4294967296"] {
        let ours = parse_u32_str(s).unwrap_err().message();
        let theirs = s.parse::<u32>().unwrap_err().to_string();
        assert_eq!(ours, theirs);
    }
}

#[test]
fn decimal_round_trips_through_parse() {
    for n in [0u32, 1, 12345, 4294967295] {
        let text = format!(" \t{}\n", decimal_string(n as u64));
        assert_eq!(parse_u32_str(trim_str(&text)), Ok(n));
    }
}

#[test]
fn join_matches_std() {
    assert_eq!(join_strs(&vec![], ";"), "");
    assert_eq!(join_strs(&vec!["a"], ";"), "a");
    assert_eq!(join_strs(&vec!["a", "b", "c"], ";"), "a;b;c");
    assert_eq!(join_strs(&vec!["x", "", "y"], ", "), ["x", "", "y"].join(", "));
}

#[test]
fn comparisons() {
    assert!(str_equals("true", "true"));
    assert!(!str_equals("true", "True"));
    assert!(!str_equals("true", "tru"));
    assert!(str_starts_with("127.0.0.1:8080", "127.0.0.1:"));
    assert!(!str_starts_with("127.0.0.1", "127.0.0.1:"));
    assert!(!str_starts_with("10.0.0.1:8080", "127.0.0.1:"));
    assert!(str_starts_with("abc", ""));
}
