//! Text helpers: integer parsing, trimming, ASCII case.

use replayable_proxy::text::{
    chars_eq, int_parse_error_message, parse_unsigned_decimal, string_from_chars, to_ascii_lowercase, trim_chars, IntParseError,
};

fn cs(s: &str) -> Vec<char> {
    s.chars().collect()
}

#[test]
fn unsigned_parse_matches_std() {
    let inputs = [
        "0", "7", "+7", "007", "", "+", "-", "-0", "1_000", " 1", "1 ", "18446744073709551615",
        "18446744073709551616", "99999999999999999999x", "12a", "٣",
    ];
    for s in inputs {
        let ours = parse_unsigned_decimal(&cs(s), u64::MAX);
        let std_result = s.parse::<u64>();
        match (ours, std_result) {
            (Ok(a), Ok(b)) => assert_eq!(a, b, "{s:?}"),
            (Err(e), Err(f)) => assert_eq!(int_parse_error_message(e), f.to_string(), "{s:?}"),
            (a, b) => panic!("{s:?}: ours {a:?}, std {b:?}"),
        }
    }
}

#[test]
fn unsigned_parse_respects_a_smaller_max() {
    assert_eq!(parse_unsigned_decimal(&cs("255"), 255), Ok(255));
    assert_eq!(parse_unsigned_decimal(&cs("256"), 255), Err(IntParseError::PosOverflow));
    assert_eq!(parse_unsigned_decimal(&cs(""), 255), Err(IntParseError::Empty));
    assert_eq!(parse_unsigned_decimal(&cs("x"), 255), Err(IntParseError::InvalidDigit));
}

#[test]
fn error_messages() {
    assert_eq!(int_parse_error_message(IntParseError::Empty), "cannot parse integer from empty string");
    assert_eq!(int_parse_error_message(IntParseError::InvalidDigit), "invalid digit found in string");
    assert_eq!(
        int_parse_error_message(IntParseError::PosOverflow),
        "number too large to fit in target type"
    );
}

#[test]
fn trimming_matches_str_trim() {
    for s in ["", "   ", " a ", "\t\nab c\r\n", "\u{3000}x\u{2003}", "\u{85}y\u{a0}", "z"] {
        assert_eq!(string_from_chars(&trim_chars(&cs(s))), s.trim(), "{s:?}");
    }
}

#[test]
fn ascii_lowercasing_leaves_other_letters() {
    assert_eq!(string_from_chars(&to_ascii_lowercase(&cs("AbC-É"))), "abc-É");
}

#[test]
fn char_comparisons() {
    assert!(chars_eq(&cs("abc"), &cs("abc")));
    assert!(!chars_eq(&cs("abc"), &cs("abd")));
    assert!(!chars_eq(&cs("ab"), &cs("abc")));
}
