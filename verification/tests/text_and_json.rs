//! Text and JSON primitives against the standard library and the JSON crate.

use meepo::digest::hex_lower;
use meepo::json::Json;
use meepo::text::{
    chars_of, decimal_text, is_whitespace, lowered, parse_number, signed_decimal_text, str_lt,
    string_of, trimmed, trimmed_start,
};

#[test]
fn white_space_agrees_with_unicode() {
    for n in 0..=0x10ffffu32 {
        if let Some(c) = char::from_u32(n) {
            assert_eq!(is_whitespace(c), c.is_whitespace(), "U+{n:04X}");
        }
    }
}

#[test]
fn trimming_agrees_with_std() {
    for s in ["", "  ", " a b ", "\u{3000}x\u{a0}", "x", "\n\tx y\r\n"] {
        let chars = chars_of(s);
        assert_eq!(string_of(&trimmed(&chars)), s.trim());
        assert_eq!(string_of(&trimmed_start(&chars)), s.trim_start());
        assert_eq!(string_of(&lowered(&chars)), s.to_ascii_lowercase());
    }
    assert_eq!(string_of(&lowered(&chars_of("ABC-ÄZ"))), "abc-Äz");
}

#[test]
fn text_order_agrees_with_std() {
    let samples = ["", "a", "ab", "b", "é", "\u{10000}", "\u{ffff}", "Z"];
    for a in samples {
        for b in samples {
            assert_eq!(str_lt(a, b), a < b, "{a:?} {b:?}");
        }
    }
}

#[test]
fn numbers_agree_with_std() {
    for n in [0u64, 7, 10, 99, 100, 4294967295, u64::MAX] {
        assert_eq!(decimal_text(n), n.to_string());
        assert_eq!(parse_number(&n.to_string(), u64::MAX), Some(n));
    }
    for n in [0i64, -1, 42, i64::MIN, i64::MAX] {
        assert_eq!(signed_decimal_text(n), n.to_string());
    }
    for s in ["", "+", "-1", "1x", " 1", "+5", "007", "18446744073709551615", "18446744073709551616"] {
        assert_eq!(parse_number(s, u64::MAX), s.parse::<u64>().ok(), "{s:?}");
    }
    assert_eq!(parse_number("4294967296", u32::MAX as u64), None);
    assert_eq!(parse_number("4294967295", u32::MAX as u64), Some(4294967295));
}

#[test]
fn hex_is_two_lower_case_digits_per_byte() {
    assert_eq!(hex_lower(&[0, 15, 16, 255, 171]), "000f10ffab");
    assert_eq!(hex_lower(&[]), "");
}

#[test]
fn json_text_reads_back() {
    for text in [
        "null",
        "true",
        "-7",
        "18446744073709551615",
        "[]",
        "{}",
        r#"{"a":[1,{"b":"\u0001\n\""}],"c":-9223372036854775808}"#,
        "1.5",
    ] {
        let v = Json::parse(text).unwrap();
        assert_eq!(Json::parse(&v.to_text()).unwrap(), v);
        assert_eq!(v.to_text(), v.to_ordered_text());
    }
    assert!(Json::parse("{").is_err());
    assert!(Json::parse("").is_err());
    assert!(Json::parse("1 2").is_err());
}

#[test]
fn json_objects_print_in_key_order_or_as_listed() {
    let v = Json::Object(vec![("b".into(), Json::Uint(1)), ("a".into(), Json::Int(-1))]);
    assert_eq!(v.to_text(), r#"{"a":-1,"b":1}"#);
    assert_eq!(v.to_ordered_text(), r#"{"b":1,"a":-1}"#);
    assert_eq!(v.get("a"), Some(&Json::Int(-1)));
    assert_eq!(v.get("z"), None);
    assert_eq!(Json::Text("x".into()).get("a"), None);
    assert_eq!(v.text_at("a"), None);
}

#[test]
fn deepest_readable_nesting() {
    let deepest = format!("{}{}", "[".repeat(127), "]".repeat(127));
    assert_eq!(Json::parse(&deepest).unwrap().to_text(), deepest);
    let too_deep = format!("{}{}", "[".repeat(128), "]".repeat(128));
    assert!(Json::parse(&too_deep).is_err());
}
