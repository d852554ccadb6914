use nightwatche::numbers::{parse_i32, parse_i64, push_u8_decimal};
use nightwatche::text::{join, split, strip_prefix, trim};

#[test]
fn trim_removes_unicode_white_space() {
    assert_eq!(trim("  a b \t\n"), "a b");
    assert_eq!(trim("\u{3000}x\u{a0}"), "x");
    assert_eq!(trim("   "), "");
    assert_eq!(trim(""), "");
}

#[test]
fn split_then_join_gives_text_back() {
    let s = "a,,b,";
    let parts = split(s, ',');
    assert_eq!(parts, vec!["a", "", "b", ""]);
    assert_eq!(join(&parts, ","), s);
    assert_eq!(split("", ','), vec![""]);
}

#[test]
fn strip_prefix_cases() {
    assert_eq!(strip_prefix("Bearer abc", "Bearer "), Some("abc".to_string()));
    assert_eq!(strip_prefix("Bear", "Bearer "), None);
    assert_eq!(strip_prefix("x", ""), Some("x".to_string()));
}

#[test]
fn integer_grammar() {
    assert_eq!(parse_i64("0"), Some(0));
    assert_eq!(parse_i64("-0"), Some(0));
    assert_eq!(parse_i64("+15"), Some(15));
    assert_eq!(parse_i64("007"), Some(7));
    assert_eq!(parse_i64("+"), None);
    assert_eq!(parse_i64(""), None);
    assert_eq!(parse_i64(" 1"), None);
    assert_eq!(parse_i64("1_000"), None);
    assert_eq!(parse_i32("2147483647"), Some(i32::MAX));
    assert_eq!(parse_i32("-2147483648"), Some(i32::MIN));
    assert_eq!(parse_i32("2147483648"), None);
    assert_eq!(parse_i64("99999999999999999999999999999999999999999"), None);
}

#[test]
fn integer_grammar_agrees_with_std() {
    for s in ["12", "-3", "+4", "", "-", "a", "1a", "-9223372036854775808", "9223372036854775808"] {
        assert_eq!(parse_i64(s), s.parse::<i64>().ok());
        assert_eq!(parse_i32(s), s.parse::<i32>().ok());
    }
}

#[test]
fn byte_decimal() {
    for n in [0u8, 7, 10, 99, 100, 255] {
        let mut s = String::from("x");
        push_u8_decimal(&mut s, n);
        assert_eq!(s, format!("x{}", n));
    }
}

#[test]
fn trim_agrees_with_std_on_white_space() {
    let ws = [
        '\u{9}', '\u{a}', '\u{b}', '\u{c}', '\u{d}', ' ', '\u{85}', '\u{a0}', '\u{1680}', '\u{2000}',
        '\u{2005}', '\u{200a}', '\u{2028}', '\u{2029}', '\u{202f}', '\u{205f}', '\u{3000}',
    ];
    for c in ws {
        let s = format!("{c}x{c}");
        assert_eq!(trim(&s), s.trim());
        assert_eq!(trim(&s), "x");
    }
    for c in ['\u{200b}', '\u{180e}', 'a', '\u{feff}'] {
        let s = format!("{c}x{c}");
        assert_eq!(trim(&s), s.trim());
    }
}
