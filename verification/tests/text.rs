use edne::text::decimal::{decimal_string, parse_unsigned_range};
use edne::text::lines::logical_lines_of;
use edne::text::space::{is_blank_str, to_chars, trim_range};
use edne::text::split::split_chars;

#[test]
fn trim_range_finds_the_kept_part() {
    let v = to_chars("  ab c \t");
    assert_eq!(trim_range(&v), (2, 6));
    let blank = to_chars(" \u{a0}\u{2003} ");
    assert_eq!(trim_range(&blank), (4, 4));
    assert!(is_blank_str(" \u{85}\r\n"));
    assert!(!is_blank_str(" \u{200b} "));
}

#[test]
fn split_keeps_empty_fields() {
    assert_eq!(split_chars(&to_chars(""), '@'), vec![""]);
    assert_eq!(split_chars(&to_chars("@"), '@'), vec!["", ""]);
    assert_eq!(split_chars(&to_chars("a@@b@"), '@'), vec!["a", "", "b", ""]);
}

#[test]
fn logical_lines_follow_line_endings() {
    let v = to_chars("a\r\n\n \r\nb\r");
    let lines = logical_lines_of(&v);
    assert_eq!(lines, vec![(1, "a".to_string()), (4, "b\r".to_string())]);
    assert_eq!(logical_lines_of(&to_chars("")), vec![]);
    assert_eq!(logical_lines_of(&to_chars("x\n")), vec![(1, "x".to_string())]);
}

#[test]
fn decimal_round_trip() {
    assert_eq!(decimal_string(0), "0");
    assert_eq!(decimal_string(1200401), "1200401");
    assert_eq!(decimal_string(u64::MAX), "18446744073709551615");
    let v = to_chars("+0042");
    assert_eq!(parse_unsigned_range(&v, 0, v.len(), 100), Some(42));
    assert_eq!(parse_unsigned_range(&v, 0, v.len(), 41), None);
    assert_eq!(parse_unsigned_range(&v, 0, 1, 100), None);
    let big = to_chars("18446744073709551616");
    assert_eq!(parse_unsigned_range(&big, 0, big.len(), u64::MAX), None);
    let neg = to_chars("-1");
    assert_eq!(parse_unsigned_range(&neg, 0, neg.len(), 100), None);
}
