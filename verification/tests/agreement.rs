use edne::models::id::read_number;
use edne::text::ascii::{decode_latin1, upper_char, upper_range};
use edne::text::decimal::{decimal_string, is_digit_char, parse_unsigned_range};
use edne::text::space::{
    is_blank_str, is_whitespace_char, string_from_range, to_chars, trim_range,
};

const SAMPLES: [&str; 24] = [
    "",
    " ",
    "a",
    " a ",
    "\t\n\r a b \u{b}\u{c}",
    "\u{85}x\u{a0}",
    "\u{1680}\u{2000}\u{200a}y\u{2028}\u{2029}\u{202f}\u{205f}\u{3000}",
    "\u{200b}",
    "\u{feff} z",
    "0",
    "+0",
    "-0",
    "007",
    "+15",
    "4294967295",
    "4294967296",
    "99999999999999999999",
    "1_000",
    "1e3",
    "١٢٣",
    " 42\u{a0}",
    "+",
    "São Paulo",
    "ÀÉÎÕÜ àéîõü ß ÿ",
];

#[test]
fn whitespace_is_the_standard_library_s_for_every_character() {
    for n in 0..=0x10FFFFu32 {
        if let Some(c) = char::from_u32(n) {
            assert_eq!(is_whitespace_char(c), c.is_whitespace(), "U+{:04X}", n);
        }
    }
}

#[test]
fn digits_and_upper_case_are_the_ascii_ones_for_every_character() {
    for n in 0..=0x10FFFFu32 {
        if let Some(c) = char::from_u32(n) {
            assert_eq!(is_digit_char(c), c.is_ascii_digit(), "U+{:04X}", n);
            assert_eq!(upper_char(c), c.to_ascii_uppercase(), "U+{:04X}", n);
        }
    }
}

#[test]
fn trimming_agrees_with_the_standard_library() {
    for text in SAMPLES {
        let v = to_chars(text);
        assert_eq!(v, text.chars().collect::<Vec<char>>());
        let (from, to) = trim_range(&v);
        assert_eq!(string_from_range(&v, from, to), text.trim(), "text {:?}", text);
        assert_eq!(is_blank_str(text), text.trim().is_empty(), "text {:?}", text);
        assert_eq!(upper_range(&v, 0, v.len()), text.to_ascii_uppercase(), "text {:?}", text);
    }
}

#[test]
fn number_reading_agrees_with_the_standard_library() {
    for text in SAMPLES {
        assert_eq!(read_number(text), text.trim().parse::<u32>().ok(), "text {:?}", text);
        let v = to_chars(text);
        assert_eq!(
            parse_unsigned_range(&v, 0, v.len(), u64::MAX),
            text.parse::<u64>().ok(),
            "text {:?}",
            text
        );
        assert_eq!(
            parse_unsigned_range(&v, 0, v.len(), 255),
            text.parse::<u8>().ok().map(u64::from),
            "text {:?}",
            text
        );
    }
}

#[test]
fn number_writing_agrees_with_the_standard_library() {
    let mut n: u64 = 1;
    for _ in 0..64 {
        assert_eq!(decimal_string(n), n.to_string());
        assert_eq!(decimal_string(n - 1), (n - 1).to_string());
        n = n.wrapping_mul(2);
    }
    for n in [0u64, 9, 10, 11, 99, 100, 101, 999_999, 1_000_000, u64::MAX] {
        assert_eq!(decimal_string(n), n.to_string());
    }
}

#[test]
fn decoding_agrees_with_widening_each_byte() {
    let bytes: Vec<u8> = (0..=255u8).rev().collect();
    let expected: String = bytes.iter().map(|b| char::from(*b)).collect();
    assert_eq!(decode_latin1(&bytes), expected);
}
