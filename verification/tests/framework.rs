use edne::parser::base::{EdneParser, ParseError, FIELD_SEPARATOR};

#[test]
fn every_byte_decodes_to_the_code_point_of_its_number() {
    let bytes: Vec<u8> = (0..=255u8).collect();
    let text = EdneParser::decode_iso8859_1(&bytes).unwrap();
    let chars: Vec<char> = text.chars().collect();
    assert_eq!(chars.len(), 256);
    for (i, c) in chars.iter().enumerate() {
        assert_eq!(*c as u32, i as u32);
    }
    assert_eq!(EdneParser::decode_iso8859_1(&[]).unwrap(), "");
}

#[test]
fn parser_keeps_the_decoded_text() {
    let parser = EdneParser::from_iso8859_1(&[0x43, 0x65, 0x61, 0x72, 0xE1]).unwrap();
    assert_eq!(parser.content(), "Ceará");
    let parser = EdneParser::from_utf8("a@b\n".to_string());
    assert_eq!(parser.content(), "a@b\n");
    assert_eq!(FIELD_SEPARATOR, '@');
}

#[test]
fn line_numbers_count_skipped_lines() {
    let parser = EdneParser::from_utf8("\n\n  x \r\n\t\r\ny\n\n".to_string());
    assert_eq!(parser.lines(), vec![(3, "  x ".to_string()), (5, "y".to_string())]);
}

#[test]
fn line_endings_are_not_part_of_a_line() {
    let parser = EdneParser::from_utf8("a\r\nb\nc\r".to_string());
    assert_eq!(
        parser.lines(),
        vec![(1, "a".to_string()), (2, "b".to_string()), (3, "c\r".to_string())]
    );
    let parser = EdneParser::from_utf8("a\r\r\nb".to_string());
    assert_eq!(parser.lines(), vec![(1, "a\r".to_string()), (2, "b".to_string())]);
    assert_eq!(EdneParser::from_utf8(String::new()).lines(), vec![]);
    assert_eq!(EdneParser::from_utf8("\n".to_string()).lines(), vec![]);
}

#[test]
fn lines_agree_with_the_standard_library() {
    let texts = ["", "\n", "a", "a\n", "a\n\nb", "a\r\nb\r\n", "\r", "a\rb\n", "x\n \n\u{a0}\ny\r"];
    for text in texts {
        let expected: Vec<(usize, String)> = text
            .lines()
            .enumerate()
            .map(|(i, l)| (i + 1, l.to_string()))
            .filter(|(_, l)| !l.trim().is_empty())
            .collect();
        assert_eq!(EdneParser::from_utf8(text.to_string()).lines(), expected, "text {:?}", text);
    }
}

#[test]
fn split_agrees_with_the_standard_library() {
    let parser = EdneParser::from_utf8(String::new());
    for line in ["", "@", "@@", "a", "a@", "@a", "a@b@@c@", "São@Paulo"] {
        let expected: Vec<&str> = line.split('@').collect();
        assert_eq!(parser.parse_line(line), expected, "line {:?}", line);
    }
}

#[test]
fn field_count_fault_carries_counts_and_line() {
    let parser = EdneParser::from_utf8(String::new());
    assert_eq!(
        parser.parse_line_checked("a@b@c@", 3, 17).unwrap_err(),
        ParseError::FieldCount { expected: 3, got: 4, line_number: 17 }
    );
    assert_eq!(
        parser.parse_line_checked("", 0, 2).unwrap_err(),
        ParseError::FieldCount { expected: 0, got: 1, line_number: 2 }
    );
    assert_eq!(parser.parse_line_checked("", 1, 2).unwrap(), vec![""]);
}

#[test]
fn fields_are_kept_untrimmed() {
    assert_eq!(EdneParser::required_field(" a ", "F", 1).unwrap(), " a ");
    assert_eq!(EdneParser::optional_field(" a "), Some(" a ".to_string()));
    assert_eq!(EdneParser::optional_field(""), None);
    assert_eq!(EdneParser::optional_field("\u{a0}"), None);
    assert_eq!(
        EdneParser::required_field("", "F", 9).unwrap_err(),
        ParseError::EmptyField { field_name: "F", line_number: 9 }
    );
}

#[test]
fn numeric_fields_are_trimmed_before_reading() {
    assert_eq!(EdneParser::parse_number::<u32>(" 42 ", "N", 1).unwrap(), 42);
    assert_eq!(EdneParser::parse_number::<u32>("0", "N", 1).unwrap(), 0);
    assert_eq!(EdneParser::parse_number::<u32>("4294967295", "N", 1).unwrap(), u32::MAX);
    assert_eq!(EdneParser::parse_number::<u64>("4294967296", "N", 1).unwrap(), 4294967296);
    assert_eq!(
        EdneParser::parse_number::<u64>("18446744073709551615", "N", 1).unwrap(),
        u64::MAX
    );
    assert_eq!(
        EdneParser::parse_number::<u32>(" 4294967296 ", "N", 3).unwrap_err(),
        ParseError::InvalidNumber {
            field_name: "N",
            value: " 4294967296 ".to_string(),
            line_number: 3
        }
    );
    assert_eq!(
        EdneParser::parse_number::<u64>("18446744073709551616", "N", 3).unwrap_err(),
        ParseError::InvalidNumber {
            field_name: "N",
            value: "18446744073709551616".to_string(),
            line_number: 3
        }
    );
    assert_eq!(
        EdneParser::parse_number::<u32>("", "N", 4).unwrap_err(),
        ParseError::InvalidNumber { field_name: "N", value: "".to_string(), line_number: 4 }
    );
}

#[test]
fn optional_numeric_field_fails_only_when_not_blank() {
    assert_eq!(EdneParser::parse_optional_number::<u32>("  ", "N", 1).unwrap(), None);
    assert_eq!(EdneParser::parse_optional_number::<u32>(" 7", "N", 1).unwrap(), Some(7));
    assert_eq!(
        EdneParser::parse_optional_number::<u32>("x", "N", 5).unwrap_err(),
        ParseError::InvalidNumber { field_name: "N", value: "x".to_string(), line_number: 5 }
    );
}

#[test]
fn every_fault_is_reported_as_a_sentence() {
    assert_eq!(
        ParseError::EncodingError("bad byte".to_string()).to_string(),
        "encoding error: bad byte"
    );
    assert_eq!(
        ParseError::FieldCount { expected: 9, got: 6, line_number: 120 }.to_string(),
        "line 120: expected 9 fields, got 6"
    );
    assert_eq!(
        ParseError::EmptyField { field_name: "UFE_SG", line_number: 1 }.to_string(),
        "line 1: field 'UFE_SG' is empty"
    );
    assert_eq!(
        ParseError::InvalidNumber { field_name: "N", value: "x".to_string(), line_number: 2 }
            .to_string(),
        "line 2: field 'N' has invalid number: 'x'"
    );
    assert_eq!(
        ParseError::InvalidValue {
            field_name: "LOC_NU",
            value: "0".to_string(),
            reason: "locality ID cannot be zero".to_string(),
            line_number: 3
        }
        .to_string(),
        "line 3: field 'LOC_NU' has invalid value '0': locality ID cannot be zero"
    );
    assert_eq!(
        ParseError::ParseFailed { message: "unexpected".to_string(), line_number: 4 }.to_string(),
        "line 4: unexpected"
    );
}

#[test]
fn faults_can_be_copied() {
    let faults = [
        ParseError::EncodingError("e".to_string()),
        ParseError::FieldCount { expected: 9, got: 6, line_number: 1 },
        ParseError::EmptyField { field_name: "F", line_number: 2 },
        ParseError::InvalidNumber { field_name: "F", value: "v".to_string(), line_number: 3 },
        ParseError::InvalidValue {
            field_name: "F",
            value: "v".to_string(),
            reason: "r".to_string(),
            line_number: 4,
        },
        ParseError::ParseFailed { message: "m".to_string(), line_number: 5 },
    ];
    for fault in faults.iter() {
        assert_eq!(&fault.clone(), fault);
    }
}
