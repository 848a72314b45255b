use edne::parser::base::{EdneParser, ParseError};

#[test]
fn decode_iso8859_1_basic() {
    let bytes = b"Hello World";
    let result = EdneParser::decode_iso8859_1(bytes).unwrap();
    assert_eq!(result, "Hello World");
}

#[test]
fn decode_iso8859_1_with_accents() {
    // "São Paulo" in ISO-8859-1
    let bytes = &[0x53, 0xE3, 0x6F, 0x20, 0x50, 0x61, 0x75, 0x6C, 0x6F];
    let result = EdneParser::decode_iso8859_1(bytes).unwrap();
    assert_eq!(result, "São Paulo");
}

#[test]
fn parse_line_basic() {
    let parser = EdneParser::from_utf8("field1@field2@field3".to_string());
    let fields = parser.parse_line("field1@field2@field3");
    assert_eq!(fields, vec!["field1", "field2", "field3"]);
}

#[test]
fn parse_line_with_trailing_separator() {
    let parser = EdneParser::from_utf8("field1@field2@".to_string());
    let fields = parser.parse_line("field1@field2@");
    assert_eq!(fields, vec!["field1", "field2", ""]);
}

#[test]
fn parse_line_with_empty_fields() {
    let parser = EdneParser::from_utf8("field1@@field3".to_string());
    let fields = parser.parse_line("field1@@field3");
    assert_eq!(fields, vec!["field1", "", "field3"]);
}

#[test]
fn parse_line_checked_success() {
    let parser = EdneParser::from_utf8("a@b@c".to_string());
    let result = parser.parse_line_checked("a@b@c", 3, 1);
    assert!(result.is_ok());
    assert_eq!(result.unwrap(), vec!["a", "b", "c"]);
}

#[test]
fn parse_line_checked_wrong_count() {
    let parser = EdneParser::from_utf8("a@b".to_string());
    let result = parser.parse_line_checked("a@b", 3, 1);
    assert!(result.is_err());
    match result.unwrap_err() {
        ParseError::FieldCount { expected, got, line_number } => {
            assert_eq!(expected, 3);
            assert_eq!(got, 2);
            assert_eq!(line_number, 1);
        }
        _ => panic!("Expected FieldCount error"),
    }
}

#[test]
fn required_field_success() {
    let result = EdneParser::required_field("value", "test_field", 1);
    assert!(result.is_ok());
    assert_eq!(result.unwrap(), "value");
}

#[test]
fn required_field_empty() {
    let result = EdneParser::required_field("  ", "test_field", 1);
    assert!(result.is_err());
    match result.unwrap_err() {
        ParseError::EmptyField { field_name, line_number } => {
            assert_eq!(field_name, "test_field");
            assert_eq!(line_number, 1);
        }
        _ => panic!("Expected EmptyField error"),
    }
}

#[test]
fn optional_field_with_value() {
    let result = EdneParser::optional_field("value");
    assert_eq!(result, Some("value".to_string()));
}

#[test]
fn optional_field_empty() {
    let result = EdneParser::optional_field("  ");
    assert_eq!(result, None);
}

#[test]
fn parse_number_success() {
    let result = EdneParser::parse_number::<u32>("12345", "id", 1);
    assert!(result.is_ok());
    assert_eq!(result.unwrap(), 12345);
}

#[test]
fn parse_number_invalid() {
    let result = EdneParser::parse_number::<u32>("abc", "id", 1);
    assert!(result.is_err());
}

#[test]
fn parse_optional_number_with_value() {
    let result =
        EdneParser::parse_optional_number::<u32>("12345", "id", 1);
    assert!(result.is_ok());
    assert_eq!(result.unwrap(), Some(12345));
}

#[test]
fn parse_optional_number_empty() {
    let result = EdneParser::parse_optional_number::<u32>("", "id", 1);
    assert!(result.is_ok());
    assert_eq!(result.unwrap(), None);
}

#[test]
fn lines_iterator_skips_empty() {
    let content = "line1\n\nline2\n  \nline3".to_string();
    let parser = EdneParser::from_utf8(content);
    let lines = parser.lines();
    assert_eq!(lines.len(), 3);
    assert_eq!(lines[0], (1, "line1".to_string()));
    assert_eq!(lines[1], (3, "line2".to_string()));
    assert_eq!(lines[2], (5, "line3".to_string()));
}
