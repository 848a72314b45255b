//! The parsing framework: the parse error, the text of a source file, its
//! logical lines, and the extraction of fields from a line.

use crate::outcome::result_view;
use crate::text::ascii::{decode_latin1, latin1};
use crate::text::decimal::{decimal, decimal_string, parse_unsigned, parse_unsigned_range};
use crate::text::lines::{logical_lines, logical_lines_of};
use crate::text::space::{is_blank, is_blank_str, to_chars, trim, trim_range};
use crate::text::split::{split, split_chars};
use vstd::prelude::*;
use vstd::string::StringExecFns;

verus! {

/// The character that separates the fields of a line.
pub const FIELD_SEPARATOR: char = '@';

/// Why parsing stopped.
#[derive(Debug, PartialEq, Eq)]
pub enum ParseError {
    /// The bytes could not be decoded.
    EncodingError(String),
    /// A line does not have the number of fields that its record kind has.
    FieldCount { expected: usize, got: usize, line_number: usize },
    /// A required field is blank.
    EmptyField { field_name: &'static str, line_number: usize },
    /// A numeric field holds no number.
    InvalidNumber { field_name: &'static str, value: String, line_number: usize },
    /// A field holds a value outside its domain.
    InvalidValue { field_name: &'static str, value: String, reason: String, line_number: usize },
    /// Any other failure.
    ParseFailed { message: String, line_number: usize },
}

/// The mathematical value of a [`ParseError`].
pub enum ParseFault {
    EncodingError(Seq<char>),
    FieldCount { expected: usize, got: usize, line_number: usize },
    EmptyField { field_name: Seq<char>, line_number: usize },
    InvalidNumber { field_name: Seq<char>, value: Seq<char>, line_number: usize },
    InvalidValue { field_name: Seq<char>, value: Seq<char>, reason: Seq<char>, line_number: usize },
    ParseFailed { message: Seq<char>, line_number: usize },
}

impl View for ParseError {
    type V = ParseFault;

    open spec fn view(&self) -> ParseFault {
        match self {
            ParseError::EncodingError(message) => ParseFault::EncodingError(message@),
            ParseError::FieldCount { expected, got, line_number } => ParseFault::FieldCount {
                expected: *expected,
                got: *got,
                line_number: *line_number,
            },
            ParseError::EmptyField { field_name, line_number } => ParseFault::EmptyField {
                field_name: field_name@,
                line_number: *line_number,
            },
            ParseError::InvalidNumber { field_name, value, line_number } => {
                ParseFault::InvalidNumber {
                    field_name: field_name@,
                    value: value@,
                    line_number: *line_number,
                }
            },
            ParseError::InvalidValue { field_name, value, reason, line_number } => {
                ParseFault::InvalidValue {
                    field_name: field_name@,
                    value: value@,
                    reason: reason@,
                    line_number: *line_number,
                }
            },
            ParseError::ParseFailed { message, line_number } => ParseFault::ParseFailed {
                message: message@,
                line_number: *line_number,
            },
        }
    }
}

impl Clone for ParseError {
    fn clone(&self) -> (r: Self)
        ensures
            r@ == self@,
    {
        match self {
            ParseError::EncodingError(message) => ParseError::EncodingError(message.clone()),
            ParseError::FieldCount { expected, got, line_number } => ParseError::FieldCount {
                expected: *expected,
                got: *got,
                line_number: *line_number,
            },
            ParseError::EmptyField { field_name, line_number } => ParseError::EmptyField {
                field_name: *field_name,
                line_number: *line_number,
            },
            ParseError::InvalidNumber { field_name, value, line_number } => {
                ParseError::InvalidNumber {
                    field_name: *field_name,
                    value: value.clone(),
                    line_number: *line_number,
                }
            },
            ParseError::InvalidValue { field_name, value, reason, line_number } => {
                ParseError::InvalidValue {
                    field_name: *field_name,
                    value: value.clone(),
                    reason: reason.clone(),
                    line_number: *line_number,
                }
            },
            ParseError::ParseFailed { message, line_number } => ParseError::ParseFailed {
                message: message.clone(),
                line_number: *line_number,
            },
        }
    }
}

impl DeepView for ParseError {
    type V = ParseFault;

    open spec fn deep_view(&self) -> ParseFault {
        self@
    }
}

/// The words that open every report about a line: `line N: `.
pub open spec fn line_prefix(line_number: usize) -> Seq<char> {
    "line "@ + decimal(line_number as nat) + ": "@
}

impl ParseFault {
    /// The report of the failure, as a sentence.
    pub open spec fn message(self) -> Seq<char> {
        match self {
            ParseFault::EncodingError(message) => "encoding error: "@ + message,
            ParseFault::FieldCount { expected, got, line_number } => line_prefix(line_number)
                + "expected "@ + decimal(expected as nat) + " fields, got "@ + decimal(got as nat),
            ParseFault::EmptyField { field_name, line_number } => line_prefix(line_number)
                + "field '"@ + field_name + "' is empty"@,
            ParseFault::InvalidNumber { field_name, value, line_number } => line_prefix(
                line_number,
            ) + "field '"@ + field_name + "' has invalid number: '"@ + value + "'"@,
            ParseFault::InvalidValue { field_name, value, reason, line_number } => line_prefix(
                line_number,
            ) + "field '"@ + field_name + "' has invalid value '"@ + value + "': "@ + reason,
            ParseFault::ParseFailed { message, line_number } => line_prefix(line_number) + message,
        }
    }
}

/// Writes the opening words of a report about a line.
fn line_prefix_string(line_number: usize) -> (r: String)
    ensures
        r@ == line_prefix(line_number),
{
    let mut r = String::from_str("line ");
    let digits = decimal_string(line_number as u64);
    r.append(digits.as_str());
    r.append(": ");
    r
}

impl ParseError {
    /// The report of the failure, as a sentence.
    pub fn to_string(&self) -> (r: String)
        ensures
            r@ == self@.message(),
    {
        match self {
            ParseError::EncodingError(message) => {
                let mut r = String::from_str("encoding error: ");
                r.append(message.as_str());
                r
            },
            ParseError::FieldCount { expected, got, line_number } => {
                let mut r = line_prefix_string(*line_number);
                r.append("expected ");
                let wanted = decimal_string(*expected as u64);
                r.append(wanted.as_str());
                r.append(" fields, got ");
                let found = decimal_string(*got as u64);
                r.append(found.as_str());
                r
            },
            ParseError::EmptyField { field_name, line_number } => {
                let mut r = line_prefix_string(*line_number);
                r.append("field '");
                r.append(field_name);
                r.append("' is empty");
                r
            },
            ParseError::InvalidNumber { field_name, value, line_number } => {
                let mut r = line_prefix_string(*line_number);
                r.append("field '");
                r.append(field_name);
                r.append("' has invalid number: '");
                r.append(value.as_str());
                r.append("'");
                r
            },
            ParseError::InvalidValue { field_name, value, reason, line_number } => {
                let mut r = line_prefix_string(*line_number);
                r.append("field '");
                r.append(field_name);
                r.append("' has invalid value '");
                r.append(value.as_str());
                r.append("': ");
                r.append(reason.as_str());
                r
            },
            ParseError::ParseFailed { message, line_number } => {
                let mut r = line_prefix_string(*line_number);
                r.append(message.as_str());
                r
            },
        }
    }
}

/// The fields of a line, provided there are exactly `expected` of them.
pub open spec fn checked_fields(line: Seq<char>, expected: usize, line_number: usize) -> Result<
    Seq<Seq<char>>,
    ParseFault,
> {
    let fields = split(line, FIELD_SEPARATOR);
    if fields.len() == expected {
        Ok(fields)
    } else {
        Err(ParseFault::FieldCount { expected, got: fields.len() as usize, line_number })
    }
}

/// The content of a required field: the field as it stands, unless it is
/// blank.
pub open spec fn required_text(field: Seq<char>, field_name: Seq<char>, line_number: usize)
    -> Result<Seq<char>, ParseFault> {
    if is_blank(field) {
        Err(ParseFault::EmptyField { field_name, line_number })
    } else {
        Ok(field)
    }
}

/// The content of an optional field: the field as it stands, or nothing if
/// it is blank.
pub open spec fn optional_text(field: Seq<char>) -> Option<Seq<char>> {
    if is_blank(field) {
        None
    } else {
        Some(field)
    }
}

/// An unsigned integer type that a numeric field can be read as.
pub trait Unsigned: Sized {
    /// The greatest value of the type.
    spec fn limit() -> nat;

    /// The value of the type that stands for `n`.
    spec fn of_nat(n: nat) -> Self;

    /// The value of the type that stands for `n`, which the type can hold.
    fn of_u64(n: u64) -> (r: Self)
        requires
            n <= Self::limit(),
        ensures
            r == Self::of_nat(n as nat),
    ;

    /// The greatest value of the type, as far as 64 bits reach.
    fn limit_u64() -> (r: u64)
        ensures
            r == Self::limit(),
    ;
}

impl Unsigned for u32 {
    open spec fn limit() -> nat {
        u32::MAX as nat
    }

    open spec fn of_nat(n: nat) -> u32 {
        n as u32
    }

    fn of_u64(n: u64) -> (r: u32) {
        n as u32
    }

    fn limit_u64() -> (r: u64) {
        0xFFFF_FFFF
    }
}

impl Unsigned for u64 {
    open spec fn limit() -> nat {
        u64::MAX as nat
    }

    open spec fn of_nat(n: nat) -> u64 {
        n as u64
    }

    fn of_u64(n: u64) -> (r: u64) {
        n
    }

    fn limit_u64() -> (r: u64) {
        0xFFFF_FFFF_FFFF_FFFF
    }
}

/// The number in a numeric field: the trimmed field read as an unsigned
/// decimal number of type `T`.
pub open spec fn number_field<T: Unsigned>(
    field: Seq<char>,
    field_name: Seq<char>,
    line_number: usize,
) -> Result<T, ParseFault> {
    match parse_unsigned(trim(field), T::limit()) {
        Some(n) => Ok(T::of_nat(n)),
        None => Err(ParseFault::InvalidNumber { field_name, value: field, line_number }),
    }
}

/// The number in an optional numeric field: nothing if the field is blank,
/// else the number in it.
pub open spec fn optional_number_field<T: Unsigned>(
    field: Seq<char>,
    field_name: Seq<char>,
    line_number: usize,
) -> Result<Option<T>, ParseFault> {
    if is_blank(field) {
        Ok(None)
    } else {
        match number_field::<T>(field, field_name, line_number) {
            Ok(n) => Ok(Some(n)),
            Err(fault) => Err(fault),
        }
    }
}

/// The text of one source file, ready to be read line by line.
pub struct EdneParser {
    content: String,
    separator: char,
}

impl View for EdneParser {
    type V = Seq<char>;

    closed spec fn view(&self) -> Seq<char> {
        self.content@
    }
}

impl EdneParser {
    /// Fields are separated by the reserved character and no other.
    #[verifier::type_invariant]
    spec fn separates_by_the_reserved_character(self) -> bool {
        self.separator == FIELD_SEPARATOR
    }

    /// A parser over bytes in the single-byte Western European encoding.
    /// Every byte sequence is accepted.
    pub fn from_iso8859_1(bytes: &[u8]) -> (r: Result<Self, ParseError>)
        ensures
            r matches Ok(parser) && parser@ == latin1(bytes@),
    {
        let content = Self::decode_iso8859_1(bytes)?;
        Ok(Self { content, separator: FIELD_SEPARATOR })
    }

    /// A parser over text that is already decoded.
    pub fn from_utf8(content: String) -> (r: Self)
        ensures
            r@ == content@,
    {
        Self { content, separator: FIELD_SEPARATOR }
    }

    /// Decodes single-byte text: byte `b` becomes the code point of the
    /// same number. Never fails.
    pub fn decode_iso8859_1(bytes: &[u8]) -> (r: Result<String, ParseError>)
        ensures
            r matches Ok(text) && text@ == latin1(bytes@),
    {
        Ok(decode_latin1(bytes))
    }

    /// The lines that are not blank, each with its number among all lines,
    /// counted from one.
    pub fn lines(&self) -> (r: Vec<(usize, String)>)
        ensures
            r.deep_view() == logical_lines(self@),
    {
        let v = to_chars(self.content.as_str());
        logical_lines_of(&v)
    }

    /// The fields of a line. Empty fields are kept, also at the end of the
    /// line.
    pub fn parse_line(&self, line: &str) -> (fields: Vec<String>)
        ensures
            fields.deep_view() == split(line@, FIELD_SEPARATOR),
    {
        proof {
            use_type_invariant(self);
        }
        let v = to_chars(line);
        split_chars(&v, self.separator)
    }

    /// The fields of a line, provided there are exactly `expected_count`
    /// of them.
    pub fn parse_line_checked(&self, line: &str, expected_count: usize, line_number: usize) -> (r:
        Result<Vec<String>, ParseError>)
        ensures
            result_view(r) == checked_fields(line@, expected_count, line_number),
    {
        let fields = self.parse_line(line);
        if fields.len() != expected_count {
            return Err(
                ParseError::FieldCount {
                    expected: expected_count,
                    got: fields.len(),
                    line_number,
                },
            );
        }
        Ok(fields)
    }

    /// The content of a required field, untrimmed.
    pub fn required_field(field: &str, field_name: &'static str, line_number: usize) -> (r: Result<
        String,
        ParseError,
    >)
        ensures
            result_view(r) == required_text(field@, field_name@, line_number),
    {
        if is_blank_str(field) {
            return Err(ParseError::EmptyField { field_name, line_number });
        }
        Ok(field.to_owned())
    }

    /// The content of an optional field, untrimmed.
    pub fn optional_field(field: &str) -> (r: Option<String>)
        ensures
            r.deep_view() == optional_text(field@),
    {
        if is_blank_str(field) {
            None
        } else {
            Some(field.to_owned())
        }
    }

    /// The number in a numeric field.
    pub fn parse_number<T: Unsigned>(
        field: &str,
        field_name: &'static str,
        line_number: usize,
    ) -> (r: Result<T, ParseError>)
        ensures
            match r {
                Ok(n) => {
                    number_field::<T>(field@, field_name@, line_number) == Ok::<T, ParseFault>(n)
                },
                Err(e) => number_field::<T>(field@, field_name@, line_number) == Err::<
                    T,
                    ParseFault,
                >(e@),
            },
    {
        let v = to_chars(field);
        let bounds: (usize, usize) = trim_range(&v);
        match parse_unsigned_range(&v, bounds.0, bounds.1, T::limit_u64()) {
            Some(n) => Ok(T::of_u64(n)),
            None => Err(
                ParseError::InvalidNumber { field_name, value: field.to_owned(), line_number },
            ),
        }
    }

    /// The number in an optional numeric field.
    pub fn parse_optional_number<T: Unsigned>(
        field: &str,
        field_name: &'static str,
        line_number: usize,
    ) -> (r: Result<Option<T>, ParseError>)
        ensures
            match r {
                Ok(n) => optional_number_field::<T>(field@, field_name@, line_number) == Ok::<
                    Option<T>,
                    ParseFault,
                >(n),
                Err(e) => optional_number_field::<T>(field@, field_name@, line_number) == Err::<
                    Option<T>,
                    ParseFault,
                >(e@),
            },
    {
        if is_blank_str(field) {
            return Ok(None);
        }
        match Self::parse_number::<T>(field, field_name, line_number) {
            Ok(n) => Ok(Some(n)),
            Err(e) => Err(e),
        }
    }

    /// The whole text.
    pub fn content(&self) -> (r: &str)
        ensures
            r@ == self@,
    {
        self.content.as_str()
    }
}

} // verus!
