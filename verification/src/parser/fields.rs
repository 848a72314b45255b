//! Typed fields: what a field of a record holds when it is read as an
//! identifier, a federative unit or a code of an enumeration.

use crate::models::code::code_message;
use crate::models::id::{
    fault_message, format_message, lemma_parse_id, lemma_written_id_reads_back, parse_id,
    read_number, zero_message, IdFault,
};
use crate::models::uf::Uf;
use crate::outcome::result_view;
use crate::parser::base::{optional_text, EdneParser, ParseError, ParseFault, FIELD_SEPARATOR};
use crate::text::decimal::{decimal, is_digit, lemma_decimal};
use crate::text::space::{is_blank, is_blank_str};
use vstd::prelude::*;

verus! {

/// The name of the field that holds the federative unit, in every record
/// kind.
pub const UF_FIELD: &'static str = "UFE_SG";

/// The fault of a result, if it has one.
pub open spec fn failure<T>(r: Result<T, ParseFault>) -> Option<ParseFault> {
    match r {
        Ok(_) => None,
        Err(fault) => Some(fault),
    }
}

/// The first fault if there is one, else the other.
pub open spec fn or_else(first: Option<ParseFault>, rest: Option<ParseFault>) -> Option<
    ParseFault,
> {
    if first is Some {
        first
    } else {
        rest
    }
}

/// The report of a field whose value is outside its domain.
pub open spec fn invalid_value(
    field: Seq<char>,
    field_name: Seq<char>,
    reason: Seq<char>,
    line_number: usize,
) -> ParseFault {
    ParseFault::InvalidValue { field_name, value: field, reason, line_number }
}

/// The identifier in a required field.
pub open spec fn id_field(
    field: Seq<char>,
    field_name: Seq<char>,
    kind: Seq<char>,
    line_number: usize,
) -> Result<u32, ParseFault> {
    if is_blank(field) {
        Err(ParseFault::EmptyField { field_name, line_number })
    } else {
        match parse_id(field) {
            Ok(id) => Ok(id),
            Err(fault) => Err(
                invalid_value(field, field_name, fault_message(kind, fault), line_number),
            ),
        }
    }
}

/// The identifier in an optional field: none if the field is blank.
pub open spec fn optional_id_field(
    field: Seq<char>,
    field_name: Seq<char>,
    kind: Seq<char>,
    line_number: usize,
) -> Result<Option<u32>, ParseFault> {
    if is_blank(field) {
        Ok(None)
    } else {
        match parse_id(field) {
            Ok(id) => Ok(Some(id)),
            Err(fault) => Err(
                invalid_value(field, field_name, fault_message(kind, fault), line_number),
            ),
        }
    }
}

/// The federative unit in its field, which is required.
pub open spec fn uf_field(field: Seq<char>, line_number: usize) -> Result<Uf, ParseFault> {
    if is_blank(field) {
        Err(ParseFault::EmptyField { field_name: UF_FIELD@, line_number })
    } else {
        match Uf::parse(field) {
            Ok(uf) => Ok(uf),
            Err(fault) => Err(invalid_value(field, UF_FIELD@, fault.message(), line_number)),
        }
    }
}

/// The value of an enumeration in a required field, given what the
/// enumeration reads in the field: a value, or the text it rejects.
pub open spec fn code_field<T>(
    field: Seq<char>,
    field_name: Seq<char>,
    what: Seq<char>,
    parsed: Result<T, Seq<char>>,
    line_number: usize,
) -> Result<T, ParseFault> {
    if is_blank(field) {
        Err(ParseFault::EmptyField { field_name, line_number })
    } else {
        match parsed {
            Ok(value) => Ok(value),
            Err(text) => Err(
                invalid_value(field, field_name, code_message(what, text), line_number),
            ),
        }
    }
}

/// The value of an enumeration in an optional field: none if the field is
/// blank.
pub open spec fn optional_code_field<T>(
    field: Seq<char>,
    field_name: Seq<char>,
    what: Seq<char>,
    parsed: Result<T, Seq<char>>,
    line_number: usize,
) -> Result<Option<T>, ParseFault> {
    if is_blank(field) {
        Ok(None)
    } else {
        match parsed {
            Ok(value) => Ok(Some(value)),
            Err(text) => Err(
                invalid_value(field, field_name, code_message(what, text), line_number),
            ),
        }
    }
}

/// How an optional text is written into its field: as it stands, or as
/// nothing where it is absent.
pub open spec fn optional_written(text: Option<Seq<char>>) -> Seq<char> {
    match text {
        Some(text) => text,
        None => Seq::empty(),
    }
}

/// How an optional identifier is written into its field: in decimal, or
/// as nothing where it is absent.
pub open spec fn optional_id_written(id: Option<u32>) -> Seq<char> {
    match id {
        Some(id) => decimal(id as nat),
        None => Seq::empty(),
    }
}

/// The text can stand in a required field: it is not blank and holds no
/// field separator.
pub open spec fn fits_required(text: Seq<char>) -> bool {
    !is_blank(text) && !text.contains(FIELD_SEPARATOR)
}

/// The text can stand in an optional field if there is one.
pub open spec fn fits_optional(text: Option<Seq<char>>) -> bool {
    text matches Some(text) ==> fits_required(text)
}

/// The identifier can be written if there is one: it is not zero.
pub open spec fn optional_id_fits(id: Option<u32>) -> bool {
    id matches Some(id) ==> id != 0
}

/// An identifier written in decimal holds no field separator and is read
/// back from its field as itself.
pub proof fn lemma_id_written(id: u32, field_name: Seq<char>, kind: Seq<char>, line_number: usize)
    requires
        id != 0,
    ensures
        !decimal(id as nat).contains(FIELD_SEPARATOR),
        parse_id(decimal(id as nat)) == Ok::<u32, IdFault>(id),
        id_field(decimal(id as nat), field_name, kind, line_number) == Ok::<u32, ParseFault>(id),
{
    let text = decimal(id as nat);
    lemma_written_id_reads_back(id);
    lemma_parse_id(text);
    lemma_decimal(id as nat);
    if text.contains(FIELD_SEPARATOR) {
        let i = choose|i: int| 0 <= i < text.len() && text[i] == FIELD_SEPARATOR;
        assert(is_digit(text[i]));
    }
}

/// An optional identifier written into its field holds no field separator
/// and is read back as itself.
pub proof fn lemma_optional_id_written(
    id: Option<u32>,
    field_name: Seq<char>,
    kind: Seq<char>,
    line_number: usize,
)
    requires
        optional_id_fits(id),
    ensures
        !optional_id_written(id).contains(FIELD_SEPARATOR),
        is_blank(optional_id_written(id)) <==> id is None,
        id matches Some(n) ==> parse_id(optional_id_written(id)) == Ok::<u32, IdFault>(n),
        optional_id_field(optional_id_written(id), field_name, kind, line_number) == Ok::<
            Option<u32>,
            ParseFault,
        >(id),
{
    match id {
        Some(n) => {
            lemma_id_written(n, field_name, kind, line_number);
            lemma_parse_id(decimal(n as nat));
        },
        None => {},
    }
}

/// An optional text written into its field is read back as itself.
pub proof fn lemma_optional_written(text: Option<Seq<char>>)
    requires
        fits_optional(text),
    ensures
        !optional_written(text).contains(FIELD_SEPARATOR),
        optional_text(optional_written(text)) == text,
{
}

/// Reads the number of the identifier in a field that is not blank.
fn id_in(field: &str, field_name: &'static str, kind: &'static str, line_number: usize) -> (r:
    Result<u32, ParseError>)
    requires
        !is_blank(field@),
    ensures
        result_view(r) == id_field(field@, field_name@, kind@, line_number),
        r matches Ok(id) ==> id != 0,
{
    match read_number(field) {
        None => Err(
            ParseError::InvalidValue {
                field_name,
                value: field.to_owned(),
                reason: format_message(kind, field),
                line_number,
            },
        ),
        Some(id) => if id == 0 {
            Err(
                ParseError::InvalidValue {
                    field_name,
                    value: field.to_owned(),
                    reason: zero_message(kind),
                    line_number,
                },
            )
        } else {
            Ok(id)
        },
    }
}

/// Reads the number of the identifier in a required field.
pub fn required_id(field: &str, field_name: &'static str, kind: &'static str, line_number: usize)
    -> (r: Result<u32, ParseError>)
    ensures
        result_view(r) == id_field(field@, field_name@, kind@, line_number),
        r matches Ok(id) ==> id != 0,
{
    if is_blank_str(field) {
        return Err(ParseError::EmptyField { field_name, line_number });
    }
    id_in(field, field_name, kind, line_number)
}

/// Reads the number of the identifier in an optional field.
pub fn optional_id(field: &str, field_name: &'static str, kind: &'static str, line_number: usize)
    -> (r: Result<Option<u32>, ParseError>)
    ensures
        result_view(r) == optional_id_field(field@, field_name@, kind@, line_number),
        r matches Ok(Some(id)) ==> id != 0,
{
    if is_blank_str(field) {
        return Ok(None);
    }
    match id_in(field, field_name, kind, line_number) {
        Ok(id) => Ok(Some(id)),
        Err(e) => Err(e),
    }
}

/// Reads the federative unit in its field.
pub fn required_uf(field: &str, line_number: usize) -> (r: Result<Uf, ParseError>)
    ensures
        result_view(r) == uf_field(field@, line_number),
{
    let text = EdneParser::required_field(field, UF_FIELD, line_number)?;
    match Uf::from_str(field) {
        Ok(uf) => Ok(uf),
        Err(e) => Err(
            ParseError::InvalidValue {
                field_name: UF_FIELD,
                value: text,
                reason: e.to_string(),
                line_number,
            },
        ),
    }
}

} // verus!
