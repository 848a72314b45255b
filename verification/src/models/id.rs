//! What all identifiers share: a positive 32-bit number and its text form.

use crate::text::decimal::{
    all_digits, decimal, decimal_value, lemma_decimal, lemma_parse_decimal, parse_u32,
    parse_unsigned_range, unsigned_digits,
};
use crate::text::space::{is_blank, lemma_blank_iff_trim_empty, to_chars, trim, trim_range};
use vstd::prelude::*;
use vstd::string::StringExecFns;

verus! {

/// Why a number or a text is no identifier.
pub enum IdFault {
    /// The number is zero.
    Zero,
    /// The text, given here as it came, is no unsigned 32-bit decimal number.
    InvalidFormat(Seq<char>),
}

/// The identifier written in `s`: the trimmed text read as an unsigned
/// decimal number that fits 32 bits and is not zero.
pub open spec fn parse_id(s: Seq<char>) -> Result<u32, IdFault> {
    match parse_u32(trim(s)) {
        None => Err(IdFault::InvalidFormat(s)),
        Some(n) => if n == 0 {
            Err(IdFault::Zero)
        } else {
            Ok(n)
        },
    }
}

/// The text writes an identifier: between surrounding whitespace stand an
/// optional plus sign and then digits, which denote a number from one up
/// to the greatest that 32 bits hold.
pub open spec fn is_id_text(s: Seq<char>) -> bool {
    let digits = unsigned_digits(trim(s));
    digits.len() > 0 && all_digits(digits) && 0 < decimal_value(digits) <= u32::MAX
}

/// The number that the digits of an identifier text denote.
pub open spec fn id_value(s: Seq<char>) -> nat {
    decimal_value(unsigned_digits(trim(s)))
}

/// An identifier text is read as the number that its digits denote, and
/// nothing else is read as an identifier.
pub proof fn lemma_parse_id(s: Seq<char>)
    ensures
        is_id_text(s) <==> parse_id(s) is Ok,
        is_id_text(s) ==> parse_id(s) == Ok::<u32, IdFault>(id_value(s) as u32) && id_value(s)
            <= u32::MAX && !is_blank(s),
{
    lemma_blank_iff_trim_empty(s);
}

/// An identifier written in decimal is read back as itself.
pub proof fn lemma_written_id_reads_back(id: u32)
    requires
        id != 0,
    ensures
        is_id_text(decimal(id as nat)),
        parse_id(decimal(id as nat)) == Ok::<u32, IdFault>(id),
{
    lemma_parse_decimal(id as nat, u32::MAX as nat);
    lemma_decimal(id as nat);
    let digits = decimal(id as nat);
    assert(digits[0] != '+');
}

/// The sentence that reports `fault` for an identifier of the given kind.
pub open spec fn fault_message(kind: Seq<char>, fault: IdFault) -> Seq<char> {
    match fault {
        IdFault::Zero => kind + " ID cannot be zero"@,
        IdFault::InvalidFormat(text) => "invalid "@ + kind + " ID format: '"@ + text + "'"@,
    }
}

/// Reads the trimmed text as an unsigned 32-bit decimal number.
pub fn read_number(s: &str) -> (r: Option<u32>)
    ensures
        r == parse_u32(trim(s@)),
{
    let v = to_chars(s);
    let bounds: (usize, usize) = trim_range(&v);
    match parse_unsigned_range(&v, bounds.0, bounds.1, 0xFFFF_FFFF) {
        Some(n) => Some(n as u32),
        None => None,
    }
}

/// Writes the report of a zero identifier of the given kind.
pub fn zero_message(kind: &str) -> (r: String)
    ensures
        r@ == fault_message(kind@, IdFault::Zero),
{
    let mut r = String::from_str(kind);
    r.append(" ID cannot be zero");
    r
}

/// Writes the report of a text that is no identifier of the given kind.
pub fn format_message(kind: &str, text: &str) -> (r: String)
    ensures
        r@ == fault_message(kind@, IdFault::InvalidFormat(text@)),
{
    let mut r = String::from_str("invalid ");
    r.append(kind);
    r.append(" ID format: '");
    r.append(text);
    r.append("'");
    r
}

} // verus!
