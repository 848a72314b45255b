//! What the small enumerations share: one-character codes and the report
//! of a text that is none of them.

use vstd::prelude::*;
use vstd::string::StringExecFns;

verus! {

/// The sentence that reports `text` as no code of the enumeration called
/// `what`.
pub open spec fn code_message(what: Seq<char>, text: Seq<char>) -> Seq<char> {
    "invalid "@ + what + " code: '"@ + text + "'"@
}

/// Writes the report of a text that is no code of the enumeration called
/// `what`.
pub fn code_message_string(what: &str, text: &str) -> (r: String)
    ensures
        r@ == code_message(what@, text@),
{
    let mut r = String::from_str("invalid ");
    r.append(what);
    r.append(" code: '");
    r.append(text);
    r.append("'");
    r
}

/// A copy of an optional text.
pub fn clone_text(text: &Option<String>) -> (r: Option<String>)
    ensures
        r.deep_view() == text.deep_view(),
{
    match text {
        Some(s) => Some(s.clone()),
        None => None,
    }
}

} // verus!
