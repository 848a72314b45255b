//! ASCII case folding and the single-byte Western European encoding.

use crate::text::space::{
    is_whitespace, lemma_trim_bounds_exist, lemma_trim_end_is_prefix,
    lemma_trim_start_is_suffix, trim, trim_bounds,
};
use vstd::prelude::*;

verus! {

/// `c` as an upper-case letter if it is one of `a` to `z`, else `c` itself.
pub open spec fn upper(c: char) -> char {
    if 0x61 <= c as u32 <= 0x7A {
        ((c as u32 - 0x20) as u32) as char
    } else {
        c
    }
}

/// `s` with each of the letters `a` to `z` in upper case.
pub open spec fn to_upper(s: Seq<char>) -> Seq<char> {
    s.map_values(|c: char| upper(c))
}

/// The character that a byte stands for: the code point of the same number.
pub open spec fn latin1_char(b: u8) -> char {
    b as char
}

/// The text that a byte sequence stands for, one character per byte.
pub open spec fn latin1(bytes: Seq<u8>) -> Seq<char> {
    bytes.map_values(|b: u8| latin1_char(b))
}

/// Folding an upper-cased text changes nothing.
pub proof fn lemma_to_upper_idempotent(s: Seq<char>)
    ensures
        to_upper(to_upper(s)) == to_upper(s),
{
    assert(to_upper(to_upper(s)) =~= to_upper(s));
}

/// Upper-casing and trimming can be done in either order.
pub proof fn lemma_trim_to_upper(s: Seq<char>)
    ensures
        trim(to_upper(s)) == to_upper(trim(s)),
{
    lemma_trim_bounds_exist(s);
    let (a, b) = choose|a: int, b: int| trim_bounds(s, a, b);
    let u = to_upper(s);
    assert forall|i: int| 0 <= i < u.take(a).len() implies is_whitespace(
        #[trigger] u.take(a)[i],
    ) by {
        assert(s.take(a)[i] == s[i]);
    }
    assert forall|i: int| 0 <= i < u.skip(b).len() implies is_whitespace(
        #[trigger] u.skip(b)[i],
    ) by {
        assert(s.skip(b)[i] == s[i + b]);
    }
    lemma_trim_start_is_suffix(u, a);
    let t = u.skip(a);
    assert forall|i: int| 0 <= i < t.skip(b - a).len() implies is_whitespace(
        #[trigger] t.skip(b - a)[i],
    ) by {
        assert(t.skip(b - a)[i] == u.skip(b)[i]);
    }
    if a < b {
        assert(t[b - a - 1] == u[b - 1]);
    }
    lemma_trim_end_is_prefix(t, b - a);
    assert(t.take(b - a) =~= to_upper(s.subrange(a, b)));
}

/// Decoding keeps the length and maps byte `i` to the code point of the
/// same number.
pub proof fn lemma_latin1(bytes: Seq<u8>)
    ensures
        latin1(bytes).len() == bytes.len(),
        forall|i: int| 0 <= i < bytes.len() ==> (#[trigger] latin1(bytes)[i]) as u32 == bytes[i],
{
}

/// The upper-case form of `c`.
pub fn upper_char(c: char) -> (r: char)
    ensures
        r == upper(c),
{
    let n: u32 = c as u32;
    if 0x61 <= n && n <= 0x7A {
        ((n - 0x20) as u8) as char
    } else {
        c
    }
}

/// Upper-cases the characters of `v` in `from..to`.
pub fn upper_range(v: &Vec<char>, from: usize, to: usize) -> (s: String)
    requires
        from <= to <= v.len(),
    ensures
        s@ == to_upper(v@.subrange(from as int, to as int)),
{
    let mut s = String::new();
    let mut i: usize = from;
    while i < to
        invariant
            from <= i <= to <= v.len(),
            s@ == to_upper(v@.subrange(from as int, i as int)),
        decreases to - i,
    {
        s.push(upper_char(v[i]));
        proof {
            assert(to_upper(v@.subrange(from as int, i as int)).push(upper(v@[i as int]))
                =~= to_upper(v@.subrange(from as int, i + 1)));
        }
        i += 1;
    }
    s
}

/// Decodes single-byte text: each byte becomes the character of the same
/// number.
pub fn decode_latin1(bytes: &[u8]) -> (s: String)
    ensures
        s@ == latin1(bytes@),
{
    let mut s = String::new();
    let mut i: usize = 0;
    while i < bytes.len()
        invariant
            i <= bytes.len(),
            s@ == latin1(bytes@.take(i as int)),
        decreases bytes.len() - i,
    {
        s.push(bytes[i] as char);
        proof {
            assert(latin1(bytes@.take(i as int)).push(latin1_char(bytes@[i as int])) =~= latin1(
                bytes@.take(i + 1),
            ));
        }
        i += 1;
    }
    proof {
        assert(bytes@.take(bytes.len() as int) =~= bytes@);
    }
    s
}

} // verus!
