//! Whitespace, blank texts and trimming; conversions between strings and
//! character vectors.

use vstd::prelude::*;

verus! {

/// `String::push` of the standard library. Taken on trust: the character
/// is appended at the end of the string, and the characters before it stay
/// as they are.
pub assume_specification[ String::push ](s: &mut String, c: char)
    ensures
        final(s)@ == old(s)@.push(c),
;

/// The characters with the Unicode `White_Space` property.
pub open spec fn is_whitespace(c: char) -> bool {
    let n = c as u32;
    ||| 0x09 <= n <= 0x0D
    ||| n == 0x20
    ||| n == 0x85
    ||| n == 0xA0
    ||| n == 0x1680
    ||| 0x2000 <= n <= 0x200A
    ||| n == 0x2028
    ||| n == 0x2029
    ||| n == 0x202F
    ||| n == 0x205F
    ||| n == 0x3000
}

/// A text is blank when it holds nothing but whitespace.
pub open spec fn is_blank(s: Seq<char>) -> bool {
    forall|i: int| 0 <= i < s.len() ==> is_whitespace(#[trigger] s[i])
}

/// `s` without its leading whitespace.
pub open spec fn trim_start(s: Seq<char>) -> Seq<char>
    decreases s.len(),
{
    if s.len() > 0 && is_whitespace(s[0]) {
        trim_start(s.drop_first())
    } else {
        s
    }
}

/// `s` without its trailing whitespace.
pub open spec fn trim_end(s: Seq<char>) -> Seq<char>
    decreases s.len(),
{
    if s.len() > 0 && is_whitespace(s.last()) {
        trim_end(s.drop_last())
    } else {
        s
    }
}

/// `s` without its leading and trailing whitespace.
pub open spec fn trim(s: Seq<char>) -> Seq<char> {
    trim_end(trim_start(s))
}

/// `trim_start` removes a blank prefix and nothing else.
pub proof fn lemma_trim_start_is_suffix(s: Seq<char>, a: int)
    requires
        0 <= a <= s.len(),
        is_blank(s.take(a)),
        a < s.len() ==> !is_whitespace(s[a]),
    ensures
        trim_start(s) == s.skip(a),
    decreases a,
{
    if a == 0 {
        assert(s.skip(0) =~= s);
    } else {
        assert(s.take(a)[0] == s[0]);
        let t = s.drop_first();
        assert(t.take(a - 1) =~= s.take(a).drop_first());
        assert forall|i: int| 0 <= i < t.take(a - 1).len() implies is_whitespace(
            #[trigger] t.take(a - 1)[i],
        ) by {
            assert(t.take(a - 1)[i] == s.take(a)[i + 1]);
        }
        lemma_trim_start_is_suffix(t, a - 1);
        assert(t.skip(a - 1) =~= s.skip(a));
    }
}

/// `trim_end` removes a blank suffix and nothing else.
pub proof fn lemma_trim_end_is_prefix(s: Seq<char>, b: int)
    requires
        0 <= b <= s.len(),
        is_blank(s.skip(b)),
        b > 0 ==> !is_whitespace(s[b - 1]),
    ensures
        trim_end(s) == s.take(b),
    decreases s.len() - b,
{
    if b == s.len() {
        assert(s.take(b) =~= s);
    } else {
        assert(s.skip(b)[s.len() - b - 1] == s.last());
        let t = s.drop_last();
        assert forall|i: int| 0 <= i < t.skip(b).len() implies is_whitespace(
            #[trigger] t.skip(b)[i],
        ) by {
            assert(t.skip(b)[i] == s.skip(b)[i]);
        }
        lemma_trim_end_is_prefix(t, b);
        assert(t.take(b) =~= s.take(b));
    }
}

/// A text is blank exactly when trimming leaves nothing of it.
pub proof fn lemma_blank_iff_trim_empty(s: Seq<char>)
    ensures
        is_blank(s) <==> trim(s).len() == 0,
{
    lemma_trim_bounds_exist(s);
    let (a, b) = choose|a: int, b: int| trim_bounds(s, a, b);
    if is_blank(s) {
        if a < s.len() {
            assert(is_whitespace(s[a]));
        }
    } else {
        let i = choose|i: int| 0 <= i < s.len() && !is_whitespace(#[trigger] s[i]);
        if i < a {
            assert(s.take(a)[i] == s[i]);
        }
        if i >= b {
            assert(s.skip(b)[i - b] == s[i]);
        }
    }
}

/// `a` and `b` delimit what trimming keeps of `s`: a blank prefix before
/// `a`, a blank suffix from `b` on, and no whitespace at either end of the
/// part between them.
pub open spec fn trim_bounds(s: Seq<char>, a: int, b: int) -> bool {
    &&& 0 <= a <= b <= s.len()
    &&& is_blank(s.take(a))
    &&& is_blank(s.skip(b))
    &&& a < b ==> !is_whitespace(s[a]) && !is_whitespace(s[b - 1])
    &&& a == b ==> a == s.len()
    &&& trim(s) == s.subrange(a, b)
}

/// Every text has trim bounds.
pub proof fn lemma_trim_bounds_exist(s: Seq<char>)
    ensures
        exists|a: int, b: int| trim_bounds(s, a, b),
{
    let a = leading_blank(s);
    lemma_leading_blank(s);
    let t = s.skip(a);
    let k = trailing_blank(t);
    lemma_trailing_blank(t);
    let b = s.len() - k;
    lemma_trim_start_is_suffix(s, a);
    lemma_trim_end_is_prefix(t, t.len() - k);
    assert(t.take(t.len() - k) =~= s.subrange(a, b));
    assert(s.skip(b) =~= t.skip(t.len() - k));
    if a == b && a < s.len() {
        assert(t.skip(0)[0] == t[0]);
    }
    assert(trim_bounds(s, a, b));
}

/// Number of whitespace characters at the start of `s`.
pub open spec fn leading_blank(s: Seq<char>) -> int
    decreases s.len(),
{
    if s.len() > 0 && is_whitespace(s[0]) {
        1 + leading_blank(s.drop_first())
    } else {
        0
    }
}

/// Number of whitespace characters at the end of `s`.
pub open spec fn trailing_blank(s: Seq<char>) -> int
    decreases s.len(),
{
    if s.len() > 0 && is_whitespace(s.last()) {
        1 + trailing_blank(s.drop_last())
    } else {
        0
    }
}

/// `leading_blank` counts a blank prefix, and what follows the prefix does
/// not start with whitespace.
proof fn lemma_leading_blank(s: Seq<char>)
    ensures
        0 <= leading_blank(s) <= s.len(),
        is_blank(s.take(leading_blank(s))),
        leading_blank(s) < s.len() ==> !is_whitespace(s[leading_blank(s)]),
    decreases s.len(),
{
    if s.len() > 0 && is_whitespace(s[0]) {
        let t = s.drop_first();
        lemma_leading_blank(t);
        let k = leading_blank(t);
        assert forall|i: int| 0 <= i < s.take(k + 1).len() implies is_whitespace(
            #[trigger] s.take(k + 1)[i],
        ) by {
            if i > 0 {
                assert(s.take(k + 1)[i] == t.take(k)[i - 1]);
            }
        }
    }
}

/// `trailing_blank` counts a blank suffix, and what precedes the suffix
/// does not end with whitespace.
proof fn lemma_trailing_blank(s: Seq<char>)
    ensures
        0 <= trailing_blank(s) <= s.len(),
        is_blank(s.skip(s.len() - trailing_blank(s))),
        trailing_blank(s) < s.len() ==> !is_whitespace(s[s.len() - trailing_blank(s) - 1]),
    decreases s.len(),
{
    if s.len() > 0 && is_whitespace(s.last()) {
        let t = s.drop_last();
        lemma_trailing_blank(t);
        let k = trailing_blank(t);
        let u = s.skip(s.len() - (k + 1));
        assert forall|i: int| 0 <= i < u.len() implies is_whitespace(#[trigger] u[i]) by {
            if i < k {
                assert(u[i] == t.skip(t.len() - k)[i]);
            }
        }
    }
}

/// Tells whether `c` is a whitespace character.
pub fn is_whitespace_char(c: char) -> (b: bool)
    ensures
        b == is_whitespace(c),
{
    let n: u32 = c as u32;
    (0x09 <= n && n <= 0x0D) || n == 0x20 || n == 0x85 || n == 0xA0 || n == 0x1680 || (0x2000 <= n
        && n <= 0x200A) || n == 0x2028 || n == 0x2029 || n == 0x202F || n == 0x205F || n == 0x3000
}

/// Collects the characters of `s` into a vector.
pub fn to_chars(s: &str) -> (v: Vec<char>)
    ensures
        v@ == s@,
{
    let mut v: Vec<char> = Vec::new();
    let chars = s.chars();
    for c in it: chars
        invariant
            v@ == it.seq().take(it.index() as int),
            it.seq() == s@,
    {
        v.push(c);
    }
    v
}

/// Builds a string from the characters of `v` in `from..to`.
pub fn string_from_range(v: &Vec<char>, from: usize, to: usize) -> (s: String)
    requires
        from <= to <= v.len(),
    ensures
        s@ == v@.subrange(from as int, to as int),
{
    let mut s = String::new();
    let mut i: usize = from;
    while i < to
        invariant
            from <= i <= to <= v.len(),
            s@ == v@.subrange(from as int, i as int),
        decreases to - i,
    {
        s.push(v[i]);
        assert(v@.subrange(from as int, i as int).push(v@[i as int]) =~= v@.subrange(
            from as int,
            i + 1,
        ));
        i += 1;
    }
    s
}

/// Tells whether `s` holds nothing but whitespace.
pub fn is_blank_str(s: &str) -> (b: bool)
    ensures
        b == is_blank(s@),
{
    let mut blank = true;
    let chars = s.chars();
    for c in it: chars
        invariant
            it.seq() == s@,
            blank == is_blank(s@.take(it.index() as int)),
    {
        let ghost k = it.index() as int;
        let w = is_whitespace_char(c);
        proof {
            assert(s@.take(k + 1) =~= s@.take(k).push(c));
            if blank && w {
                assert forall|i: int| 0 <= i < s@.take(k + 1).len() implies is_whitespace(
                    #[trigger] s@.take(k + 1)[i],
                ) by {
                    if i < k {
                        assert(s@.take(k + 1)[i] == s@.take(k)[i]);
                    }
                }
            } else if !w {
                assert(s@.take(k + 1)[k] == c);
            } else {
                let j = choose|j: int| 0 <= j < k && !is_whitespace(#[trigger] s@.take(k)[j]);
                assert(s@.take(k + 1)[j] == s@.take(k)[j]);
            }
        }
        blank = blank && w;
    }
    proof {
        assert(s@.take(s@.len() as int) =~= s@);
    }
    blank
}

/// Finds what trimming keeps of `v`: the characters in `a..b`.
pub fn trim_range(v: &Vec<char>) -> (r: (usize, usize))
    ensures
        trim_bounds(v@, r.0 as int, r.1 as int),
{
    let mut a: usize = 0;
    while a < v.len() && is_whitespace_char(v[a])
        invariant
            a <= v.len(),
            is_blank(v@.take(a as int)),
        decreases v.len() - a,
    {
        proof {
            assert forall|i: int| 0 <= i < v@.take(a + 1).len() implies is_whitespace(
                #[trigger] v@.take(a + 1)[i],
            ) by {
                if i < a {
                    assert(v@.take(a + 1)[i] == v@.take(a as int)[i]);
                }
            }
        }
        a += 1;
    }
    let mut b: usize = v.len();
    proof {
        assert(v@.skip(b as int).len() == 0);
    }
    while b > a && is_whitespace_char(v[b - 1])
        invariant
            a <= b <= v.len(),
            is_blank(v@.skip(b as int)),
        decreases b,
    {
        proof {
            assert forall|i: int| 0 <= i < v@.skip(b - 1).len() implies is_whitespace(
                #[trigger] v@.skip(b - 1)[i],
            ) by {
                if i > 0 {
                    assert(v@.skip(b - 1)[i] == v@.skip(b as int)[i - 1]);
                }
            }
        }
        b -= 1;
    }
    proof {
        let s = v@;
        let t = s.skip(a as int);
        lemma_trim_start_is_suffix(s, a as int);
        assert forall|i: int| 0 <= i < t.skip(b - a).len() implies is_whitespace(
            #[trigger] t.skip(b - a)[i],
        ) by {
            assert(t.skip(b - a)[i] == s.skip(b as int)[i]);
        }
        if a < b {
            assert(t[b - a - 1] == s[b - 1]);
        } else if a < s.len() {
            assert(s.skip(b as int)[0] == s[a as int]);
        }
        lemma_trim_end_is_prefix(t, b - a);
        assert(t.take(b - a) =~= s.subrange(a as int, b as int));
    }
    (a, b)
}

} // verus!
