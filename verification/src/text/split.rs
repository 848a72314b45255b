//! Splitting a text at a separator character, and joining it again.

use crate::text::space::string_from_range;
use vstd::prelude::*;

verus! {

/// The fields of `s` between occurrences of `sep`.
///
/// A text with `n` separators has `n + 1` fields; a field is empty where two
/// separators touch, or where one stands at either end of the text.
pub open spec fn split(s: Seq<char>, sep: char) -> Seq<Seq<char>>
    decreases s.len(),
{
    if s.len() == 0 {
        seq![Seq::<char>::empty()]
    } else {
        let fields = split(s.drop_last(), sep);
        if s.last() == sep {
            fields.push(Seq::<char>::empty())
        } else {
            fields.update(fields.len() - 1, fields.last().push(s.last()))
        }
    }
}

/// The fields written one after another with `sep` between them.
pub open spec fn join(fields: Seq<Seq<char>>, sep: char) -> Seq<char>
    decreases fields.len(),
{
    if fields.len() == 0 {
        Seq::<char>::empty()
    } else if fields.len() == 1 {
        fields[0]
    } else {
        join(fields.drop_last(), sep).push(sep) + fields.last()
    }
}

/// Number of occurrences of `c` in `s`.
pub open spec fn count(s: Seq<char>, c: char) -> nat
    decreases s.len(),
{
    if s.len() == 0 {
        0
    } else {
        count(s.drop_last(), c) + if s.last() == c {
            1nat
        } else {
            0nat
        }
    }
}

/// No field holds the separator.
pub open spec fn free_of(fields: Seq<Seq<char>>, sep: char) -> bool {
    forall|i: int| 0 <= i < fields.len() ==> !(#[trigger] fields[i]).contains(sep)
}

/// Splitting yields one field more than there are separators, no field
/// holds a separator, and joining the fields gives the text back.
pub proof fn lemma_split_fields(s: Seq<char>, sep: char)
    ensures
        split(s, sep).len() == count(s, sep) + 1,
        free_of(split(s, sep), sep),
        join(split(s, sep), sep) == s,
    decreases s.len(),
{
    let fields = split(s, sep);
    if s.len() == 0 {
        assert(fields[0].len() == 0);
        assert(join(fields, sep) =~= s);
    } else {
        let t = s.drop_last();
        let prev = split(t, sep);
        lemma_split_fields(t, sep);
        if s.last() == sep {
            assert(fields.drop_last() =~= prev);
            assert(join(fields, sep) =~= s);
            assert forall|i: int| 0 <= i < fields.len() implies !(#[trigger] fields[i]).contains(
                sep,
            ) by {
                if i < prev.len() {
                    assert(fields[i] == prev[i]);
                }
            }
        } else {
            let last = prev.last().push(s.last());
            assert forall|i: int| 0 <= i < fields.len() implies !(#[trigger] fields[i]).contains(
                sep,
            ) by {
                if i < prev.len() - 1 {
                    assert(fields[i] == prev[i]);
                } else {
                    assert(!prev.last().contains(sep));
                    if last.contains(sep) {
                        let j = choose|j: int| 0 <= j < last.len() && last[j] == sep;
                        assert(prev.last()[j] == sep);
                    }
                }
            }
            assert(t.push(s.last()) =~= s);
            if prev.len() == 1 {
                assert(join(prev, sep) == prev[0]);
                assert(join(fields, sep) == fields[0]);
            } else {
                assert(fields.drop_last() =~= prev.drop_last());
                assert(join(prev, sep) == join(prev.drop_last(), sep).push(sep) + prev.last());
                assert(join(fields, sep) =~= s);
            }
        }
    }
}

/// A character occurs in a text no more often than the text is long, so a
/// text has at most one field more than it has characters.
pub proof fn lemma_count_bound(s: Seq<char>, c: char)
    ensures
        count(s, c) <= s.len(),
        split(s, c).len() <= s.len() + 1,
    decreases s.len(),
{
    lemma_split_fields(s, c);
    if s.len() > 0 {
        lemma_count_bound(s.drop_last(), c);
    }
}

/// Splitting undoes joining: fields without a separator in them come back
/// unchanged.
pub proof fn lemma_split_join(fields: Seq<Seq<char>>, sep: char)
    requires
        fields.len() > 0,
        free_of(fields, sep),
    ensures
        split(join(fields, sep), sep) == fields,
    decreases fields.len(),
{
    if fields.len() == 1 {
        lemma_split_free(fields[0], sep);
        assert(split(join(fields, sep), sep) =~= fields);
    } else {
        let init = fields.drop_last();
        assert forall|i: int| 0 <= i < init.len() implies !(#[trigger] init[i]).contains(sep) by {
            assert(init[i] == fields[i]);
        }
        lemma_split_join(init, sep);
        let head = join(init, sep).push(sep);
        assert(head.drop_last() =~= join(init, sep));
        assert(split(head, sep) == init.push(Seq::<char>::empty()));
        lemma_split_append_free(head, fields.last(), sep);
        assert(split(join(fields, sep), sep) =~= fields);
    }
}

/// A text without a separator is its own single field.
pub proof fn lemma_split_free(s: Seq<char>, sep: char)
    requires
        !s.contains(sep),
    ensures
        split(s, sep) == seq![s],
    decreases s.len(),
{
    if s.len() == 0 {
        assert(s =~= Seq::<char>::empty());
    } else {
        let t = s.drop_last();
        if t.contains(sep) {
            let j = choose|j: int| 0 <= j < t.len() && t[j] == sep;
            assert(s[j] == sep);
        }
        assert(s.last() == s[s.len() - 1]);
        lemma_split_free(t, sep);
        assert(t.push(s.last()) =~= s);
        assert(split(s, sep) =~= seq![s]);
    }
}

/// Appending separator-free text extends the last field.
pub proof fn lemma_split_append_free(s: Seq<char>, tail: Seq<char>, sep: char)
    requires
        !tail.contains(sep),
    ensures
        split(s + tail, sep) == split(s, sep).update(
            split(s, sep).len() - 1,
            split(s, sep).last() + tail,
        ),
    decreases tail.len(),
{
    let fields = split(s, sep);
    lemma_split_fields(s, sep);
    if tail.len() == 0 {
        assert(s + tail =~= s);
        assert(fields.last() + tail =~= fields.last());
        assert(fields.update(fields.len() - 1, fields.last()) =~= fields);
    } else {
        let init = tail.drop_last();
        if init.contains(sep) {
            let j = choose|j: int| 0 <= j < init.len() && init[j] == sep;
            assert(tail[j] == sep);
        }
        assert(tail.last() == tail[tail.len() - 1]);
        lemma_split_append_free(s, init, sep);
        assert((s + tail).drop_last() =~= s + init);
        assert((fields.last() + init).push(tail.last()) =~= fields.last() + tail);
        assert(split(s + tail, sep) =~= fields.update(
            fields.len() - 1,
            fields.last() + tail,
        ));
    }
}

/// Splits `v` at every occurrence of `sep`.
pub fn split_chars(v: &Vec<char>, sep: char) -> (fields: Vec<String>)
    ensures
        fields.deep_view() == split(v@, sep),
{
    let mut fields: Vec<String> = Vec::new();
    let mut start: usize = 0;
    let mut i: usize = 0;
    proof {
        assert(v@.take(0) =~= Seq::<char>::empty());
        assert(fields.deep_view().push(v@.subrange(0, 0)) =~= split(v@.take(0), sep));
    }
    while i < v.len()
        invariant
            start <= i <= v.len(),
            fields.deep_view().push(v@.subrange(start as int, i as int)) == split(
                v@.take(i as int),
                sep,
            ),
        decreases v.len() - i,
    {
        let ghost before = fields.deep_view();
        proof {
            assert(v@.take(i + 1).drop_last() =~= v@.take(i as int));
        }
        if v[i] == sep {
            let field = string_from_range(v, start, i);
            fields.push(field);
            proof {
                assert(fields.deep_view() =~= before.push(v@.subrange(start as int, i as int)));
                assert(v@.subrange(i + 1, i + 1) =~= Seq::<char>::empty());
            }
            start = i + 1;
        } else {
            proof {
                assert(v@.subrange(start as int, i as int).push(v@[i as int]) =~= v@.subrange(
                    start as int,
                    i + 1,
                ));
                assert(before.push(v@.subrange(start as int, i as int)).update(
                    before.len() as int,
                    v@.subrange(start as int, i + 1),
                ) =~= before.push(v@.subrange(start as int, i + 1)));
            }
        }
        i += 1;
    }
    let ghost before = fields.deep_view();
    let field = string_from_range(v, start, i);
    fields.push(field);
    proof {
        assert(fields.deep_view() =~= before.push(v@.subrange(start as int, i as int)));
        assert(v@.take(i as int) =~= v@);
    }
    fields
}

} // verus!
