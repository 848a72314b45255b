//! Breaking a text into lines, and picking the lines that carry a record.

use crate::text::space::{is_blank, is_whitespace, is_whitespace_char, string_from_range};
use crate::text::split::{count, lemma_count_bound, lemma_split_fields, split};
use vstd::prelude::*;

verus! {

/// `line` without one carriage return at its end.
pub open spec fn strip_cr(line: Seq<char>) -> Seq<char> {
    if line.len() > 0 && line.last() == '\r' {
        line.drop_last()
    } else {
        line
    }
}

/// The pieces that a line feed ended, each without its carriage return.
pub open spec fn ended_lines(pieces: Seq<Seq<char>>) -> Seq<Seq<char>> {
    pieces.map_values(|p: Seq<char>| strip_cr(p))
}

/// The lines of a text.
///
/// A line ends at a line feed, or at a carriage return directly followed by
/// one; neither belongs to the line. What follows the last line feed is a
/// line of its own unless it is empty, and keeps a carriage return at its
/// end.
pub open spec fn lines(s: Seq<char>) -> Seq<Seq<char>> {
    let pieces = split(s, '\n');
    let ended = ended_lines(pieces.drop_last());
    if pieces.last().len() == 0 {
        ended
    } else {
        ended.push(pieces.last())
    }
}

/// Each line with its number, counted from one.
pub open spec fn numbered(lines: Seq<Seq<char>>) -> Seq<(usize, Seq<char>)> {
    Seq::new(lines.len(), |i: int| ((i + 1) as usize, lines[i]))
}

/// A numbered line carries a record unless it is blank.
pub open spec fn carries_record(line: (usize, Seq<char>)) -> bool {
    !is_blank(line.1)
}

/// The numbered lines that are not blank.
pub open spec fn without_blank(lines: Seq<(usize, Seq<char>)>) -> Seq<(usize, Seq<char>)> {
    lines.filter(|l: (usize, Seq<char>)| carries_record(l))
}

/// The lines of `s` that are not blank, each with the number it has among
/// all lines of `s`, blank ones included.
pub open spec fn logical_lines(s: Seq<char>) -> Seq<(usize, Seq<char>)> {
    without_blank(numbered(lines(s)))
}

/// What `without_blank` keeps of numbered lines: exactly the lines that
/// are not blank, each under its own number, in rising order.
pub proof fn lemma_numbered_lines(all: Seq<Seq<char>>)
    requires
        all.len() <= usize::MAX,
    ensures
        forall|i: int|
            0 <= i < without_blank(numbered(all)).len() ==> {
                let l = #[trigger] without_blank(numbered(all))[i];
                &&& 1 <= l.0 <= all.len()
                &&& l.1 == all[l.0 - 1]
                &&& !is_blank(l.1)
            },
        forall|i: int, j: int|
            0 <= i < j < without_blank(numbered(all)).len() ==> (#[trigger] without_blank(
                numbered(all),
            )[i]).0 < (#[trigger] without_blank(numbered(all))[j]).0,
        forall|k: int|
            0 <= k < all.len() && !is_blank(#[trigger] all[k]) ==> without_blank(
                numbered(all),
            ).contains(((k + 1) as usize, all[k])),
    decreases all.len(),
{
    let out = without_blank(numbered(all));
    if all.len() == 0 {
        reveal(Seq::filter);
        assert(numbered(all) =~= Seq::empty());
    } else {
        let init = all.drop_last();
        let prev = without_blank(numbered(init));
        let added = (all.len() as usize, all.last());
        lemma_numbered_lines(init);
        assert(init.push(all.last()) =~= all);
        lemma_numbered_push(init, all.last());
        lemma_without_blank_push(numbered(init), added);
        assert forall|i: int| 0 <= i < out.len() implies {
            let l = #[trigger] out[i];
            &&& 1 <= l.0 <= all.len()
            &&& l.1 == all[l.0 - 1]
            &&& !is_blank(l.1)
        } by {
            if i < prev.len() {
                assert(out[i] == prev[i]);
                assert(init[prev[i].0 - 1] == all[prev[i].0 - 1]);
            }
        }
        assert forall|i: int, j: int| 0 <= i < j < out.len() implies (#[trigger] out[i]).0 < (
        #[trigger] out[j]).0 by {
            assert(out[i] == prev[i]);
            if j < prev.len() {
                assert(out[j] == prev[j]);
            }
        }
        assert forall|k: int|
            0 <= k < all.len() && !is_blank(#[trigger] all[k]) implies out.contains(
            ((k + 1) as usize, all[k]),
        ) by {
            if k < init.len() {
                assert(init[k] == all[k]);
                let j = choose|j: int|
                    0 <= j < prev.len() && prev[j] == ((k + 1) as usize, init[k]);
                assert(out[j] == prev[j]);
            } else {
                assert(out[out.len() - 1] == added);
            }
        }
    }
}

/// The logical lines of a text are exactly its lines that are not blank,
/// each under the number it has among all lines, in rising order.
pub proof fn lemma_logical_lines(s: Seq<char>)
    requires
        s.len() <= usize::MAX,
    ensures
        forall|i: int|
            0 <= i < logical_lines(s).len() ==> {
                let l = #[trigger] logical_lines(s)[i];
                &&& 1 <= l.0 <= lines(s).len()
                &&& l.1 == lines(s)[l.0 - 1]
                &&& !is_blank(l.1)
            },
        forall|i: int, j: int|
            0 <= i < j < logical_lines(s).len() ==> (#[trigger] logical_lines(s)[i]).0 < (
            #[trigger] logical_lines(s)[j]).0,
        forall|k: int|
            0 <= k < lines(s).len() && !is_blank(#[trigger] lines(s)[k]) ==> logical_lines(
                s,
            ).contains(((k + 1) as usize, lines(s)[k])),
{
    lemma_line_count(s);
    lemma_numbered_lines(lines(s));
}

/// A text has no more lines than characters.
pub proof fn lemma_line_count(s: Seq<char>)
    ensures
        lines(s).len() <= s.len(),
{
    lemma_split_fields(s, '\n');
    lemma_count_bound(s, '\n');
    let pieces = split(s, '\n');
    if pieces.last().len() > 0 {
        lemma_last_field(s, '\n');
    }
}

/// The separators and the last field fit into the text together.
proof fn lemma_last_field(s: Seq<char>, sep: char)
    ensures
        count(s, sep) + split(s, sep).last().len() <= s.len(),
    decreases s.len(),
{
    lemma_split_fields(s, sep);
    if s.len() > 0 {
        lemma_split_fields(s.drop_last(), sep);
        lemma_last_field(s.drop_last(), sep);
    }
}

/// Numbering one more line gives it the next number.
proof fn lemma_numbered_push(lines: Seq<Seq<char>>, line: Seq<char>)
    ensures
        numbered(lines.push(line)) == numbered(lines).push(((lines.len() + 1) as usize, line)),
{
    assert(numbered(lines.push(line)) =~= numbered(lines).push(
        ((lines.len() + 1) as usize, line),
    ));
}

/// One more numbered line is kept unless it is blank.
proof fn lemma_without_blank_push(lines: Seq<(usize, Seq<char>)>, line: (usize, Seq<char>))
    ensures
        without_blank(lines.push(line)) == if is_blank(line.1) {
            without_blank(lines)
        } else {
            without_blank(lines).push(line)
        },
{
    lines.lemma_filter_push(line, |l: (usize, Seq<char>)| carries_record(l));
}

/// Tells whether the characters of `v` in `from..to` are all whitespace.
fn is_blank_range(v: &Vec<char>, from: usize, to: usize) -> (b: bool)
    requires
        from <= to <= v.len(),
    ensures
        b == is_blank(v@.subrange(from as int, to as int)),
{
    let mut i: usize = from;
    while i < to
        invariant
            from <= i <= to <= v.len(),
            is_blank(v@.subrange(from as int, i as int)),
        decreases to - i,
    {
        if !is_whitespace_char(v[i]) {
            proof {
                assert(v@.subrange(from as int, to as int)[i - from] == v@[i as int]);
            }
            return false;
        }
        proof {
            assert forall|j: int| 0 <= j < v@.subrange(from as int, i + 1).len() implies
                is_whitespace(#[trigger] v@.subrange(from as int, i + 1)[j]) by {
                if j < i - from {
                    assert(v@.subrange(from as int, i + 1)[j] == v@.subrange(
                        from as int,
                        i as int,
                    )[j]);
                }
            }
        }
        i += 1;
    }
    true
}

/// The lines of `v` that are not blank, each with its line number.
pub fn logical_lines_of(v: &Vec<char>) -> (out: Vec<(usize, String)>)
    ensures
        out.deep_view() == logical_lines(v@),
{
    let mut out: Vec<(usize, String)> = Vec::new();
    let mut start: usize = 0;
    let mut done: usize = 0;
    let mut i: usize = 0;
    let ghost mut pieces: Seq<Seq<char>> = Seq::empty();
    proof {
        assert(v@.take(0) =~= Seq::<char>::empty());
        assert(pieces.push(v@.subrange(0, 0)) =~= split(v@.take(0), '\n'));
        assert(numbered(ended_lines(pieces)) =~= Seq::empty());
        reveal(Seq::filter);
        assert(out.deep_view() =~= without_blank(numbered(ended_lines(pieces))));
    }
    while i < v.len()
        invariant
            done <= start <= i <= v.len(),
            done == pieces.len(),
            pieces.push(v@.subrange(start as int, i as int)) == split(v@.take(i as int), '\n'),
            out.deep_view() == without_blank(numbered(ended_lines(pieces))),
        decreases v.len() - i,
    {
        proof {
            assert(v@.take(i + 1).drop_last() =~= v@.take(i as int));
        }
        if v[i] == '\n' {
            let end: usize = if start < i && v[i - 1] == '\r' {
                i - 1
            } else {
                i
            };
            let ghost piece = v@.subrange(start as int, i as int);
            let ghost line = v@.subrange(start as int, end as int);
            proof {
                if start < i {
                    assert(piece.last() == v@[i - 1]);
                }
                assert(line =~= strip_cr(piece));
                pieces.lemma_push_map_commute(|p: Seq<char>| strip_cr(p), piece);
                lemma_numbered_push(ended_lines(pieces), line);
                lemma_without_blank_push(
                    numbered(ended_lines(pieces)),
                    ((done + 1) as usize, line),
                );
            }
            if !is_blank_range(v, start, end) {
                let ghost before = out.deep_view();
                let text = string_from_range(v, start, end);
                out.push((done + 1, text));
                proof {
                    assert(out.deep_view() =~= before.push(((done + 1) as usize, line)));
                }
            }
            proof {
                pieces = pieces.push(piece);
                assert(v@.subrange(i + 1, i + 1) =~= Seq::<char>::empty());
            }
            done = done + 1;
            start = i + 1;
        } else {
            proof {
                assert(v@.subrange(start as int, i as int).push(v@[i as int]) =~= v@.subrange(
                    start as int,
                    i + 1,
                ));
                assert(pieces.push(v@.subrange(start as int, i as int)).update(
                    pieces.len() as int,
                    v@.subrange(start as int, i + 1),
                ) =~= pieces.push(v@.subrange(start as int, i + 1)));
            }
        }
        i += 1;
    }
    let ghost rest = v@.subrange(start as int, i as int);
    proof {
        assert(v@.take(i as int) =~= v@);
        assert(split(v@, '\n').drop_last() =~= pieces);
        assert(split(v@, '\n').last() == rest);
    }
    if start < i {
        proof {
            lemma_numbered_push(ended_lines(pieces), rest);
            lemma_without_blank_push(numbered(ended_lines(pieces)), ((done + 1) as usize, rest));
        }
        if !is_blank_range(v, start, i) {
            let ghost before = out.deep_view();
            let text = string_from_range(v, start, i);
            out.push((done + 1, text));
            proof {
                assert(out.deep_view() =~= before.push(((done + 1) as usize, rest)));
            }
        }
    }
    out
}

} // verus!
