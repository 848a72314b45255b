//! A reader of the localities file for the reduced model: of each line it
//! keeps the identifier and the name, and looks at nothing else.

use crate::model::{Localities, Locality, LocalityId, LocalityView};
use crate::models::id::read_number;
use crate::parser::base::FIELD_SEPARATOR;
use crate::text::ascii::{decode_latin1, latin1};
use crate::text::decimal::parse_u32;
use crate::text::space::{string_from_range, to_chars, trim, trim_range};
use crate::text::split::{split, split_chars};
use vstd::prelude::*;

verus! {

/// Why reading stopped.
#[derive(Debug, Clone, Copy, PartialEq, Eq)]
pub enum Error {
    /// The line has no third field, where the name stands.
    FieldCount { line: u64, got: usize, expected: usize },
    /// The first field of the line is no unsigned 32-bit decimal number.
    ParseInt { line: u64 },
}

/// A character that ends a line.
pub open spec fn is_line_end(c: char) -> bool {
    c == '\n' || c == '\r'
}

/// `line` without the line feeds and carriage returns at its end.
pub open spec fn strip_line_ends(line: Seq<char>) -> Seq<char>
    decreases line.len(),
{
    if line.len() > 0 && is_line_end(line.last()) {
        strip_line_ends(line.drop_last())
    } else {
        line
    }
}

/// The lines of a text, in order and with the empty ones among them: the
/// pieces between line feeds, each without the carriage returns at its
/// end. What follows the last line feed counts as a line unless nothing
/// follows it.
pub open spec fn record_lines(text: Seq<char>) -> Seq<Seq<char>> {
    let pieces = split(text, '\n');
    let kept = if pieces.last().len() == 0 {
        pieces.drop_last()
    } else {
        pieces
    };
    kept.map_values(|piece: Seq<char>| strip_line_ends(piece))
}

/// The locality in a line: identifier from the first field, name from the
/// third, both trimmed. A line without a third field is reported as having
/// one field where two are expected.
pub open spec fn entry(line: Seq<char>, number: u64) -> Result<LocalityView, Error> {
    let fields = split(line, FIELD_SEPARATOR);
    if fields.len() < 3 {
        Err(Error::FieldCount { line: number, got: 1, expected: 2 })
    } else {
        match parse_u32(trim(fields[0])) {
            Some(id) => Ok(LocalityView { id, name: trim(fields[2]) }),
            None => Err(Error::ParseInt { line: number }),
        }
    }
}

/// The localities after one more line: an empty line changes nothing, any
/// other adds its locality or fails.
pub open spec fn after_line(before: Map<u32, LocalityView>, line: Seq<char>, number: u64) -> Result<
    Map<u32, LocalityView>,
    Error,
> {
    if line.len() == 0 {
        Ok(before)
    } else {
        match entry(line, number) {
            Ok(locality) => Ok(before.insert(locality.id, locality)),
            Err(error) => Err(error),
        }
    }
}

/// The localities of the first `count` lines, which are numbered from one.
/// The first line that fails ends the whole.
pub open spec fn gather(lines: Seq<Seq<char>>, count: int) -> Result<Map<u32, LocalityView>, Error>
    decreases count,
{
    if count <= 0 {
        Ok(Map::empty())
    } else {
        match gather(lines, count - 1) {
            Err(error) => Err(error),
            Ok(before) => after_line(before, lines[count - 1], count as u64),
        }
    }
}

/// What a source holds: the localities of its lines.
pub open spec fn parsed(bytes: Seq<u8>) -> Result<Map<u32, LocalityView>, Error> {
    let lines = record_lines(latin1(bytes));
    gather(lines, lines.len() as int)
}

/// A result seen through the view of the collection it holds.
pub open spec fn outcome(r: Result<Localities, Error>) -> Result<Map<u32, LocalityView>, Error> {
    match r {
        Ok(localities) => Ok(localities@),
        Err(error) => Err(error),
    }
}

/// A fault among the first `k` lines is the fault of the whole.
proof fn lemma_gather_fault(lines: Seq<Seq<char>>, k: int, n: int)
    requires
        k <= n,
        gather(lines, k) is Err,
    ensures
        gather(lines, n) == gather(lines, k),
    decreases n - k,
{
    if k < n {
        lemma_gather_fault(lines, k, n - 1);
    }
}

/// Where the part of `v` in `from..to` ends once the line feeds and
/// carriage returns at its end are dropped.
fn line_end(v: &Vec<char>, from: usize, to: usize) -> (end: usize)
    requires
        from <= to <= v.len(),
    ensures
        from <= end <= to,
        v@.subrange(from as int, end as int) == strip_line_ends(
            v@.subrange(from as int, to as int),
        ),
{
    let mut end: usize = to;
    while end > from && (v[end - 1] == '\n' || v[end - 1] == '\r')
        invariant
            from <= end <= to <= v.len(),
            strip_line_ends(v@.subrange(from as int, end as int)) == strip_line_ends(
                v@.subrange(from as int, to as int),
            ),
        decreases end,
    {
        proof {
            let s = v@.subrange(from as int, end as int);
            assert(s.last() == v@[end - 1]);
            assert(s.drop_last() =~= v@.subrange(from as int, end - 1));
        }
        end -= 1;
    }
    proof {
        let s = v@.subrange(from as int, end as int);
        if end > from {
            assert(s.last() == v@[end - 1]);
        }
    }
    end
}

/// The lines of `v`, empty ones included.
fn record_lines_of(v: &Vec<char>) -> (lines: Vec<String>)
    ensures
        lines.deep_view() == record_lines(v@),
{
    let mut lines: Vec<String> = Vec::new();
    let mut start: usize = 0;
    let mut i: usize = 0;
    let ghost strip = |piece: Seq<char>| strip_line_ends(piece);
    let ghost mut pieces: Seq<Seq<char>> = Seq::empty();
    proof {
        assert(v@.take(0) =~= Seq::<char>::empty());
        assert(pieces.push(v@.subrange(0, 0)) =~= split(v@.take(0), '\n'));
        assert(lines.deep_view() =~= pieces.map_values(strip));
    }
    while i < v.len()
        invariant
            start <= i <= v.len(),
            strip == |piece: Seq<char>| strip_line_ends(piece),
            pieces.push(v@.subrange(start as int, i as int)) == split(v@.take(i as int), '\n'),
            lines.deep_view() == pieces.map_values(strip),
        decreases v.len() - i,
    {
        proof {
            assert(v@.take(i + 1).drop_last() =~= v@.take(i as int));
        }
        if v[i] == '\n' {
            let ghost piece = v@.subrange(start as int, i as int);
            let ghost before = lines.deep_view();
            let end = line_end(v, start, i);
            lines.push(string_from_range(v, start, end));
            proof {
                assert(lines.deep_view() =~= before.push(strip_line_ends(piece)));
                assert(pieces.push(piece).map_values(strip) =~= pieces.map_values(strip).push(
                    strip(piece),
                ));
                pieces = pieces.push(piece);
                assert(v@.subrange(i + 1, i + 1) =~= Seq::<char>::empty());
            }
            start = i + 1;
        } else {
            proof {
                assert(v@.subrange(start as int, i as int).push(v@[i as int]) =~= v@.subrange(
                    start as int,
                    i + 1,
                ));
                assert(pieces.push(v@.subrange(start as int, i as int)).update(
                    pieces.len() as int,
                    v@.subrange(start as int, i + 1),
                ) =~= pieces.push(v@.subrange(start as int, i + 1)));
            }
        }
        i += 1;
    }
    let ghost rest = v@.subrange(start as int, i as int);
    proof {
        assert(v@.take(i as int) =~= v@);
        assert(split(v@, '\n').drop_last() =~= pieces);
        assert(split(v@, '\n').last() == rest);
    }
    if start < i {
        let ghost before = lines.deep_view();
        let end = line_end(v, start, i);
        lines.push(string_from_range(v, start, end));
        proof {
            assert(lines.deep_view() =~= before.push(strip_line_ends(rest)));
            assert(pieces.push(rest).map_values(strip) =~= pieces.map_values(strip).push(
                strip(rest),
            ));
            assert(pieces.push(rest) =~= split(v@, '\n'));
        }
    }
    lines
}

/// Reads the locality of a line that is not empty.
fn read_entry(line: &str, number: u64) -> (r: Result<Locality, Error>)
    ensures
        match r {
            Ok(locality) => entry(line@, number) == Ok::<LocalityView, Error>(locality@),
            Err(error) => entry(line@, number) == Err::<LocalityView, Error>(error),
        },
{
    let v = to_chars(line);
    let fields = split_chars(&v, FIELD_SEPARATOR);
    if fields.len() < 3 {
        return Err(Error::FieldCount { line: number, got: 1, expected: 2 });
    }
    let id = match read_number(fields[0].as_str()) {
        Some(id) => id,
        None => {
            return Err(Error::ParseInt { line: number });
        },
    };
    let name_chars = to_chars(fields[2].as_str());
    let bounds: (usize, usize) = trim_range(&name_chars);
    let name = string_from_range(&name_chars, bounds.0, bounds.1);
    Ok(Locality { id: LocalityId::new(id), name })
}

/// Takes one line of a source, as it was read up to and with its line
/// feed, into the localities. `number` is the number of the line, counted
/// from one.
pub fn read_line(localities: &mut Localities, raw: &[u8], number: u64) -> (r: Result<(), Error>)
    ensures
        match r {
            Ok(()) => after_line(old(localities)@, strip_line_ends(latin1(raw@)), number) == Ok::<
                Map<u32, LocalityView>,
                Error,
            >(final(localities)@),
            Err(error) => after_line(old(localities)@, strip_line_ends(latin1(raw@)), number)
                == Err::<Map<u32, LocalityView>, Error>(error) && final(localities)@ == old(
                localities,
            )@,
        },
{
    let text = decode_latin1(raw);
    let v = to_chars(text.as_str());
    let end = line_end(&v, 0, v.len());
    proof {
        assert(v@.subrange(0, v.len() as int) =~= v@);
    }
    let line = string_from_range(&v, 0, end);
    take_line(localities, line.as_str(), number)
}

/// Takes one line, already without its line end, into the localities.
fn take_line(localities: &mut Localities, line: &str, number: u64) -> (r: Result<(), Error>)
    ensures
        match r {
            Ok(()) => after_line(old(localities)@, line@, number) == Ok::<
                Map<u32, LocalityView>,
                Error,
            >(final(localities)@),
            Err(error) => after_line(old(localities)@, line@, number) == Err::<
                Map<u32, LocalityView>,
                Error,
            >(error) && final(localities)@ == old(localities)@,
        },
{
    if line.unicode_len() == 0 {
        return Ok(());
    }
    match read_entry(line, number) {
        Ok(locality) => {
            localities.insert(locality);
            Ok(())
        },
        Err(error) => Err(error),
    }
}

/// Reads the localities of a source given as bytes in the single-byte
/// Western European encoding.
pub fn parse(bytes: &[u8]) -> (r: Result<Localities, Error>)
    ensures
        outcome(r) == parsed(bytes@),
{
    parse_capacity(bytes, 0)
}

/// As [`parse`], with a hint at the number of localities to expect.
pub fn parse_capacity(bytes: &[u8], capacity_hint: usize) -> (r: Result<Localities, Error>)
    ensures
        outcome(r) == parsed(bytes@),
{
    let text = decode_latin1(bytes);
    let v = to_chars(text.as_str());
    let lines = record_lines_of(&v);
    let mut localities = if capacity_hint > 0 {
        Localities::with_capacity(capacity_hint)
    } else {
        Localities::new()
    };
    let ghost all = lines.deep_view();
    let mut done: usize = 0;
    while done < lines.len()
        invariant
            done <= lines.len(),
            all == lines.deep_view(),
            all == record_lines(latin1(bytes@)),
            gather(all, done as int) == Ok::<Map<u32, LocalityView>, Error>(localities@),
        decreases lines.len() - done,
    {
        match take_line(&mut localities, lines[done].as_str(), (done + 1) as u64) {
            Ok(()) => {},
            Err(error) => {
                proof {
                    lemma_gather_fault(all, done + 1, all.len() as int);
                }
                return Err(error);
            },
        }
        done += 1;
    }
    Ok(localities)
}

} // verus!
