//! Gathering the records of a source into a map keyed by identifier.

use crate::parser::base::ParseFault;
use crate::text::lines::{lemma_logical_lines, lines, logical_lines};
use crate::text::space::is_blank;
use std::collections::HashMap;
use vstd::prelude::*;
use vstd::std_specs::iter::IteratorSpec;

verus! {

/// The records of the given lines, each under its identifier.
///
/// The lines are parsed in order. The first line that fails ends the whole
/// with its fault; a record with the identifier of an earlier one takes its
/// place.
pub open spec fn collect<R>(
    lines: Seq<(usize, Seq<char>)>,
    parse: spec_fn((usize, Seq<char>)) -> Result<R, ParseFault>,
    key: spec_fn(R) -> u32,
) -> Result<Map<u32, R>, ParseFault>
    decreases lines.len(),
{
    if lines.len() == 0 {
        Ok(Map::empty())
    } else {
        match collect(lines.drop_last(), parse, key) {
            Err(fault) => Err(fault),
            Ok(records) => match parse(lines.last()) {
                Err(fault) => Err(fault),
                Ok(record) => Ok(records.insert(key(record), record)),
            },
        }
    }
}

/// A fault among the first `k` lines is the fault of the whole.
pub proof fn lemma_collect_fault<R>(
    lines: Seq<(usize, Seq<char>)>,
    parse: spec_fn((usize, Seq<char>)) -> Result<R, ParseFault>,
    key: spec_fn(R) -> u32,
    k: int,
)
    requires
        0 <= k <= lines.len(),
        collect(lines.take(k), parse, key) is Err,
    ensures
        collect(lines, parse, key) == collect(lines.take(k), parse, key),
    decreases lines.len() - k,
{
    if k == lines.len() {
        assert(lines.take(k) =~= lines);
    } else {
        assert(lines.drop_last().take(k) =~= lines.take(k));
        lemma_collect_fault(lines.drop_last(), parse, key, k);
    }
}

/// Where `collect` fails, its fault is that of the first line that does
/// not parse.
pub proof fn lemma_collect_first_fault<R>(
    lines: Seq<(usize, Seq<char>)>,
    parse: spec_fn((usize, Seq<char>)) -> Result<R, ParseFault>,
    key: spec_fn(R) -> u32,
)
    requires
        collect(lines, parse, key) is Err,
    ensures
        exists|k: int|
            0 <= k < lines.len() && #[trigger] parse(lines[k]) == Err::<R, ParseFault>(
                collect(lines, parse, key)->Err_0,
            ) && forall|j: int| 0 <= j < k ==> (#[trigger] parse(lines[j])) is Ok,
    decreases lines.len(),
{
    let init = lines.drop_last();
    if collect(init, parse, key) is Err {
        lemma_collect_first_fault(init, parse, key);
        let k = choose|k: int|
            0 <= k < init.len() && #[trigger] parse(init[k]) == Err::<R, ParseFault>(
                collect(init, parse, key)->Err_0,
            ) && forall|j: int| 0 <= j < k ==> (#[trigger] parse(init[j])) is Ok;
        assert(init[k] == lines[k]);
        assert forall|j: int| 0 <= j < k implies (#[trigger] parse(lines[j])) is Ok by {
            assert(init[j] == lines[j]);
        }
    } else {
        lemma_collect_records(init, parse, key);
        let k = lines.len() - 1;
        assert(parse(lines[k]) is Err);
        assert forall|j: int| 0 <= j < k implies (#[trigger] parse(lines[j])) is Ok by {
            assert(init[j] == lines[j]);
        }
    }
}

/// Where a source fails, the fault is that of one of its lines that are
/// not blank, parsed under the number that the line has in the source.
pub proof fn lemma_fault_names_its_line<R>(
    text: Seq<char>,
    parse: spec_fn((usize, Seq<char>)) -> Result<R, ParseFault>,
    key: spec_fn(R) -> u32,
)
    requires
        text.len() <= usize::MAX,
        collect(logical_lines(text), parse, key) is Err,
    ensures
        exists|number: usize|
            1 <= number <= lines(text).len() && !is_blank(lines(text)[number - 1])
                && #[trigger] parse((number, lines(text)[number - 1])) == Err::<R, ParseFault>(
                collect(logical_lines(text), parse, key)->Err_0,
            ),
{
    let logical = logical_lines(text);
    lemma_collect_first_fault(logical, parse, key);
    lemma_logical_lines(text);
    let k = choose|k: int|
        0 <= k < logical.len() && #[trigger] parse(logical[k]) == Err::<R, ParseFault>(
            collect(logical, parse, key)->Err_0,
        ) && forall|j: int| 0 <= j < k ==> (#[trigger] parse(logical[j])) is Ok;
    let line = logical[k];
    assert(1 <= line.0 <= lines(text).len() && line.1 == lines(text)[line.0 - 1]);
    assert(line == (line.0, lines(text)[line.0 - 1]));
}

/// What `collect` gives when it succeeds: every line parses, every record
/// is found under its identifier, and under each identifier stands the
/// record of the last line that has it.
pub proof fn lemma_collect_records<R>(
    lines: Seq<(usize, Seq<char>)>,
    parse: spec_fn((usize, Seq<char>)) -> Result<R, ParseFault>,
    key: spec_fn(R) -> u32,
)
    requires
        collect(lines, parse, key) is Ok,
    ensures
        forall|i: int| 0 <= i < lines.len() ==> (#[trigger] parse(lines[i])) is Ok,
        forall|id: u32|
            (#[trigger] collect(lines, parse, key)->Ok_0.contains_key(id)) <==> exists|i: int|
                0 <= i < lines.len() && key(#[trigger] parse(lines[i])->Ok_0) == id,
        forall|i: int|
            0 <= i < lines.len() && (forall|j: int|
                i < j < lines.len() ==> key(#[trigger] parse(lines[j])->Ok_0) != key(
                    parse(lines[i])->Ok_0,
                )) ==> collect(lines, parse, key)->Ok_0[key(#[trigger] parse(lines[i])->Ok_0)]
                == parse(lines[i])->Ok_0,
    decreases lines.len(),
{
    if lines.len() > 0 {
        let init = lines.drop_last();
        lemma_collect_records(init, parse, key);
        let before = collect(init, parse, key)->Ok_0;
        let after = collect(lines, parse, key)->Ok_0;
        let last = parse(lines.last())->Ok_0;
        assert(after == before.insert(key(last), last));
        assert forall|i: int| 0 <= i < lines.len() implies (#[trigger] parse(lines[i])) is Ok by {
            if i < init.len() {
                assert(init[i] == lines[i]);
            }
        }
        assert forall|id: u32| (#[trigger] after.contains_key(id)) <==> exists|i: int|
            0 <= i < lines.len() && key(#[trigger] parse(lines[i])->Ok_0) == id by {
            if after.contains_key(id) {
                if id == key(last) {
                    assert(key(parse(lines[lines.len() - 1])->Ok_0) == id);
                } else {
                    assert(before.contains_key(id));
                    let i = choose|i: int|
                        0 <= i < init.len() && key(#[trigger] parse(init[i])->Ok_0) == id;
                    assert(init[i] == lines[i]);
                    assert(key(parse(lines[i])->Ok_0) == id);
                }
            }
            if exists|i: int| 0 <= i < lines.len() && key(#[trigger] parse(lines[i])->Ok_0) == id {
                let i = choose|i: int|
                    0 <= i < lines.len() && key(#[trigger] parse(lines[i])->Ok_0) == id;
                if i < init.len() {
                    assert(init[i] == lines[i]);
                    assert(key(parse(init[i])->Ok_0) == id);
                    assert(before.contains_key(id));
                }
            }
        }
        assert forall|i: int|
            0 <= i < lines.len() && (forall|j: int|
                i < j < lines.len() ==> key(#[trigger] parse(lines[j])->Ok_0) != key(
                    parse(lines[i])->Ok_0,
                )) implies after[key(#[trigger] parse(lines[i])->Ok_0)] == parse(
            lines[i],
        )->Ok_0 by {
            if i < init.len() {
                assert(init[i] == lines[i]);
                assert forall|j: int| i < j < init.len() implies key(
                    #[trigger] parse(init[j])->Ok_0,
                ) != key(parse(init[i])->Ok_0) by {
                    assert(init[j] == lines[j]);
                    assert(key(parse(lines[j])->Ok_0) != key(parse(lines[i])->Ok_0));
                }
                assert(key(parse(lines[lines.len() - 1])->Ok_0) != key(parse(lines[i])->Ok_0));
            }
        }
    }
}

/// `keys` lists the identifiers of `map`, each once.
pub open spec fn lists_keys<R>(keys: Seq<u32>, map: Map<u32, R>) -> bool {
    &&& keys.no_duplicates()
    &&& forall|i: int| 0 <= i < keys.len() ==> map.contains_key(#[trigger] keys[i])
    &&& forall|id: u32| map.contains_key(id) ==> keys.contains(id)
}

/// The records of `map` under the first `count` of the listed identifiers.
pub open spec fn first_records<R>(map: Map<u32, R>, keys: Seq<u32>, count: int) -> Map<u32, R> {
    map.restrict(Set::new(|id: u32| exists|j: int| 0 <= j < count && keys[j] == id))
}

/// Laying one more listed record over a map lays the next longer part of
/// the list over it.
pub proof fn lemma_first_records_next<R>(
    start: Map<u32, R>,
    map: Map<u32, R>,
    keys: Seq<u32>,
    count: int,
)
    requires
        0 <= count < keys.len(),
        map.contains_key(keys[count]),
    ensures
        start.union_prefer_right(first_records(map, keys, count)).insert(
            keys[count],
            map[keys[count]],
        ) == start.union_prefer_right(first_records(map, keys, count + 1)),
{
    let seen = Set::new(|id: u32| exists|j: int| 0 <= j < count && keys[j] == id);
    let next = Set::new(|id: u32| exists|j: int| 0 <= j < count + 1 && keys[j] == id);
    assert forall|id: u32| next.contains(id) <==> seen.insert(keys[count]).contains(id) by {
        if next.contains(id) {
            let j = choose|j: int| 0 <= j < count + 1 && keys[j] == id;
            if j < count {
                assert(seen.contains(id));
            }
        }
        if seen.contains(id) {
            let j = choose|j: int| 0 <= j < count && keys[j] == id;
            assert(0 <= j < count + 1 && keys[j] == id);
        }
        if id == keys[count] {
            assert(0 <= count < count + 1 && keys[count] == id);
        }
    }
    assert(next =~= seen.insert(keys[count]));
    assert(start.union_prefer_right(first_records(map, keys, count)).insert(
        keys[count],
        map[keys[count]],
    ) =~= start.union_prefer_right(first_records(map, keys, count + 1)));
}

/// The records under all listed identifiers are the whole map, and those
/// under none of them are no records.
pub proof fn lemma_first_records_all<R>(map: Map<u32, R>, keys: Seq<u32>)
    requires
        lists_keys(keys, map),
    ensures
        first_records(map, keys, keys.len() as int) == map,
        first_records(map, keys, 0) == Map::<u32, R>::empty(),
{
    let all = Set::new(|id: u32| exists|j: int| 0 <= j < keys.len() && keys[j] == id);
    assert forall|id: u32| map.contains_key(id) implies all.contains(id) by {
        assert(keys.contains(id));
        let j = choose|j: int| 0 <= j < keys.len() && keys[j] == id;
        assert(0 <= j < keys.len() && keys[j] == id);
    }
    assert(first_records(map, keys, keys.len() as int) =~= map);
    assert(first_records(map, keys, 0) =~= Map::<u32, R>::empty());
}

/// The entries of a hash map, each once, in the order in which the map
/// hands them out.
pub fn entries<R>(map: &HashMap<u32, R>) -> (r: Vec<(u32, &R)>)
    ensures
        r.len() == map@.len(),
        lists_keys(Seq::new(r.len() as nat, |i: int| r[i].0), map@),
        forall|i: int| 0 <= i < r.len() ==> map@[(#[trigger] r[i]).0] == *r[i].1,
{
    let mut r: Vec<(u32, &R)> = Vec::new();
    let iter = map.iter();
    let ghost items = iter.remaining();
    for pair in it: iter
        invariant
            it.seq() == items,
            items == map.iter().remaining(),
            r.len() == it.index(),
            forall|i: int|
                0 <= i < r.len() ==> (#[trigger] r[i]).0 == *items[i].0 && r[i].1 == items[i].1,
    {
        r.push((*pair.0, pair.1));
    }
    proof {
        let keys = Seq::new(r.len() as nat, |i: int| r[i].0);
        assert forall|i: int| 0 <= i < r.len() implies map@.contains_key((#[trigger] r[i]).0)
            && map@[r[i].0] == *r[i].1 by {
            assert(map@.contains_key(*items[i].0) && map@[*items[i].0] == *items[i].1);
        }
        assert forall|i: int, j: int| 0 <= i < keys.len() && 0 <= j < keys.len() && i
            != j implies keys[i] != keys[j] by {
            assert(map@.contains_key(*items[i].0) && map@[*items[i].0] == *items[i].1);
            assert(map@.contains_key(*items[j].0) && map@[*items[j].0] == *items[j].1);
            if keys[i] == keys[j] {
                assert(items[i] == items[j]);
            }
        }
        assert forall|i: int| 0 <= i < keys.len() implies map@.contains_key(
            #[trigger] keys[i],
        ) by {
            assert(map@.contains_key(r[i].0));
        }
        assert forall|id: u32| map@.contains_key(id) implies keys.contains(id) by {
            let p = (&id, &map@[id]);
            assert(items.contains(p));
            let i = choose|i: int| 0 <= i < items.len() && items[i] == p;
            assert(keys[i] == id);
        }
    }
    r
}

} // verus!
