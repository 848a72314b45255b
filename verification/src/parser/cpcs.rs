//! The community postal boxes file.

use crate::models::cpc::{Cpc, CpcId, CpcIdError, CpcView};
use crate::models::id::{id_value, is_id_text, lemma_parse_id, parse_id};
use crate::models::locality::{LocalityId, LocalityIdError};
use crate::models::uf::{lemma_parse_code, lemma_parse_named, Uf};
use crate::outcome::result_view;
use crate::parser::base::{
    checked_fields, required_text, EdneParser, FIELD_SEPARATOR, ParseError, ParseFault,
};
use crate::parser::collect::{
    collect, entries, first_records, lemma_collect_fault, lemma_first_records_all,
    lemma_first_records_next, lists_keys,
};
use crate::parser::fields::{
    failure, fits_required, id_field, lemma_id_written, or_else, required_id, required_uf,
    uf_field,
};
use crate::text::ascii::{latin1, to_upper};
use crate::text::decimal::decimal;
use crate::text::lines::logical_lines;
use crate::text::space::{is_blank, trim};
use crate::text::split::{free_of, join, lemma_count_bound, lemma_split_join, split};
use std::collections::HashMap;
use vstd::prelude::*;

verus! {

/// Number of fields in the line of a community postal box.
pub const CPC_FIELD_COUNT: usize = 6;

/// The first fault of the fields of a line, in the order in which they are
/// checked; none if they make a record.
pub open spec fn cpc_failure(f: Seq<Seq<char>>, n: usize) -> Option<ParseFault> {
    let id = failure(id_field(f[0], "CPC_NU"@, CpcIdError::kind(), n));
    let uf = failure(uf_field(f[1], n));
    let locality_id = failure(id_field(f[2], "LOC_NU"@, LocalityIdError::kind(), n));
    let name = failure(required_text(f[3], "CPC_NO"@, n));
    let address = failure(required_text(f[4], "CPC_ENDERECO"@, n));
    let cep = failure(required_text(f[5], "CEP"@, n));
    or_else(id, or_else(uf, or_else(locality_id, or_else(name, or_else(address, cep)))))
}

/// The record that faultless fields make. Texts are kept as they stand,
/// untrimmed; blank optional fields are absent.
pub open spec fn cpc_of(f: Seq<Seq<char>>) -> CpcView {
    CpcView {
        id: parse_id(f[0])->Ok_0,
        uf: Uf::parse(f[1])->Ok_0,
        locality_id: parse_id(f[2])->Ok_0,
        name: f[3],
        address: f[4],
        cep: f[5],
    }
}

/// The record in a line, or why the line holds none.
///
/// Fields, in order:
/// 1. `CPC_NU`: identifier
/// 2. `UFE_SG`: federative unit
/// 3. `LOC_NU`: identifier of the locality
/// 4. `CPC_NO`: name
/// 5. `CPC_ENDERECO`: address text
/// 6. `CEP`: postal code
pub open spec fn cpc_line(line: Seq<char>, n: usize) -> Result<CpcView, ParseFault> {
    match checked_fields(line, CPC_FIELD_COUNT, n) {
        Err(fault) => Err(fault),
        Ok(f) => match cpc_failure(f, n) {
            Some(fault) => Err(fault),
            None => Ok(cpc_of(f)),
        },
    }
}

/// `cpc_line` as a function of a numbered line.
pub open spec fn cpc_parser() -> spec_fn((usize, Seq<char>)) -> Result<CpcView, ParseFault> {
    |l: (usize, Seq<char>)| cpc_line(l.1, l.0)
}

/// The identifier of a record.
pub open spec fn cpc_key() -> spec_fn(CpcView) -> u32 {
    |record: CpcView| record.id
}

/// The fields are those of a valid line: there are as many as the record
/// kind has, every identifier field writes an identifier, the federative
/// unit and the codes name a value, and no required field is blank.
pub open spec fn cpc_fields_valid(f: Seq<Seq<char>>) -> bool {
    &&& f.len() == CPC_FIELD_COUNT
    &&& is_id_text(f[0])
    &&& Uf::names_unit(f[1])
    &&& is_id_text(f[2])
    &&& !is_blank(f[3])
    &&& !is_blank(f[4])
    &&& !is_blank(f[5])
}

/// A line parses exactly when its fields are valid, and then every field
/// of the record has the value that its text stands for: an identifier is
/// the number written, the federative unit and the enumerations have the
/// code written, a text is kept as it stands, and an optional field is
/// absent exactly when it is blank.
pub proof fn lemma_cpc_line_valid(line: Seq<char>, n: usize)
    ensures
        cpc_line(line, n) is Ok <==> cpc_fields_valid(split(line, FIELD_SEPARATOR)),
        cpc_line(line, n) matches Ok(record) ==> ({
            let f = split(line, FIELD_SEPARATOR);
            &&& record.id == id_value(f[0])
            &&& record.uf.code() == to_upper(trim(f[1]))
            &&& record.locality_id == id_value(f[2])
            &&& record.name == f[3]
            &&& record.address == f[4]
            &&& record.cep == f[5]
        }),
{
    let f = split(line, FIELD_SEPARATOR);
    lemma_parse_id(f[0]);
    lemma_parse_named(f[1]);
    lemma_parse_id(f[2]);
}

/// The fields that write a record, in the order of the line.
pub open spec fn cpc_fields(record: CpcView) -> Seq<Seq<char>> {
    seq![
        decimal(record.id as nat),
        record.uf.code(),
        decimal(record.locality_id as nat),
        record.name,
        record.address,
        record.cep,
    ]
}

/// The line that writes a record: its fields with the separator between
/// them.
pub open spec fn cpc_written(record: CpcView) -> Seq<char> {
    join(cpc_fields(record), FIELD_SEPARATOR)
}

/// The record can be written as a line: no identifier of it is zero, no
/// text of it holds a field separator, and none is blank.
pub open spec fn cpc_writable(record: CpcView) -> bool {
    &&& record.id != 0
    &&& record.locality_id != 0
    &&& fits_required(record.name)
    &&& fits_required(record.address)
    &&& fits_required(record.cep)
}

/// A record that is written as a line and read again comes back as it
/// was.
pub proof fn lemma_cpc_written_reads_back(record: CpcView, n: usize)
    requires
        cpc_writable(record),
    ensures
        cpc_line(cpc_written(record), n) == Ok::<CpcView, ParseFault>(record),
{
    let f = cpc_fields(record);
    lemma_id_written(record.id, "CPC_NU"@, CpcIdError::kind(), n);
    lemma_parse_code(record.uf);
    lemma_id_written(record.locality_id, "LOC_NU"@, LocalityIdError::kind(), n);
    assert(free_of(f, FIELD_SEPARATOR));
    lemma_split_join(f, FIELD_SEPARATOR);
    assert(cpc_of(f) == record);
}

/// A line with another number of fields than the record kind has fails
/// with the number expected, the number found and the line number,
/// whatever its fields hold.
pub proof fn lemma_cpc_line_field_count(line: Seq<char>, n: usize)
    requires
        line.len() < usize::MAX,
        split(line, FIELD_SEPARATOR).len() != CPC_FIELD_COUNT,
    ensures
        cpc_line(line, n) matches Err(ParseFault::FieldCount { expected, got, line_number })
            && expected == CPC_FIELD_COUNT && got == split(line, FIELD_SEPARATOR).len()
                && line_number
            == n,
{
    lemma_count_bound(line, FIELD_SEPARATOR);
}

/// Parses one line into a record.
pub fn parse_cpc_line(parser: &EdneParser, line: &str, line_number: usize) -> (r: Result<
    Cpc,
    ParseError,
>)
    ensures
        result_view(r) == cpc_line(line@, line_number),
{
    let fields = parser.parse_line_checked(line, CPC_FIELD_COUNT, line_number)?;
    let id = CpcId::new(
        required_id(fields[0].as_str(), "CPC_NU", "CPC", line_number)?,
    );
    let uf = required_uf(fields[1].as_str(), line_number)?;
    let locality_id = LocalityId::new(
        required_id(fields[2].as_str(), "LOC_NU", "locality", line_number)?,
    );
    let name = EdneParser::required_field(fields[3].as_str(), "CPC_NO", line_number)?;
    let address = EdneParser::required_field(fields[4].as_str(), "CPC_ENDERECO", line_number)?;
    let cep = EdneParser::required_field(fields[5].as_str(), "CEP", line_number)?;
    Ok(
        Cpc {
            id,
            uf,
            locality_id,
            name,
            address,
            cep,
        },
    )
}

/// The cpcs of a source, each under its identifier.
#[derive(Debug)]
pub struct Cpcs(HashMap<u32, Cpc>);

impl View for Cpcs {
    type V = Map<u32, CpcView>;

    closed spec fn view(&self) -> Map<u32, CpcView> {
        self.0@.map_values(|record: Cpc| record@)
    }
}

impl DeepView for Cpcs {
    type V = Map<u32, CpcView>;

    open spec fn deep_view(&self) -> Map<u32, CpcView> {
        self@
    }
}

impl Clone for Cpcs {
    fn clone(&self) -> (r: Self)
        ensures
            r@ == self@,
    {
        let mut copy = Self::with_capacity(self.len());
        copy.extend(self);
        assert(copy@ =~= self@);
        copy
    }
}

impl Cpcs {
    /// Every record stands under its own identifier.
    #[verifier::type_invariant]
    spec fn keyed_by_identifier(self) -> bool {
        forall|id: u32| #[trigger] self.0@.contains_key(id) ==> self.0@[id].id@ == id
    }

    /// What a source text holds: the records of its logical lines, or the
    /// fault of the first line that fails.
    pub open spec fn parsed(text: Seq<char>) -> Result<Map<u32, CpcView>, ParseFault> {
        collect(logical_lines(text), cpc_parser(), cpc_key())
    }

    /// Parsing depends on nothing but the input: two results for the same
    /// bytes are equal in every field of every record, or are the same
    /// fault.
    pub proof fn lemma_parse_is_deterministic(
        bytes: Seq<u8>,
        first: Result<Self, ParseError>,
        second: Result<Self, ParseError>,
    )
        requires
            result_view(first) == Self::parsed(latin1(bytes)),
            result_view(second) == Self::parsed(latin1(bytes)),
        ensures
            result_view(first) == result_view(second),
    {
    }

    /// An empty collection.
    pub fn new() -> (r: Self)
        ensures
            r@ == Map::<u32, CpcView>::empty(),
    {
        let r = Self(HashMap::new());
        assert(r@ =~= Map::<u32, CpcView>::empty());
        r
    }

    /// An empty collection with room for `capacity` records.
    pub fn with_capacity(capacity: usize) -> (r: Self)
        ensures
            r@ == Map::<u32, CpcView>::empty(),
    {
        let r = Self(HashMap::with_capacity(capacity));
        assert(r@ =~= Map::<u32, CpcView>::empty());
        r
    }

    /// Number of records.
    pub fn len(&self) -> (n: usize)
        ensures
            n == self@.len(),
    {
        assert(self@.dom() =~= self.0@.dom());
        self.0.len()
    }

    /// Tells whether the collection holds no record.
    pub fn is_empty(&self) -> (b: bool)
        ensures
            b == (self@.len() == 0),
    {
        assert(self@.dom() =~= self.0@.dom());
        self.0.len() == 0
    }

    /// The record with the given identifier, if there is one.
    pub fn get(&self, id: &CpcId) -> (r: Option<&Cpc>)
        ensures
            match r {
                Some(record) => self@.contains_key(id@) && record@ == self@[id@],
                None => !self@.contains_key(id@),
            },
    {
        let key: u32 = id.get();
        self.0.get(&key)
    }

    /// Puts a record under its identifier and hands back the record that
    /// stood there before, if any.
    pub fn insert(&mut self, cpc: Cpc) -> (r: Option<Cpc>)
        ensures
            final(self)@ == old(self)@.insert(cpc.id@, cpc@),
            r.deep_view() == if old(self)@.contains_key(cpc.id@) {
                Some(old(self)@[cpc.id@])
            } else {
                None
            },
    {
        proof {
            use_type_invariant(&*self);
        }
        let key: u32 = cpc.id.get();
        let ghost record = cpc;
        // The content is taken out while it changes and put back whole.
        let mut taken = Self::new();
        std::mem::swap(self, &mut taken);
        let mut records = taken.0;
        let r = records.insert(key, cpc);
        *self = Self(records);
        assert(self@ =~= old(self)@.insert(record.id@, record@));
        r
    }

    /// Takes over a copy of every record of `other`. A record of `other`
    /// takes the place of one with the same identifier.
    pub fn extend(&mut self, other: &Self)
        ensures
            final(self)@ == old(self)@.union_prefer_right(other@),
    {
        let records = other.iter();
        let ghost start = self@;
        let ghost keys = Seq::new(records.len() as nat, |j: int| records[j].0@);
        let mut i: usize = 0;
        proof {
            lemma_first_records_all(other@, keys);
            assert(start.union_prefer_right(Map::<u32, CpcView>::empty()) =~= start);
        }
        while i < records.len()
            invariant
                i <= records.len(),
                keys == Seq::new(records.len() as nat, |j: int| records[j].0@),
                forall|j: int|
                    0 <= j < records.len() ==> other@.contains_key((#[trigger] records[j]).0@)
                        && records[j].1@ == other@[records[j].0@] && records[j].1.id@
                        == records[j].0@,
                self@ == start.union_prefer_right(first_records(other@, keys, i as int)),
            decreases records.len() - i,
        {
            proof {
                lemma_first_records_next(start, other@, keys, i as int);
            }
            self.insert(records[i].1.clone());
            i += 1;
        }
    }

    /// Every record with its identifier, each once, in no particular
    /// order.
    pub fn iter(&self) -> (r: Vec<(CpcId, &Cpc)>)
        ensures
            r.len() == self@.len(),
            lists_keys(Seq::new(r.len() as nat, |i: int| r[i].0@), self@),
            forall|i: int|
                0 <= i < r.len() ==> self@.contains_key((#[trigger] r[i]).0@) && r[i].1@
                    == self@[r[i].0@] && r[i].1.id@ == r[i].0@,
    {
        let pairs = entries(&self.0);
        let mut r: Vec<(CpcId, &Cpc)> = Vec::new();
        let mut i: usize = 0;
        proof {
            use_type_invariant(self);
            assert(self@.dom() =~= self.0@.dom());
            let listed = Seq::new(pairs.len() as nat, |j: int| pairs[j].0);
            assert forall|j: int| 0 <= j < pairs.len() implies self.0@.contains_key(
                (#[trigger] pairs[j]).0,
            ) by {
                assert(listed[j] == pairs[j].0);
            }
        }
        while i < pairs.len()
            invariant
                i <= pairs.len(),
                r.len() == i,
                forall|j: int|
                    0 <= j < pairs.len() ==> self.0@.contains_key((#[trigger] pairs[j]).0)
                        && self.0@[pairs[j].0] == *pairs[j].1 && pairs[j].1.id@ == pairs[j].0,
                forall|j: int|
                    0 <= j < i ==> (#[trigger] r[j]).0@ == pairs[j].0 && r[j].1 == pairs[j].1,
            decreases pairs.len() - i,
        {
            r.push((pairs[i].1.id, pairs[i].1));
            i += 1;
        }
        proof {
            let keys = Seq::new(r.len() as nat, |i: int| r[i].0@);
            assert(keys =~= Seq::new(pairs.len() as nat, |i: int| pairs[i].0));
        }
        r
    }

    /// Parses a source given as bytes in the single-byte Western European
    /// encoding.
    pub fn from_iso8859_1(bytes: &[u8]) -> (r: Result<Self, ParseError>)
        ensures
            result_view(r) == Self::parsed(latin1(bytes@)),
    {
        let parser = EdneParser::from_iso8859_1(bytes)?;
        Self::parse_with_parser(&parser)
    }

    /// Parses a source given as text.
    pub fn from_utf8(content: String) -> (r: Result<Self, ParseError>)
        ensures
            result_view(r) == Self::parsed(content@),
    {
        let parser = EdneParser::from_utf8(content);
        Self::parse_with_parser(&parser)
    }

    /// Parses the logical lines of a source, in order, and stops at the
    /// first that fails.
    pub fn parse_with_parser(parser: &EdneParser) -> (r: Result<Self, ParseError>)
        ensures
            result_view(r) == Self::parsed(parser@),
    {
        let lines = parser.lines();
        let mut cpcs = Self::with_capacity(lines.len());
        let ghost all = lines.deep_view();
        let mut i: usize = 0;
        proof {
            assert(all.take(0) =~= Seq::empty());
        }
        while i < lines.len()
            invariant
                i <= lines.len(),
                all == lines.deep_view(),
                all == logical_lines(parser@),
                collect(all.take(i as int), cpc_parser(), cpc_key()) == Ok::<
                    Map<u32, CpcView>,
                    ParseFault,
                >(cpcs@),
            decreases lines.len() - i,
        {
            proof {
                assert(all.take(i + 1).drop_last() =~= all.take(i as int));
                assert(all.take(i + 1).last() == (lines[i as int].0, lines[i as int].1@));
            }
            match parse_cpc_line(parser, lines[i].1.as_str(), lines[i].0) {
                Ok(record) => {
                    cpcs.insert(record);
                },
                Err(e) => {
                    proof {
                        lemma_collect_fault(all, cpc_parser(), cpc_key(), i + 1);
                    }
                    return Err(e);
                },
            }
            i += 1;
        }
        proof {
            assert(all.take(lines.len() as int) =~= all);
        }
        Ok(cpcs)
    }
}

impl Default for Cpcs {
    fn default() -> (r: Self)
        ensures
            r@ == Map::<u32, CpcView>::empty(),
    {
        Self::new()
    }
}

} // verus!
