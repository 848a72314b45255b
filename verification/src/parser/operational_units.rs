//! The operational units file.

use crate::models::big_user::{StreetId, StreetIdError};
use crate::models::id::{id_value, is_id_text, lemma_parse_id, parse_id};
use crate::models::locality::{LocalityId, LocalityIdError};
use crate::models::neighborhood::{NeighborhoodId, NeighborhoodIdError};
use crate::models::operational_unit::{
    OperationalUnit, OperationalUnitId, OperationalUnitIdError, OperationalUnitView,
    PostBoxIndicator, PostBoxIndicatorError,
};
use crate::models::uf::{lemma_parse_code, lemma_parse_named, Uf};
use crate::outcome::result_view;
use crate::parser::base::{
    checked_fields, optional_text, required_text, EdneParser, FIELD_SEPARATOR, ParseError,
    ParseFault,
};
use crate::parser::collect::{
    collect, entries, first_records, lemma_collect_fault, lemma_first_records_all,
    lemma_first_records_next, lists_keys,
};
use crate::parser::fields::{
    code_field, failure, fits_optional, fits_required, id_field, lemma_id_written,
    lemma_optional_id_written, lemma_optional_written, optional_id, optional_id_field,
    optional_id_fits, optional_id_written, optional_written, or_else, required_id, required_uf,
    uf_field,
};
use crate::text::ascii::{latin1, to_upper};
use crate::text::decimal::decimal;
use crate::text::lines::logical_lines;
use crate::text::space::{is_blank, trim};
use crate::text::split::{free_of, join, lemma_count_bound, lemma_split_join, split};
use std::collections::HashMap;
use vstd::prelude::*;

verus! {

/// Number of fields in the line of an operational unit.
pub const OPERATIONAL_UNIT_FIELD_COUNT: usize = 10;

/// The first fault of the fields of a line, in the order in which they are
/// checked; none if they make a record.
pub open spec fn operational_unit_failure(f: Seq<Seq<char>>, n: usize) -> Option<ParseFault> {
    let id = failure(id_field(f[0], "UOP_NU"@, OperationalUnitIdError::kind(), n));
    let uf = failure(uf_field(f[1], n));
    let locality_id = failure(id_field(f[2], "LOC_NU"@, LocalityIdError::kind(), n));
    let neighborhood_id = failure(id_field(f[3], "BAI_NU"@, NeighborhoodIdError::kind(), n));
    let street_id = failure(optional_id_field(f[4], "LOG_NU"@, StreetIdError::kind(), n));
    let name = failure(required_text(f[5], "UOP_NO"@, n));
    let address = failure(required_text(f[6], "UOP_ENDERECO"@, n));
    let cep = failure(required_text(f[7], "CEP"@, n));
    let post_box_indicator = failure(
        code_field(
            f[8],
            "UOP_IN_CP"@,
            PostBoxIndicatorError::what(),
            PostBoxIndicator::parse(f[8]),
            n,
        ),
    );
    or_else(id, or_else(uf, or_else(locality_id, or_else(neighborhood_id, or_else(street_id,
        or_else(name, or_else(address, or_else(cep, post_box_indicator))))))))
}

/// The record that faultless fields make. Texts are kept as they stand,
/// untrimmed; blank optional fields are absent.
pub open spec fn operational_unit_of(f: Seq<Seq<char>>) -> OperationalUnitView {
    OperationalUnitView {
        id: parse_id(f[0])->Ok_0,
        uf: Uf::parse(f[1])->Ok_0,
        locality_id: parse_id(f[2])->Ok_0,
        neighborhood_id: parse_id(f[3])->Ok_0,
        street_id: if is_blank(f[4]) {
            None
        } else {
            Some(parse_id(f[4])->Ok_0)
        },
        name: f[5],
        address: f[6],
        cep: f[7],
        post_box_indicator: PostBoxIndicator::parse(f[8])->Ok_0,
        abbreviated_name: optional_text(f[9]),
    }
}

/// The record in a line, or why the line holds none.
///
/// Fields, in order:
/// 1. `UOP_NU`: identifier
/// 2. `UFE_SG`: federative unit
/// 3. `LOC_NU`: identifier of the locality
/// 4. `BAI_NU`: identifier of the neighborhood
/// 5. `LOG_NU`: identifier of the street, optional
/// 6. `UOP_NO`: name
/// 7. `UOP_ENDERECO`: address text
/// 8. `CEP`: postal code
/// 9. `UOP_IN_CP`: whether the unit has post boxes
/// 10. `UOP_NO_ABREV`: abbreviated name, optional
pub open spec fn operational_unit_line(line: Seq<char>, n: usize) -> Result<
    OperationalUnitView,
    ParseFault,
> {
    match checked_fields(line, OPERATIONAL_UNIT_FIELD_COUNT, n) {
        Err(fault) => Err(fault),
        Ok(f) => match operational_unit_failure(f, n) {
            Some(fault) => Err(fault),
            None => Ok(operational_unit_of(f)),
        },
    }
}

/// `operational_unit_line` as a function of a numbered line.
pub open spec fn operational_unit_parser() -> spec_fn((usize, Seq<char>)) -> Result<
    OperationalUnitView,
    ParseFault,
> {
    |l: (usize, Seq<char>)| operational_unit_line(l.1, l.0)
}

/// The identifier of a record.
pub open spec fn operational_unit_key() -> spec_fn(OperationalUnitView) -> u32 {
    |record: OperationalUnitView| record.id
}

/// The fields are those of a valid line: there are as many as the record
/// kind has, every identifier field writes an identifier, the federative
/// unit and the codes name a value, and no required field is blank.
pub open spec fn operational_unit_fields_valid(f: Seq<Seq<char>>) -> bool {
    &&& f.len() == OPERATIONAL_UNIT_FIELD_COUNT
    &&& is_id_text(f[0])
    &&& Uf::names_unit(f[1])
    &&& is_id_text(f[2])
    &&& is_id_text(f[3])
    &&& (is_blank(f[4]) || is_id_text(f[4]))
    &&& !is_blank(f[5])
    &&& !is_blank(f[6])
    &&& !is_blank(f[7])
    &&& PostBoxIndicator::names_value(f[8])
}

/// A line parses exactly when its fields are valid, and then every field
/// of the record has the value that its text stands for: an identifier is
/// the number written, the federative unit and the enumerations have the
/// code written, a text is kept as it stands, and an optional field is
/// absent exactly when it is blank.
pub proof fn lemma_operational_unit_line_valid(line: Seq<char>, n: usize)
    ensures
        operational_unit_line(line, n) is Ok <==> operational_unit_fields_valid(
            split(line, FIELD_SEPARATOR),
        ),
        operational_unit_line(line, n) matches Ok(record) ==> ({
            let f = split(line, FIELD_SEPARATOR);
            &&& record.id == id_value(f[0])
            &&& record.uf.code() == to_upper(trim(f[1]))
            &&& record.locality_id == id_value(f[2])
            &&& record.neighborhood_id == id_value(f[3])
            &&& record.street_id matches Some(id) ==> id == id_value(f[4])
            &&& record.street_id is None <==> is_blank(f[4])
            &&& record.name == f[5]
            &&& record.address == f[6]
            &&& record.cep == f[7]
            &&& record.post_box_indicator.code() == to_upper(trim(f[8]))
            &&& record.abbreviated_name matches Some(text) ==> text == f[9]
            &&& record.abbreviated_name is None <==> is_blank(f[9])
        }),
{
    let f = split(line, FIELD_SEPARATOR);
    lemma_parse_id(f[0]);
    lemma_parse_named(f[1]);
    lemma_parse_id(f[2]);
    lemma_parse_id(f[3]);
    lemma_parse_id(f[4]);
    PostBoxIndicator::lemma_parse_named(f[8]);
}

/// The fields that write a record, in the order of the line.
pub open spec fn operational_unit_fields(record: OperationalUnitView) -> Seq<Seq<char>> {
    seq![
        decimal(record.id as nat),
        record.uf.code(),
        decimal(record.locality_id as nat),
        decimal(record.neighborhood_id as nat),
        optional_id_written(record.street_id),
        record.name,
        record.address,
        record.cep,
        record.post_box_indicator.code(),
        optional_written(record.abbreviated_name),
    ]
}

/// The line that writes a record: its fields with the separator between
/// them.
pub open spec fn operational_unit_written(record: OperationalUnitView) -> Seq<char> {
    join(operational_unit_fields(record), FIELD_SEPARATOR)
}

/// The record can be written as a line: no identifier of it is zero, no
/// text of it holds a field separator, and none is blank.
pub open spec fn operational_unit_writable(record: OperationalUnitView) -> bool {
    &&& record.id != 0
    &&& record.locality_id != 0
    &&& record.neighborhood_id != 0
    &&& optional_id_fits(record.street_id)
    &&& fits_required(record.name)
    &&& fits_required(record.address)
    &&& fits_required(record.cep)
    &&& fits_optional(record.abbreviated_name)
}

/// A record that is written as a line and read again comes back as it
/// was.
pub proof fn lemma_operational_unit_written_reads_back(record: OperationalUnitView, n: usize)
    requires
        operational_unit_writable(record),
    ensures
        operational_unit_line(operational_unit_written(record), n) == Ok::<
            OperationalUnitView,
            ParseFault,
        >(record),
{
    let f = operational_unit_fields(record);
    lemma_id_written(record.id, "UOP_NU"@, OperationalUnitIdError::kind(), n);
    lemma_parse_code(record.uf);
    lemma_id_written(record.locality_id, "LOC_NU"@, LocalityIdError::kind(), n);
    lemma_id_written(record.neighborhood_id, "BAI_NU"@, NeighborhoodIdError::kind(), n);
    lemma_optional_id_written(record.street_id, "LOG_NU"@, StreetIdError::kind(), n);
    record.post_box_indicator.lemma_code_reads_back();
    lemma_optional_written(record.abbreviated_name);
    assert(free_of(f, FIELD_SEPARATOR));
    lemma_split_join(f, FIELD_SEPARATOR);
    assert(operational_unit_of(f) == record);
}

/// A line with another number of fields than the record kind has fails
/// with the number expected, the number found and the line number,
/// whatever its fields hold.
pub proof fn lemma_operational_unit_line_field_count(line: Seq<char>, n: usize)
    requires
        line.len() < usize::MAX,
        split(line, FIELD_SEPARATOR).len() != OPERATIONAL_UNIT_FIELD_COUNT,
    ensures
        operational_unit_line(line, n) matches Err(
            ParseFault::FieldCount { expected, got, line_number },
        )
            && expected == OPERATIONAL_UNIT_FIELD_COUNT && got == split(line, FIELD_SEPARATOR).len()
                && line_number
            == n,
{
    lemma_count_bound(line, FIELD_SEPARATOR);
}

/// Reads the field `UOP_IN_CP`.
fn post_box_field(field: &str, line_number: usize) -> (r: Result<PostBoxIndicator, ParseError>)
    ensures
        result_view(r) == code_field(
            field@,
            "UOP_IN_CP"@,
            PostBoxIndicatorError::what(),
            PostBoxIndicator::parse(field@),
            line_number,
        ),
{
    let text = EdneParser::required_field(field, "UOP_IN_CP", line_number)?;
    match PostBoxIndicator::from_str(field) {
        Ok(value) => Ok(value),
        Err(e) => Err(
            ParseError::InvalidValue {
                field_name: "UOP_IN_CP",
                value: text,
                reason: e.to_string(),
                line_number,
            },
        ),
    }
}

/// Parses one line into a record.
pub fn parse_operational_unit_line(parser: &EdneParser, line: &str, line_number: usize) -> (r:
    Result<OperationalUnit, ParseError>)
    ensures
        result_view(r) == operational_unit_line(line@, line_number),
{
    let fields = parser.parse_line_checked(line, OPERATIONAL_UNIT_FIELD_COUNT, line_number)?;
    let id = OperationalUnitId::new(
        required_id(fields[0].as_str(), "UOP_NU", "operational unit", line_number)?,
    );
    let uf = required_uf(fields[1].as_str(), line_number)?;
    let locality_id = LocalityId::new(
        required_id(fields[2].as_str(), "LOC_NU", "locality", line_number)?,
    );
    let neighborhood_id = NeighborhoodId::new(
        required_id(fields[3].as_str(), "BAI_NU", "neighborhood", line_number)?,
    );
    let street_id = match optional_id(fields[4].as_str(), "LOG_NU", "street", line_number)? {
        Some(id) => Some(StreetId::new(id)),
        None => None,
    };
    let name = EdneParser::required_field(fields[5].as_str(), "UOP_NO", line_number)?;
    let address = EdneParser::required_field(fields[6].as_str(), "UOP_ENDERECO", line_number)?;
    let cep = EdneParser::required_field(fields[7].as_str(), "CEP", line_number)?;
    let post_box_indicator = post_box_field(fields[8].as_str(), line_number)?;
    let abbreviated_name = EdneParser::optional_field(fields[9].as_str());
    Ok(
        OperationalUnit {
            id,
            uf,
            locality_id,
            neighborhood_id,
            street_id,
            name,
            address,
            cep,
            post_box_indicator,
            abbreviated_name,
        },
    )
}

/// The operational_units of a source, each under its identifier.
#[derive(Debug)]
pub struct OperationalUnits(HashMap<u32, OperationalUnit>);

impl View for OperationalUnits {
    type V = Map<u32, OperationalUnitView>;

    closed spec fn view(&self) -> Map<u32, OperationalUnitView> {
        self.0@.map_values(|record: OperationalUnit| record@)
    }
}

impl DeepView for OperationalUnits {
    type V = Map<u32, OperationalUnitView>;

    open spec fn deep_view(&self) -> Map<u32, OperationalUnitView> {
        self@
    }
}

impl Clone for OperationalUnits {
    fn clone(&self) -> (r: Self)
        ensures
            r@ == self@,
    {
        let mut copy = Self::with_capacity(self.len());
        copy.extend(self);
        assert(copy@ =~= self@);
        copy
    }
}

impl OperationalUnits {
    /// Every record stands under its own identifier.
    #[verifier::type_invariant]
    spec fn keyed_by_identifier(self) -> bool {
        forall|id: u32| #[trigger] self.0@.contains_key(id) ==> self.0@[id].id@ == id
    }

    /// What a source text holds: the records of its logical lines, or the
    /// fault of the first line that fails.
    pub open spec fn parsed(text: Seq<char>) -> Result<Map<u32, OperationalUnitView>, ParseFault> {
        collect(logical_lines(text), operational_unit_parser(), operational_unit_key())
    }

    /// Parsing depends on nothing but the input: two results for the same
    /// bytes are equal in every field of every record, or are the same
    /// fault.
    pub proof fn lemma_parse_is_deterministic(
        bytes: Seq<u8>,
        first: Result<Self, ParseError>,
        second: Result<Self, ParseError>,
    )
        requires
            result_view(first) == Self::parsed(latin1(bytes)),
            result_view(second) == Self::parsed(latin1(bytes)),
        ensures
            result_view(first) == result_view(second),
    {
    }

    /// An empty collection.
    pub fn new() -> (r: Self)
        ensures
            r@ == Map::<u32, OperationalUnitView>::empty(),
    {
        let r = Self(HashMap::new());
        assert(r@ =~= Map::<u32, OperationalUnitView>::empty());
        r
    }

    /// An empty collection with room for `capacity` records.
    pub fn with_capacity(capacity: usize) -> (r: Self)
        ensures
            r@ == Map::<u32, OperationalUnitView>::empty(),
    {
        let r = Self(HashMap::with_capacity(capacity));
        assert(r@ =~= Map::<u32, OperationalUnitView>::empty());
        r
    }

    /// Number of records.
    pub fn len(&self) -> (n: usize)
        ensures
            n == self@.len(),
    {
        assert(self@.dom() =~= self.0@.dom());
        self.0.len()
    }

    /// Tells whether the collection holds no record.
    pub fn is_empty(&self) -> (b: bool)
        ensures
            b == (self@.len() == 0),
    {
        assert(self@.dom() =~= self.0@.dom());
        self.0.len() == 0
    }

    /// The record with the given identifier, if there is one.
    pub fn get(&self, id: &OperationalUnitId) -> (r: Option<&OperationalUnit>)
        ensures
            match r {
                Some(record) => self@.contains_key(id@) && record@ == self@[id@],
                None => !self@.contains_key(id@),
            },
    {
        let key: u32 = id.get();
        self.0.get(&key)
    }

    /// Puts a record under its identifier and hands back the record that
    /// stood there before, if any.
    pub fn insert(&mut self, operational_unit: OperationalUnit) -> (r: Option<OperationalUnit>)
        ensures
            final(self)@ == old(self)@.insert(operational_unit.id@, operational_unit@),
            r.deep_view() == if old(self)@.contains_key(operational_unit.id@) {
                Some(old(self)@[operational_unit.id@])
            } else {
                None
            },
    {
        proof {
            use_type_invariant(&*self);
        }
        let key: u32 = operational_unit.id.get();
        let ghost record = operational_unit;
        // The content is taken out while it changes and put back whole.
        let mut taken = Self::new();
        std::mem::swap(self, &mut taken);
        let mut records = taken.0;
        let r = records.insert(key, operational_unit);
        *self = Self(records);
        assert(self@ =~= old(self)@.insert(record.id@, record@));
        r
    }

    /// Takes over a copy of every record of `other`. A record of `other`
    /// takes the place of one with the same identifier.
    pub fn extend(&mut self, other: &Self)
        ensures
            final(self)@ == old(self)@.union_prefer_right(other@),
    {
        let records = other.iter();
        let ghost start = self@;
        let ghost keys = Seq::new(records.len() as nat, |j: int| records[j].0@);
        let mut i: usize = 0;
        proof {
            lemma_first_records_all(other@, keys);
            assert(start.union_prefer_right(Map::<u32, OperationalUnitView>::empty()) =~= start);
        }
        while i < records.len()
            invariant
                i <= records.len(),
                keys == Seq::new(records.len() as nat, |j: int| records[j].0@),
                forall|j: int|
                    0 <= j < records.len() ==> other@.contains_key((#[trigger] records[j]).0@)
                        && records[j].1@ == other@[records[j].0@] && records[j].1.id@
                        == records[j].0@,
                self@ == start.union_prefer_right(first_records(other@, keys, i as int)),
            decreases records.len() - i,
        {
            proof {
                lemma_first_records_next(start, other@, keys, i as int);
            }
            self.insert(records[i].1.clone());
            i += 1;
        }
    }

    /// Every record with its identifier, each once, in no particular
    /// order.
    pub fn iter(&self) -> (r: Vec<(OperationalUnitId, &OperationalUnit)>)
        ensures
            r.len() == self@.len(),
            lists_keys(Seq::new(r.len() as nat, |i: int| r[i].0@), self@),
            forall|i: int|
                0 <= i < r.len() ==> self@.contains_key((#[trigger] r[i]).0@) && r[i].1@
                    == self@[r[i].0@] && r[i].1.id@ == r[i].0@,
    {
        let pairs = entries(&self.0);
        let mut r: Vec<(OperationalUnitId, &OperationalUnit)> = Vec::new();
        let mut i: usize = 0;
        proof {
            use_type_invariant(self);
            assert(self@.dom() =~= self.0@.dom());
            let listed = Seq::new(pairs.len() as nat, |j: int| pairs[j].0);
            assert forall|j: int| 0 <= j < pairs.len() implies self.0@.contains_key(
                (#[trigger] pairs[j]).0,
            ) by {
                assert(listed[j] == pairs[j].0);
            }
        }
        while i < pairs.len()
            invariant
                i <= pairs.len(),
                r.len() == i,
                forall|j: int|
                    0 <= j < pairs.len() ==> self.0@.contains_key((#[trigger] pairs[j]).0)
                        && self.0@[pairs[j].0] == *pairs[j].1 && pairs[j].1.id@ == pairs[j].0,
                forall|j: int|
                    0 <= j < i ==> (#[trigger] r[j]).0@ == pairs[j].0 && r[j].1 == pairs[j].1,
            decreases pairs.len() - i,
        {
            r.push((pairs[i].1.id, pairs[i].1));
            i += 1;
        }
        proof {
            let keys = Seq::new(r.len() as nat, |i: int| r[i].0@);
            assert(keys =~= Seq::new(pairs.len() as nat, |i: int| pairs[i].0));
        }
        r
    }

    /// Parses a source given as bytes in the single-byte Western European
    /// encoding.
    pub fn from_iso8859_1(bytes: &[u8]) -> (r: Result<Self, ParseError>)
        ensures
            result_view(r) == Self::parsed(latin1(bytes@)),
    {
        let parser = EdneParser::from_iso8859_1(bytes)?;
        Self::parse_with_parser(&parser)
    }

    /// Parses a source given as text.
    pub fn from_utf8(content: String) -> (r: Result<Self, ParseError>)
        ensures
            result_view(r) == Self::parsed(content@),
    {
        let parser = EdneParser::from_utf8(content);
        Self::parse_with_parser(&parser)
    }

    /// Parses the logical lines of a source, in order, and stops at the
    /// first that fails.
    pub fn parse_with_parser(parser: &EdneParser) -> (r: Result<Self, ParseError>)
        ensures
            result_view(r) == Self::parsed(parser@),
    {
        let lines = parser.lines();
        let mut operational_units = Self::with_capacity(lines.len());
        let ghost all = lines.deep_view();
        let mut i: usize = 0;
        proof {
            assert(all.take(0) =~= Seq::empty());
        }
        while i < lines.len()
            invariant
                i <= lines.len(),
                all == lines.deep_view(),
                all == logical_lines(parser@),
                collect(all.take(i as int), operational_unit_parser(), operational_unit_key())
                    == Ok::<Map<u32, OperationalUnitView>, ParseFault>(operational_units@),
            decreases lines.len() - i,
        {
            proof {
                assert(all.take(i + 1).drop_last() =~= all.take(i as int));
                assert(all.take(i + 1).last() == (lines[i as int].0, lines[i as int].1@));
            }
            match parse_operational_unit_line(parser, lines[i].1.as_str(), lines[i].0) {
                Ok(record) => {
                    operational_units.insert(record);
                },
                Err(e) => {
                    proof {
                        lemma_collect_fault(
                            all,
                            operational_unit_parser(),
                            operational_unit_key(),
                            i + 1,
                        );
                    }
                    return Err(e);
                },
            }
            i += 1;
        }
        proof {
            assert(all.take(lines.len() as int) =~= all);
        }
        Ok(operational_units)
    }
}

impl Default for OperationalUnits {
    fn default() -> (r: Self)
        ensures
            r@ == Map::<u32, OperationalUnitView>::empty(),
    {
        Self::new()
    }
}

} // verus!
