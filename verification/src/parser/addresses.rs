//! The street files, one per federative unit.

use crate::models::address::{
    Address, AddressId, AddressIdError, AddressView, StreetTypeIndicator,
    StreetTypeIndicatorError,
};
use crate::models::id::{id_value, is_id_text, lemma_parse_id, parse_id};
use crate::models::locality::{LocalityId, LocalityIdError};
use crate::models::neighborhood::{NeighborhoodId, NeighborhoodIdError};
use crate::models::uf::{lemma_parse_code, lemma_parse_named, Uf};
use crate::outcome::result_view;
use crate::parser::base::{
    checked_fields, optional_text, required_text, EdneParser, FIELD_SEPARATOR, ParseError,
    ParseFault,
};
use crate::parser::collect::{
    collect, entries, first_records, lemma_collect_fault, lemma_first_records_all,
    lemma_first_records_next, lists_keys,
};
use crate::parser::fields::{
    failure, fits_optional, fits_required, id_field, lemma_id_written,
    lemma_optional_id_written, lemma_optional_written, optional_code_field, optional_id,
    optional_id_field, optional_id_fits, optional_id_written, optional_written, or_else,
    required_id, required_uf, uf_field,
};
use crate::text::ascii::{latin1, to_upper};
use crate::text::decimal::decimal;
use crate::text::lines::logical_lines;
use crate::text::space::{is_blank, trim};
use crate::text::split::{free_of, join, lemma_count_bound, lemma_split_join, split};
use std::collections::HashMap;
use vstd::prelude::*;

verus! {

/// Number of fields in the line of an address.
pub const ADDRESS_FIELD_COUNT: usize = 11;

/// The first fault of the fields of a line, in the order in which they are
/// checked; none if they make a record.
pub open spec fn address_failure(f: Seq<Seq<char>>, n: usize) -> Option<ParseFault> {
    let id = failure(id_field(f[0], "LOG_NU"@, AddressIdError::kind(), n));
    let uf = failure(uf_field(f[1], n));
    let locality_id = failure(id_field(f[2], "LOC_NU"@, LocalityIdError::kind(), n));
    let neighborhood_id_start = failure(
        id_field(f[3], "BAI_NU_INI"@, NeighborhoodIdError::kind(), n),
    );
    let neighborhood_id_end = failure(
        optional_id_field(f[4], "BAI_NU_FIM"@, NeighborhoodIdError::kind(), n),
    );
    let name = failure(required_text(f[5], "LOG_NO"@, n));
    let cep = failure(required_text(f[7], "CEP"@, n));
    let street_type = failure(required_text(f[8], "TLO_TX"@, n));
    let street_type_indicator = failure(
        optional_code_field(
            f[9],
            "LOG_STA_TLO"@,
            StreetTypeIndicatorError::what(),
            StreetTypeIndicator::parse(f[9]),
            n,
        ),
    );
    or_else(id, or_else(uf, or_else(locality_id, or_else(neighborhood_id_start,
        or_else(neighborhood_id_end, or_else(name, or_else(cep, or_else(street_type,
        street_type_indicator))))))))
}

/// The record that faultless fields make. Texts are kept as they stand,
/// untrimmed; blank optional fields are absent.
pub open spec fn address_of(f: Seq<Seq<char>>) -> AddressView {
    AddressView {
        id: parse_id(f[0])->Ok_0,
        uf: Uf::parse(f[1])->Ok_0,
        locality_id: parse_id(f[2])->Ok_0,
        neighborhood_id_start: parse_id(f[3])->Ok_0,
        neighborhood_id_end: if is_blank(f[4]) {
            None
        } else {
            Some(parse_id(f[4])->Ok_0)
        },
        name: f[5],
        complement: optional_text(f[6]),
        cep: f[7],
        street_type: f[8],
        street_type_indicator: if is_blank(f[9]) {
            None
        } else {
            Some(StreetTypeIndicator::parse(f[9])->Ok_0)
        },
        abbreviated_name: optional_text(f[10]),
    }
}

/// The record in a line, or why the line holds none.
///
/// Fields, in order:
/// 1. `LOG_NU`: identifier
/// 2. `UFE_SG`: federative unit
/// 3. `LOC_NU`: identifier of the locality
/// 4. `BAI_NU_INI`: identifier of the neighborhood where the street starts
/// 5. `BAI_NU_FIM`: identifier of the neighborhood where it ends, optional
/// 6. `LOG_NO`: name
/// 7. `LOG_COMPLEMENTO`: complement, optional
/// 8. `CEP`: postal code
/// 9. `TLO_TX`: street type
/// 10. `LOG_STA_TLO`: whether the street type is displayed, optional
/// 11. `LOG_NO_ABREV`: abbreviated name, optional
pub open spec fn address_line(line: Seq<char>, n: usize) -> Result<AddressView, ParseFault> {
    match checked_fields(line, ADDRESS_FIELD_COUNT, n) {
        Err(fault) => Err(fault),
        Ok(f) => match address_failure(f, n) {
            Some(fault) => Err(fault),
            None => Ok(address_of(f)),
        },
    }
}

/// `address_line` as a function of a numbered line.
pub open spec fn address_parser() -> spec_fn((usize, Seq<char>)) -> Result<
    AddressView,
    ParseFault,
> {
    |l: (usize, Seq<char>)| address_line(l.1, l.0)
}

/// The identifier of a record.
pub open spec fn address_key() -> spec_fn(AddressView) -> u32 {
    |record: AddressView| record.id
}

/// The fields are those of a valid line: there are as many as the record
/// kind has, every identifier field writes an identifier, the federative
/// unit and the codes name a value, and no required field is blank.
pub open spec fn address_fields_valid(f: Seq<Seq<char>>) -> bool {
    &&& f.len() == ADDRESS_FIELD_COUNT
    &&& is_id_text(f[0])
    &&& Uf::names_unit(f[1])
    &&& is_id_text(f[2])
    &&& is_id_text(f[3])
    &&& (is_blank(f[4]) || is_id_text(f[4]))
    &&& !is_blank(f[5])
    &&& !is_blank(f[7])
    &&& !is_blank(f[8])
    &&& (is_blank(f[9]) || StreetTypeIndicator::names_value(f[9]))
}

/// A line parses exactly when its fields are valid, and then every field
/// of the record has the value that its text stands for: an identifier is
/// the number written, the federative unit and the enumerations have the
/// code written, a text is kept as it stands, and an optional field is
/// absent exactly when it is blank.
pub proof fn lemma_address_line_valid(line: Seq<char>, n: usize)
    ensures
        address_line(line, n) is Ok <==> address_fields_valid(split(line, FIELD_SEPARATOR)),
        address_line(line, n) matches Ok(record) ==> ({
            let f = split(line, FIELD_SEPARATOR);
            &&& record.id == id_value(f[0])
            &&& record.uf.code() == to_upper(trim(f[1]))
            &&& record.locality_id == id_value(f[2])
            &&& record.neighborhood_id_start == id_value(f[3])
            &&& record.neighborhood_id_end matches Some(id) ==> id == id_value(f[4])
            &&& record.neighborhood_id_end is None <==> is_blank(f[4])
            &&& record.name == f[5]
            &&& record.complement matches Some(text) ==> text == f[6]
            &&& record.complement is None <==> is_blank(f[6])
            &&& record.cep == f[7]
            &&& record.street_type == f[8]
            &&& record.street_type_indicator matches Some(value) ==> value.code() == to_upper(
                trim(f[9]),
            )
            &&& record.street_type_indicator is None <==> is_blank(f[9])
            &&& record.abbreviated_name matches Some(text) ==> text == f[10]
            &&& record.abbreviated_name is None <==> is_blank(f[10])
        }),
{
    let f = split(line, FIELD_SEPARATOR);
    lemma_parse_id(f[0]);
    lemma_parse_named(f[1]);
    lemma_parse_id(f[2]);
    lemma_parse_id(f[3]);
    lemma_parse_id(f[4]);
    StreetTypeIndicator::lemma_parse_named(f[9]);
}

/// The fields that write a record, in the order of the line.
pub open spec fn address_fields(record: AddressView) -> Seq<Seq<char>> {
    seq![
        decimal(record.id as nat),
        record.uf.code(),
        decimal(record.locality_id as nat),
        decimal(record.neighborhood_id_start as nat),
        optional_id_written(record.neighborhood_id_end),
        record.name,
        optional_written(record.complement),
        record.cep,
        record.street_type,
        StreetTypeIndicator::optional_code(record.street_type_indicator),
        optional_written(record.abbreviated_name),
    ]
}

/// The line that writes a record: its fields with the separator between
/// them.
pub open spec fn address_written(record: AddressView) -> Seq<char> {
    join(address_fields(record), FIELD_SEPARATOR)
}

/// The record can be written as a line: no identifier of it is zero, no
/// text of it holds a field separator, and none is blank.
pub open spec fn address_writable(record: AddressView) -> bool {
    &&& record.id != 0
    &&& record.locality_id != 0
    &&& record.neighborhood_id_start != 0
    &&& optional_id_fits(record.neighborhood_id_end)
    &&& fits_required(record.name)
    &&& fits_optional(record.complement)
    &&& fits_required(record.cep)
    &&& fits_required(record.street_type)
    &&& fits_optional(record.abbreviated_name)
}

/// A record that is written as a line and read again comes back as it
/// was.
pub proof fn lemma_address_written_reads_back(record: AddressView, n: usize)
    requires
        address_writable(record),
    ensures
        address_line(address_written(record), n) == Ok::<AddressView, ParseFault>(record),
{
    let f = address_fields(record);
    lemma_id_written(record.id, "LOG_NU"@, AddressIdError::kind(), n);
    lemma_parse_code(record.uf);
    lemma_id_written(record.locality_id, "LOC_NU"@, LocalityIdError::kind(), n);
    lemma_id_written(record.neighborhood_id_start, "BAI_NU_INI"@, NeighborhoodIdError::kind(), n);
    lemma_optional_id_written(
        record.neighborhood_id_end,
        "BAI_NU_FIM"@,
        NeighborhoodIdError::kind(),
        n,
    );
    lemma_optional_written(record.complement);
    StreetTypeIndicator::lemma_optional_code_reads_back(record.street_type_indicator);
    lemma_optional_written(record.abbreviated_name);
    assert(free_of(f, FIELD_SEPARATOR));
    lemma_split_join(f, FIELD_SEPARATOR);
    assert(address_of(f) == record);
}

/// A line with another number of fields than the record kind has fails
/// with the number expected, the number found and the line number,
/// whatever its fields hold.
pub proof fn lemma_address_line_field_count(line: Seq<char>, n: usize)
    requires
        line.len() < usize::MAX,
        split(line, FIELD_SEPARATOR).len() != ADDRESS_FIELD_COUNT,
    ensures
        address_line(line, n) matches Err(ParseFault::FieldCount { expected, got, line_number })
            && expected == ADDRESS_FIELD_COUNT && got == split(line, FIELD_SEPARATOR).len()
                && line_number
            == n,
{
    lemma_count_bound(line, FIELD_SEPARATOR);
}

/// Reads the field `LOG_STA_TLO`, which may be blank.
fn street_type_indicator_field(field: &str, line_number: usize) -> (r: Result<
    Option<StreetTypeIndicator>,
    ParseError,
>)
    ensures
        result_view(r) == optional_code_field(
            field@,
            "LOG_STA_TLO"@,
            StreetTypeIndicatorError::what(),
            StreetTypeIndicator::parse(field@),
            line_number,
        ),
{
    match EdneParser::optional_field(field) {
        None => Ok(None),
        Some(text) => match StreetTypeIndicator::from_str(field) {
            Ok(value) => Ok(Some(value)),
            Err(e) => Err(
                ParseError::InvalidValue {
                    field_name: "LOG_STA_TLO",
                    value: text,
                    reason: e.to_string(),
                    line_number,
                },
            ),
        },
    }
}

/// Parses one line into a record.
pub fn parse_address_line(parser: &EdneParser, line: &str, line_number: usize) -> (r: Result<
    Address,
    ParseError,
>)
    ensures
        result_view(r) == address_line(line@, line_number),
{
    let fields = parser.parse_line_checked(line, ADDRESS_FIELD_COUNT, line_number)?;
    let id = AddressId::new(
        required_id(fields[0].as_str(), "LOG_NU", "address", line_number)?,
    );
    let uf = required_uf(fields[1].as_str(), line_number)?;
    let locality_id = LocalityId::new(
        required_id(fields[2].as_str(), "LOC_NU", "locality", line_number)?,
    );
    let neighborhood_id_start = NeighborhoodId::new(
        required_id(fields[3].as_str(), "BAI_NU_INI", "neighborhood", line_number)?,
    );
    let neighborhood_id_end = match optional_id(
        fields[4].as_str(),
        "BAI_NU_FIM",
        "neighborhood",
        line_number,
    )? {
        Some(id) => Some(NeighborhoodId::new(id)),
        None => None,
    };
    let name = EdneParser::required_field(fields[5].as_str(), "LOG_NO", line_number)?;
    let cep = EdneParser::required_field(fields[7].as_str(), "CEP", line_number)?;
    let street_type = EdneParser::required_field(fields[8].as_str(), "TLO_TX", line_number)?;
    let street_type_indicator = street_type_indicator_field(fields[9].as_str(), line_number)?;
    let complement = EdneParser::optional_field(fields[6].as_str());
    let abbreviated_name = EdneParser::optional_field(fields[10].as_str());
    Ok(
        Address {
            id,
            uf,
            locality_id,
            neighborhood_id_start,
            neighborhood_id_end,
            name,
            complement,
            cep,
            street_type,
            street_type_indicator,
            abbreviated_name,
        },
    )
}

/// The addresses of a source, each under its identifier.
#[derive(Debug)]
pub struct Addresses(HashMap<u32, Address>);

impl View for Addresses {
    type V = Map<u32, AddressView>;

    closed spec fn view(&self) -> Map<u32, AddressView> {
        self.0@.map_values(|record: Address| record@)
    }
}

impl DeepView for Addresses {
    type V = Map<u32, AddressView>;

    open spec fn deep_view(&self) -> Map<u32, AddressView> {
        self@
    }
}

impl Clone for Addresses {
    fn clone(&self) -> (r: Self)
        ensures
            r@ == self@,
    {
        let mut copy = Self::with_capacity(self.len());
        copy.extend(self);
        assert(copy@ =~= self@);
        copy
    }
}

impl Addresses {
    /// Every record stands under its own identifier.
    #[verifier::type_invariant]
    spec fn keyed_by_identifier(self) -> bool {
        forall|id: u32| #[trigger] self.0@.contains_key(id) ==> self.0@[id].id@ == id
    }

    /// What a source text holds: the records of its logical lines, or the
    /// fault of the first line that fails.
    pub open spec fn parsed(text: Seq<char>) -> Result<Map<u32, AddressView>, ParseFault> {
        collect(logical_lines(text), address_parser(), address_key())
    }

    /// Parsing depends on nothing but the input: two results for the same
    /// bytes are equal in every field of every record, or are the same
    /// fault.
    pub proof fn lemma_parse_is_deterministic(
        bytes: Seq<u8>,
        first: Result<Self, ParseError>,
        second: Result<Self, ParseError>,
    )
        requires
            result_view(first) == Self::parsed(latin1(bytes)),
            result_view(second) == Self::parsed(latin1(bytes)),
        ensures
            result_view(first) == result_view(second),
    {
    }

    /// An empty collection.
    pub fn new() -> (r: Self)
        ensures
            r@ == Map::<u32, AddressView>::empty(),
    {
        let r = Self(HashMap::new());
        assert(r@ =~= Map::<u32, AddressView>::empty());
        r
    }

    /// An empty collection with room for `capacity` records.
    pub fn with_capacity(capacity: usize) -> (r: Self)
        ensures
            r@ == Map::<u32, AddressView>::empty(),
    {
        let r = Self(HashMap::with_capacity(capacity));
        assert(r@ =~= Map::<u32, AddressView>::empty());
        r
    }

    /// Number of records.
    pub fn len(&self) -> (n: usize)
        ensures
            n == self@.len(),
    {
        assert(self@.dom() =~= self.0@.dom());
        self.0.len()
    }

    /// Tells whether the collection holds no record.
    pub fn is_empty(&self) -> (b: bool)
        ensures
            b == (self@.len() == 0),
    {
        assert(self@.dom() =~= self.0@.dom());
        self.0.len() == 0
    }

    /// The record with the given identifier, if there is one.
    pub fn get(&self, id: &AddressId) -> (r: Option<&Address>)
        ensures
            match r {
                Some(record) => self@.contains_key(id@) && record@ == self@[id@],
                None => !self@.contains_key(id@),
            },
    {
        let key: u32 = id.get();
        self.0.get(&key)
    }

    /// Puts a record under its identifier and hands back the record that
    /// stood there before, if any.
    pub fn insert(&mut self, address: Address) -> (r: Option<Address>)
        ensures
            final(self)@ == old(self)@.insert(address.id@, address@),
            r.deep_view() == if old(self)@.contains_key(address.id@) {
                Some(old(self)@[address.id@])
            } else {
                None
            },
    {
        proof {
            use_type_invariant(&*self);
        }
        let key: u32 = address.id.get();
        let ghost record = address;
        // The content is taken out while it changes and put back whole.
        let mut taken = Self::new();
        std::mem::swap(self, &mut taken);
        let mut records = taken.0;
        let r = records.insert(key, address);
        *self = Self(records);
        assert(self@ =~= old(self)@.insert(record.id@, record@));
        r
    }

    /// Takes over a copy of every record of `other`. A record of `other`
    /// takes the place of one with the same identifier.
    pub fn extend(&mut self, other: &Self)
        ensures
            final(self)@ == old(self)@.union_prefer_right(other@),
    {
        let records = other.iter();
        let ghost start = self@;
        let ghost keys = Seq::new(records.len() as nat, |j: int| records[j].0@);
        let mut i: usize = 0;
        proof {
            lemma_first_records_all(other@, keys);
            assert(start.union_prefer_right(Map::<u32, AddressView>::empty()) =~= start);
        }
        while i < records.len()
            invariant
                i <= records.len(),
                keys == Seq::new(records.len() as nat, |j: int| records[j].0@),
                forall|j: int|
                    0 <= j < records.len() ==> other@.contains_key((#[trigger] records[j]).0@)
                        && records[j].1@ == other@[records[j].0@] && records[j].1.id@
                        == records[j].0@,
                self@ == start.union_prefer_right(first_records(other@, keys, i as int)),
            decreases records.len() - i,
        {
            proof {
                lemma_first_records_next(start, other@, keys, i as int);
            }
            self.insert(records[i].1.clone());
            i += 1;
        }
    }

    /// Every record with its identifier, each once, in no particular
    /// order.
    pub fn iter(&self) -> (r: Vec<(AddressId, &Address)>)
        ensures
            r.len() == self@.len(),
            lists_keys(Seq::new(r.len() as nat, |i: int| r[i].0@), self@),
            forall|i: int|
                0 <= i < r.len() ==> self@.contains_key((#[trigger] r[i]).0@) && r[i].1@
                    == self@[r[i].0@] && r[i].1.id@ == r[i].0@,
    {
        let pairs = entries(&self.0);
        let mut r: Vec<(AddressId, &Address)> = Vec::new();
        let mut i: usize = 0;
        proof {
            use_type_invariant(self);
            assert(self@.dom() =~= self.0@.dom());
            let listed = Seq::new(pairs.len() as nat, |j: int| pairs[j].0);
            assert forall|j: int| 0 <= j < pairs.len() implies self.0@.contains_key(
                (#[trigger] pairs[j]).0,
            ) by {
                assert(listed[j] == pairs[j].0);
            }
        }
        while i < pairs.len()
            invariant
                i <= pairs.len(),
                r.len() == i,
                forall|j: int|
                    0 <= j < pairs.len() ==> self.0@.contains_key((#[trigger] pairs[j]).0)
                        && self.0@[pairs[j].0] == *pairs[j].1 && pairs[j].1.id@ == pairs[j].0,
                forall|j: int|
                    0 <= j < i ==> (#[trigger] r[j]).0@ == pairs[j].0 && r[j].1 == pairs[j].1,
            decreases pairs.len() - i,
        {
            r.push((pairs[i].1.id, pairs[i].1));
            i += 1;
        }
        proof {
            let keys = Seq::new(r.len() as nat, |i: int| r[i].0@);
            assert(keys =~= Seq::new(pairs.len() as nat, |i: int| pairs[i].0));
        }
        r
    }

    /// Parses a source given as bytes in the single-byte Western European
    /// encoding.
    pub fn from_iso8859_1(bytes: &[u8]) -> (r: Result<Self, ParseError>)
        ensures
            result_view(r) == Self::parsed(latin1(bytes@)),
    {
        let parser = EdneParser::from_iso8859_1(bytes)?;
        Self::parse_with_parser(&parser)
    }

    /// Parses a source given as text.
    pub fn from_utf8(content: String) -> (r: Result<Self, ParseError>)
        ensures
            result_view(r) == Self::parsed(content@),
    {
        let parser = EdneParser::from_utf8(content);
        Self::parse_with_parser(&parser)
    }

    /// Parses the logical lines of a source, in order, and stops at the
    /// first that fails.
    pub fn parse_with_parser(parser: &EdneParser) -> (r: Result<Self, ParseError>)
        ensures
            result_view(r) == Self::parsed(parser@),
    {
        let lines = parser.lines();
        let mut addresses = Self::with_capacity(lines.len());
        let ghost all = lines.deep_view();
        let mut i: usize = 0;
        proof {
            assert(all.take(0) =~= Seq::empty());
        }
        while i < lines.len()
            invariant
                i <= lines.len(),
                all == lines.deep_view(),
                all == logical_lines(parser@),
                collect(all.take(i as int), address_parser(), address_key()) == Ok::<
                    Map<u32, AddressView>,
                    ParseFault,
                >(addresses@),
            decreases lines.len() - i,
        {
            proof {
                assert(all.take(i + 1).drop_last() =~= all.take(i as int));
                assert(all.take(i + 1).last() == (lines[i as int].0, lines[i as int].1@));
            }
            match parse_address_line(parser, lines[i].1.as_str(), lines[i].0) {
                Ok(record) => {
                    addresses.insert(record);
                },
                Err(e) => {
                    proof {
                        lemma_collect_fault(all, address_parser(), address_key(), i + 1);
                    }
                    return Err(e);
                },
            }
            i += 1;
        }
        proof {
            assert(all.take(lines.len() as int) =~= all);
        }
        Ok(addresses)
    }
}

impl Default for Addresses {
    fn default() -> (r: Self)
        ensures
            r@ == Map::<u32, AddressView>::empty(),
    {
        Self::new()
    }
}

} // verus!
