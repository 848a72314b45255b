//! Addresses: the streets of the localities coded at street level.

use crate::models::code::{code_message, code_message_string};
use crate::models::code::clone_text;
use crate::models::id::{
    fault_message, format_message, parse_id, read_number, zero_message, IdFault,
};
use crate::models::locality::LocalityId;
use crate::models::neighborhood::NeighborhoodId;
use crate::models::uf::Uf;
use crate::outcome::result_view;
use crate::text::ascii::{to_upper, upper, upper_char, upper_range};
use crate::text::decimal::{decimal, decimal_string};
use crate::text::space::{
    is_blank, is_whitespace, lemma_blank_iff_trim_empty, lemma_trim_end_is_prefix,
    lemma_trim_start_is_suffix, to_chars, trim, trim_range,
};
use std::cmp::Ordering;
use vstd::prelude::*;
use vstd::std_specs::cmp::PartialOrdSpecImpl;

verus! {

/// Identifier of an address: a positive 32-bit number.
#[derive(Debug, Copy, Clone, PartialEq, Eq, Structural, Hash, Ord)]
pub struct AddressId(u32);

impl PartialOrd for AddressId {
    fn partial_cmp(&self, other: &Self) -> (r: Option<Ordering>) {
        if self.0 < other.0 {
            Some(Ordering::Less)
        } else if self.0 == other.0 {
            Some(Ordering::Equal)
        } else {
            Some(Ordering::Greater)
        }
    }
}

impl PartialOrdSpecImpl for AddressId {
    open spec fn obeys_partial_cmp_spec() -> bool {
        true
    }

    /// Identifiers are ordered by their numbers.
    open spec fn partial_cmp_spec(&self, other: &Self) -> Option<Ordering> {
        if self@ < other@ {
            Some(Ordering::Less)
        } else if self@ == other@ {
            Some(Ordering::Equal)
        } else {
            Some(Ordering::Greater)
        }
    }
}

impl View for AddressId {
    type V = u32;

    closed spec fn view(&self) -> u32 {
        self.0
    }
}

impl DeepView for AddressId {
    type V = u32;

    open spec fn deep_view(&self) -> u32 {
        self@
    }
}

impl AddressId {
    /// The number is not zero.
    #[verifier::type_invariant]
    spec fn positive(self) -> bool {
        self.0 != 0
    }

    /// Two identifiers are equal exactly when their numbers are.
    pub proof fn lemma_equal_by_number(self, other: Self)
        ensures
            self == other <==> self@ == other@,
    {
    }

    /// The identifier with the given number, which must not be zero.
    pub fn new(id: u32) -> (r: Self)
        requires
            id != 0,
        ensures
            r@ == id,
    {
        Self(id)
    }

    /// The number of the identifier.
    pub fn get(&self) -> (r: u32)
        ensures
            r == self@,
            r != 0,
    {
        proof {
            use_type_invariant(self);
        }
        self.0
    }

    /// The identifier with the given number, unless that is zero.
    pub fn try_from(value: u32) -> (r: Result<Self, AddressIdError>)
        ensures
            result_view(r) == if value == 0 {
                Err::<u32, IdFault>(IdFault::Zero)
            } else {
                Ok::<u32, IdFault>(value)
            },
    {
        if value == 0 {
            return Err(AddressIdError::Zero);
        }
        Ok(Self(value))
    }

    /// Reads an identifier from text: surrounding whitespace is dropped,
    /// and what is left must be a decimal number other than zero.
    pub fn from_str(s: &str) -> (r: Result<Self, AddressIdError>)
        ensures
            result_view(r) == parse_id(s@),
    {
        match read_number(s) {
            None => Err(AddressIdError::InvalidFormat(s.to_owned())),
            Some(value) => Self::try_from(value),
        }
    }

    /// The number in decimal, without padding.
    pub fn to_string(&self) -> (r: String)
        ensures
            r@ == decimal(self@ as nat),
    {
        decimal_string(self.0 as u64)
    }
}

/// Why a number or a text is no AddressId.
#[derive(Debug, PartialEq, Eq)]
pub enum AddressIdError {
    /// The number is zero.
    Zero,
    /// The text is no unsigned 32-bit decimal number.
    InvalidFormat(String),
}

impl Clone for AddressIdError {
    fn clone(&self) -> (r: Self)
        ensures
            r@ == self@,
    {
        match self {
            AddressIdError::Zero => AddressIdError::Zero,
            AddressIdError::InvalidFormat(text) => AddressIdError::InvalidFormat(text.clone()),
        }
    }
}

impl View for AddressIdError {
    type V = IdFault;

    open spec fn view(&self) -> IdFault {
        match self {
            AddressIdError::Zero => IdFault::Zero,
            AddressIdError::InvalidFormat(text) => IdFault::InvalidFormat(text@),
        }
    }
}

impl DeepView for AddressIdError {
    type V = IdFault;

    open spec fn deep_view(&self) -> IdFault {
        self@
    }
}

impl AddressIdError {
    /// The word for the kind of identifier in reports.
    pub open spec fn kind() -> Seq<char> {
        "address"@
    }

    /// The report of the fault, as a sentence.
    pub fn to_string(&self) -> (r: String)
        ensures
            r@ == fault_message(Self::kind(), self@),
    {
        match self {
            AddressIdError::Zero => zero_message("address"),
            AddressIdError::InvalidFormat(text) => format_message("address", text.as_str()),
        }
    }
}

/// Whether the street type is written before the street name.
#[derive(Debug, Copy, Clone, PartialEq, Eq, Structural, Hash)]
pub enum StreetTypeIndicator {
    /// The street type is part of the displayed address.
    Yes,
    /// The name stands alone.
    No,
}

impl View for StreetTypeIndicator {
    type V = StreetTypeIndicator;

    open spec fn view(&self) -> StreetTypeIndicator {
        *self
    }
}

impl DeepView for StreetTypeIndicator {
    type V = StreetTypeIndicator;

    open spec fn deep_view(&self) -> StreetTypeIndicator {
        *self
    }
}

impl StreetTypeIndicator {
    /// The letter that stands for the value in the source files.
    pub open spec fn letter(self) -> char {
        match self {
            StreetTypeIndicator::Yes => 'S',
            StreetTypeIndicator::No => 'N',
        }
    }

    /// The code of the value: its one character as a text.
    pub open spec fn code(self) -> Seq<char> {
        seq![self.letter()]
    }

    /// The value with the given code, if there is one.
    pub open spec fn with_code(code: Seq<char>) -> Option<StreetTypeIndicator> {
        if exists|value: StreetTypeIndicator| value.code() == code {
            Some(choose|value: StreetTypeIndicator| value.code() == code)
        } else {
            None
        }
    }

    /// The value that a text names: surrounding whitespace is dropped and case is ignored; a text
    /// that is no code is handed back as the fault.
    pub open spec fn parse(s: Seq<char>) -> Result<StreetTypeIndicator, Seq<char>> {
        let text = to_upper(trim(s));
        match StreetTypeIndicator::with_code(text) {
            Some(value) => Ok(value),
            None => Err(text),
        }
    }

    /// The text names a value: between surrounding whitespace stands the
    /// code of a value, in upper or lower case.
    pub open spec fn names_value(s: Seq<char>) -> bool {
        exists|value: StreetTypeIndicator| value.code() == to_upper(trim(s))
    }

    /// A text that names a value is read as that value, and nothing else
    /// is read as a value.
    pub proof fn lemma_parse_named(s: Seq<char>)
        ensures
            StreetTypeIndicator::names_value(s) <==> StreetTypeIndicator::parse(s) is Ok,
            StreetTypeIndicator::parse(s) matches Ok(value) ==> value.code() == to_upper(trim(s))
                && !is_blank(s),
    {
        lemma_blank_iff_trim_empty(s);
        assert(to_upper(trim(s)).len() == trim(s).len());
        if StreetTypeIndicator::names_value(s) {
            let value = choose|value: StreetTypeIndicator| value.code() == to_upper(trim(s));
            value.lemma_with_code();
        }
    }

    /// The code of a value is read back as that value. It is one character
    /// that is neither whitespace nor a field separator.
    pub proof fn lemma_code_reads_back(self)
        ensures
            StreetTypeIndicator::parse(self.code()) == Ok::<StreetTypeIndicator, Seq<char>>(self),
            !is_blank(self.code()),
            !self.code().contains('@'),
    {
        let code = self.code();
        self.lemma_with_code();
        assert(code.take(0) =~= Seq::<char>::empty());
        lemma_trim_start_is_suffix(code, 0);
        assert(code.skip(0) =~= code);
        assert(code.skip(1) =~= Seq::<char>::empty());
        lemma_trim_end_is_prefix(code, 1);
        assert(code.take(1) =~= code);
        assert(to_upper(code) =~= code);
        assert(!is_whitespace(code[0]));
    }

    /// How an optional value is written into its field: as its code, or as
    /// nothing where it is absent.
    pub open spec fn optional_code(value: Option<StreetTypeIndicator>) -> Seq<char> {
        match value {
            Some(value) => value.code(),
            None => Seq::empty(),
        }
    }

    /// An optional value written into its field is blank exactly where the
    /// value is absent, holds no field separator, and is read back as the
    /// value.
    pub proof fn lemma_optional_code_reads_back(value: Option<StreetTypeIndicator>)
        ensures
            is_blank(StreetTypeIndicator::optional_code(value)) <==> value is None,
            !StreetTypeIndicator::optional_code(value).contains('@'),
            value matches Some(v) ==> StreetTypeIndicator::parse(
                StreetTypeIndicator::optional_code(value),
            ) == Ok::<StreetTypeIndicator, Seq<char>>(v),
    {
        match value {
            Some(v) => {
                v.lemma_code_reads_back();
            },
            None => {},
        }
    }

    /// A code names one value only, and `with_code` finds it.
    pub proof fn lemma_with_code(self)
        ensures
            StreetTypeIndicator::with_code(self.code()) == Some(self),
    {
        let found = choose|value: StreetTypeIndicator| value.code() == self.code();
        assert(found.code()[0] == self.code()[0]);
    }

    /// Reads a value from its code.
    pub fn from_str(s: &str) -> (r: Result<StreetTypeIndicator, StreetTypeIndicatorError>)
        ensures
            result_view(r) == StreetTypeIndicator::parse(s@),
    {
        let v = to_chars(s);
        let bounds: (usize, usize) = trim_range(&v);
        let from: usize = bounds.0;
        let to: usize = bounds.1;
        let ghost text = to_upper(trim(s@));
        let found = if to - from == 1 {
            match upper_char(v[from]) {
                'S' => Some(StreetTypeIndicator::Yes),
                'N' => Some(StreetTypeIndicator::No),
                _ => None,
            }
        } else {
            None
        };
        proof {
            assert(text.len() == to - from);
            match found {
                Some(value) => {
                    assert(text =~= value.code());
                    value.lemma_with_code();
                },
                None => {
                    assert forall|value: StreetTypeIndicator| value.code() != text by {
                        if value.code() == text {
                            assert(value.code()[0] == text[0]);
                            assert(text[0] == upper(v@[from as int]));
                        }
                    }
                },
            }
        }
        match found {
            Some(value) => Ok(value),
            None => Err(StreetTypeIndicatorError::InvalidCode(upper_range(&v, from, to))),
        }
    }

    /// The code of the value.
    pub fn to_string(&self) -> (r: String)
        ensures
            r@ == self.code(),
    {
        let c = match self {
            StreetTypeIndicator::Yes => 'S',
            StreetTypeIndicator::No => 'N',
        };
        let mut r = String::new();
        r.push(c);
        r
    }
}

/// A text that is no code of [`StreetTypeIndicator`].
#[derive(Debug, PartialEq, Eq)]
pub enum StreetTypeIndicatorError {
    /// The rejected text, trimmed and in upper case.
    InvalidCode(String),
}

impl Clone for StreetTypeIndicatorError {
    fn clone(&self) -> (r: Self)
        ensures
            r@ == self@,
    {
        match self {
            StreetTypeIndicatorError::InvalidCode(text) => {
                StreetTypeIndicatorError::InvalidCode(text.clone())
            },
        }
    }
}

impl View for StreetTypeIndicatorError {
    type V = Seq<char>;

    open spec fn view(&self) -> Seq<char> {
        match self {
            StreetTypeIndicatorError::InvalidCode(text) => text@,
        }
    }
}

impl DeepView for StreetTypeIndicatorError {
    type V = Seq<char>;

    open spec fn deep_view(&self) -> Seq<char> {
        self@
    }
}

impl StreetTypeIndicatorError {
    /// The name of the enumeration in reports.
    pub open spec fn what() -> Seq<char> {
        "street type indicator"@
    }

    /// The report of the fault, as a sentence.
    pub fn to_string(&self) -> (r: String)
        ensures
            r@ == code_message(Self::what(), self@),
    {
        match self {
            StreetTypeIndicatorError::InvalidCode(text) => {
                code_message_string("street type indicator", text.as_str())
            },
        }
    }
}

/// A street, avenue or the like.
#[derive(Debug, PartialEq, Eq)]
pub struct Address {
    /// Identifier of the address.
    pub id: AddressId,
    /// Federative unit.
    pub uf: Uf,
    /// The locality that the street lies in.
    pub locality_id: LocalityId,
    /// The neighborhood where the street starts.
    pub neighborhood_id_start: NeighborhoodId,
    /// The neighborhood where the street ends, if it spans two.
    pub neighborhood_id_end: Option<NeighborhoodId>,
    /// Name of the street.
    pub name: String,
    /// Complement.
    pub complement: Option<String>,
    /// Postal code.
    pub cep: String,
    /// Street type, such as "Rua" or "Avenida".
    pub street_type: String,
    /// Whether the street type is displayed with the name.
    pub street_type_indicator: Option<StreetTypeIndicator>,
    /// Abbreviated name.
    pub abbreviated_name: Option<String>,
}

/// The mathematical value of an [`Address`].
pub struct AddressView {
    pub id: u32,
    pub uf: Uf,
    pub locality_id: u32,
    pub neighborhood_id_start: u32,
    pub neighborhood_id_end: Option<u32>,
    pub name: Seq<char>,
    pub complement: Option<Seq<char>>,
    pub cep: Seq<char>,
    pub street_type: Seq<char>,
    pub street_type_indicator: Option<StreetTypeIndicator>,
    pub abbreviated_name: Option<Seq<char>>,
}

impl View for Address {
    type V = AddressView;

    open spec fn view(&self) -> AddressView {
        AddressView {
            id: self.id@,
            uf: self.uf,
            locality_id: self.locality_id@,
            neighborhood_id_start: self.neighborhood_id_start@,
            neighborhood_id_end: self.neighborhood_id_end.deep_view(),
            name: self.name@,
            complement: self.complement.deep_view(),
            cep: self.cep@,
            street_type: self.street_type@,
            street_type_indicator: self.street_type_indicator,
            abbreviated_name: self.abbreviated_name.deep_view(),
        }
    }
}

impl DeepView for Address {
    type V = AddressView;

    open spec fn deep_view(&self) -> AddressView {
        self@
    }
}

impl Clone for Address {
    fn clone(&self) -> (r: Self)
        ensures
            r@ == self@,
    {
        Address {
            id: self.id,
            uf: self.uf,
            locality_id: self.locality_id,
            neighborhood_id_start: self.neighborhood_id_start,
            neighborhood_id_end: self.neighborhood_id_end,
            name: self.name.clone(),
            complement: clone_text(&self.complement),
            cep: self.cep.clone(),
            street_type: self.street_type.clone(),
            street_type_indicator: self.street_type_indicator,
            abbreviated_name: clone_text(&self.abbreviated_name),
        }
    }
}

} // verus!
