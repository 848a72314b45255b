//! Localities: municipalities, districts and villages.

use crate::models::code::{clone_text, code_message, code_message_string};
use crate::models::id::{
    fault_message, format_message, parse_id, read_number, zero_message, IdFault,
};
use crate::models::uf::Uf;
use crate::outcome::result_view;
use crate::text::ascii::{to_upper, upper, upper_char, upper_range};
use crate::text::decimal::{decimal, decimal_string};
use crate::text::space::{
    is_blank, is_whitespace, lemma_blank_iff_trim_empty, lemma_trim_end_is_prefix,
    lemma_trim_start_is_suffix, string_from_range, to_chars, trim, trim_range,
};
use std::cmp::Ordering;
use vstd::prelude::*;
use vstd::std_specs::cmp::PartialOrdSpecImpl;

verus! {

/// Identifier of a locality: a positive 32-bit number.
#[derive(Debug, Copy, Clone, PartialEq, Eq, Structural, Hash, Ord)]
pub struct LocalityId(u32);

impl PartialOrd for LocalityId {
    fn partial_cmp(&self, other: &Self) -> (r: Option<Ordering>) {
        if self.0 < other.0 {
            Some(Ordering::Less)
        } else if self.0 == other.0 {
            Some(Ordering::Equal)
        } else {
            Some(Ordering::Greater)
        }
    }
}

impl PartialOrdSpecImpl for LocalityId {
    open spec fn obeys_partial_cmp_spec() -> bool {
        true
    }

    /// Identifiers are ordered by their numbers.
    open spec fn partial_cmp_spec(&self, other: &Self) -> Option<Ordering> {
        if self@ < other@ {
            Some(Ordering::Less)
        } else if self@ == other@ {
            Some(Ordering::Equal)
        } else {
            Some(Ordering::Greater)
        }
    }
}

impl View for LocalityId {
    type V = u32;

    closed spec fn view(&self) -> u32 {
        self.0
    }
}

impl DeepView for LocalityId {
    type V = u32;

    open spec fn deep_view(&self) -> u32 {
        self@
    }
}

impl LocalityId {
    /// The number is not zero.
    #[verifier::type_invariant]
    spec fn positive(self) -> bool {
        self.0 != 0
    }

    /// Two identifiers are equal exactly when their numbers are.
    pub proof fn lemma_equal_by_number(self, other: Self)
        ensures
            self == other <==> self@ == other@,
    {
    }

    /// The identifier with the given number, which must not be zero.
    pub fn new(id: u32) -> (r: Self)
        requires
            id != 0,
        ensures
            r@ == id,
    {
        Self(id)
    }

    /// The number of the identifier.
    pub fn get(&self) -> (r: u32)
        ensures
            r == self@,
            r != 0,
    {
        proof {
            use_type_invariant(self);
        }
        self.0
    }

    /// The identifier with the given number, unless that is zero.
    pub fn try_from(value: u32) -> (r: Result<Self, LocalityIdError>)
        ensures
            result_view(r) == if value == 0 {
                Err::<u32, IdFault>(IdFault::Zero)
            } else {
                Ok::<u32, IdFault>(value)
            },
    {
        if value == 0 {
            return Err(LocalityIdError::Zero);
        }
        Ok(Self(value))
    }

    /// Reads an identifier from text: surrounding whitespace is dropped,
    /// and what is left must be a decimal number other than zero.
    pub fn from_str(s: &str) -> (r: Result<Self, LocalityIdError>)
        ensures
            result_view(r) == parse_id(s@),
    {
        match read_number(s) {
            None => Err(LocalityIdError::InvalidFormat(s.to_owned())),
            Some(value) => Self::try_from(value),
        }
    }

    /// The number in decimal, without padding.
    pub fn to_string(&self) -> (r: String)
        ensures
            r@ == decimal(self@ as nat),
    {
        decimal_string(self.0 as u64)
    }
}

/// Why a number or a text is no LocalityId.
#[derive(Debug, PartialEq, Eq)]
pub enum LocalityIdError {
    /// The number is zero.
    Zero,
    /// The text is no unsigned 32-bit decimal number.
    InvalidFormat(String),
}

impl Clone for LocalityIdError {
    fn clone(&self) -> (r: Self)
        ensures
            r@ == self@,
    {
        match self {
            LocalityIdError::Zero => LocalityIdError::Zero,
            LocalityIdError::InvalidFormat(text) => LocalityIdError::InvalidFormat(text.clone()),
        }
    }
}

impl View for LocalityIdError {
    type V = IdFault;

    open spec fn view(&self) -> IdFault {
        match self {
            LocalityIdError::Zero => IdFault::Zero,
            LocalityIdError::InvalidFormat(text) => IdFault::InvalidFormat(text@),
        }
    }
}

impl DeepView for LocalityIdError {
    type V = IdFault;

    open spec fn deep_view(&self) -> IdFault {
        self@
    }
}

impl LocalityIdError {
    /// The word for the kind of identifier in reports.
    pub open spec fn kind() -> Seq<char> {
        "locality"@
    }

    /// The report of the fault, as a sentence.
    pub fn to_string(&self) -> (r: String)
        ensures
            r@ == fault_message(Self::kind(), self@),
    {
        match self {
            LocalityIdError::Zero => zero_message("locality"),
            LocalityIdError::InvalidFormat(text) => format_message("locality", text.as_str()),
        }
    }
}

/// How far the addresses of a locality are coded.
#[derive(Debug, Copy, Clone, PartialEq, Eq, Structural, Hash)]
pub enum LocalitySituation {
    /// Not coded at street level: the locality has one postal code.
    NotCoded,
    /// Coded at street level.
    Coded,
    /// A district or village inside a street-level coding.
    DistrictOrVillage,
    /// Street-level coding is under way.
    CodingInProgress,
}

impl View for LocalitySituation {
    type V = LocalitySituation;

    open spec fn view(&self) -> LocalitySituation {
        *self
    }
}

impl DeepView for LocalitySituation {
    type V = LocalitySituation;

    open spec fn deep_view(&self) -> LocalitySituation {
        *self
    }
}

impl LocalitySituation {
    /// The digit that stands for the value in the source files.
    pub open spec fn letter(self) -> char {
        match self {
            LocalitySituation::NotCoded => '0',
            LocalitySituation::Coded => '1',
            LocalitySituation::DistrictOrVillage => '2',
            LocalitySituation::CodingInProgress => '3',
        }
    }

    /// The code of the value: its one character as a text.
    pub open spec fn code(self) -> Seq<char> {
        seq![self.letter()]
    }

    /// The value with the given code, if there is one.
    pub open spec fn with_code(code: Seq<char>) -> Option<LocalitySituation> {
        if exists|value: LocalitySituation| value.code() == code {
            Some(choose|value: LocalitySituation| value.code() == code)
        } else {
            None
        }
    }

    /// The value that a text names: surrounding whitespace is dropped; a text
    /// that is no code is handed back as the fault.
    pub open spec fn parse(s: Seq<char>) -> Result<LocalitySituation, Seq<char>> {
        let text = trim(s);
        match LocalitySituation::with_code(text) {
            Some(value) => Ok(value),
            None => Err(text),
        }
    }

    /// The text names a value: between surrounding whitespace stands the
    /// code of a value.
    pub open spec fn names_value(s: Seq<char>) -> bool {
        exists|value: LocalitySituation| value.code() == trim(s)
    }

    /// A text that names a value is read as that value, and nothing else
    /// is read as a value.
    pub proof fn lemma_parse_named(s: Seq<char>)
        ensures
            LocalitySituation::names_value(s) <==> LocalitySituation::parse(s) is Ok,
            LocalitySituation::parse(s) matches Ok(value) ==> value.code() == trim(s)
                && !is_blank(s),
    {
        lemma_blank_iff_trim_empty(s);
        if LocalitySituation::names_value(s) {
            let value = choose|value: LocalitySituation| value.code() == trim(s);
            value.lemma_with_code();
        }
    }

    /// The code of a value is read back as that value. It is one character
    /// that is neither whitespace nor a field separator.
    pub proof fn lemma_code_reads_back(self)
        ensures
            LocalitySituation::parse(self.code()) == Ok::<LocalitySituation, Seq<char>>(self),
            !is_blank(self.code()),
            !self.code().contains('@'),
    {
        let code = self.code();
        self.lemma_with_code();
        assert(code.take(0) =~= Seq::<char>::empty());
        lemma_trim_start_is_suffix(code, 0);
        assert(code.skip(0) =~= code);
        assert(code.skip(1) =~= Seq::<char>::empty());
        lemma_trim_end_is_prefix(code, 1);
        assert(code.take(1) =~= code);
        assert(!is_whitespace(code[0]));
    }

    /// A code names one value only, and `with_code` finds it.
    pub proof fn lemma_with_code(self)
        ensures
            LocalitySituation::with_code(self.code()) == Some(self),
    {
        let found = choose|value: LocalitySituation| value.code() == self.code();
        assert(found.code()[0] == self.code()[0]);
    }

    /// Reads a value from its code.
    pub fn from_str(s: &str) -> (r: Result<LocalitySituation, LocalitySituationError>)
        ensures
            result_view(r) == LocalitySituation::parse(s@),
    {
        let v = to_chars(s);
        let bounds: (usize, usize) = trim_range(&v);
        let from: usize = bounds.0;
        let to: usize = bounds.1;
        let ghost text = trim(s@);
        let found = if to - from == 1 {
            match v[from] {
                '0' => Some(LocalitySituation::NotCoded),
                '1' => Some(LocalitySituation::Coded),
                '2' => Some(LocalitySituation::DistrictOrVillage),
                '3' => Some(LocalitySituation::CodingInProgress),
                _ => None,
            }
        } else {
            None
        };
        proof {
            assert(text.len() == to - from);
            match found {
                Some(value) => {
                    assert(text =~= value.code());
                    value.lemma_with_code();
                },
                None => {
                    assert forall|value: LocalitySituation| value.code() != text by {
                        if value.code() == text {
                            assert(value.code()[0] == text[0]);
                            assert(text[0] == v@[from as int]);
                        }
                    }
                },
            }
        }
        match found {
            Some(value) => Ok(value),
            None => Err(LocalitySituationError::InvalidCode(string_from_range(&v, from, to))),
        }
    }

    /// The code of the value.
    pub fn to_string(&self) -> (r: String)
        ensures
            r@ == self.code(),
    {
        let c = match self {
            LocalitySituation::NotCoded => '0',
            LocalitySituation::Coded => '1',
            LocalitySituation::DistrictOrVillage => '2',
            LocalitySituation::CodingInProgress => '3',
        };
        let mut r = String::new();
        r.push(c);
        r
    }
}

/// A text that is no code of [`LocalitySituation`].
#[derive(Debug, PartialEq, Eq)]
pub enum LocalitySituationError {
    /// The rejected text, trimmed.
    InvalidCode(String),
}

impl Clone for LocalitySituationError {
    fn clone(&self) -> (r: Self)
        ensures
            r@ == self@,
    {
        match self {
            LocalitySituationError::InvalidCode(text) => {
                LocalitySituationError::InvalidCode(text.clone())
            },
        }
    }
}

impl View for LocalitySituationError {
    type V = Seq<char>;

    open spec fn view(&self) -> Seq<char> {
        match self {
            LocalitySituationError::InvalidCode(text) => text@,
        }
    }
}

impl DeepView for LocalitySituationError {
    type V = Seq<char>;

    open spec fn deep_view(&self) -> Seq<char> {
        self@
    }
}

impl LocalitySituationError {
    /// The name of the enumeration in reports.
    pub open spec fn what() -> Seq<char> {
        "locality situation"@
    }

    /// The report of the fault, as a sentence.
    pub fn to_string(&self) -> (r: String)
        ensures
            r@ == code_message(Self::what(), self@),
    {
        match self {
            LocalitySituationError::InvalidCode(text) => {
                code_message_string("locality situation", text.as_str())
            },
        }
    }
}

/// What kind of place a locality is.
#[derive(Debug, Copy, Clone, PartialEq, Eq, Structural, Hash)]
pub enum LocalityType {
    /// A district.
    District,
    /// A municipality.
    Municipality,
    /// A village or settlement.
    Village,
}

impl View for LocalityType {
    type V = LocalityType;

    open spec fn view(&self) -> LocalityType {
        *self
    }
}

impl DeepView for LocalityType {
    type V = LocalityType;

    open spec fn deep_view(&self) -> LocalityType {
        *self
    }
}

impl LocalityType {
    /// The letter that stands for the value in the source files.
    pub open spec fn letter(self) -> char {
        match self {
            LocalityType::District => 'D',
            LocalityType::Municipality => 'M',
            LocalityType::Village => 'P',
        }
    }

    /// The code of the value: its one character as a text.
    pub open spec fn code(self) -> Seq<char> {
        seq![self.letter()]
    }

    /// The value with the given code, if there is one.
    pub open spec fn with_code(code: Seq<char>) -> Option<LocalityType> {
        if exists|value: LocalityType| value.code() == code {
            Some(choose|value: LocalityType| value.code() == code)
        } else {
            None
        }
    }

    /// The value that a text names: surrounding whitespace is dropped and case is ignored; a text
    /// that is no code is handed back as the fault.
    pub open spec fn parse(s: Seq<char>) -> Result<LocalityType, Seq<char>> {
        let text = to_upper(trim(s));
        match LocalityType::with_code(text) {
            Some(value) => Ok(value),
            None => Err(text),
        }
    }

    /// The text names a value: between surrounding whitespace stands the
    /// code of a value, in upper or lower case.
    pub open spec fn names_value(s: Seq<char>) -> bool {
        exists|value: LocalityType| value.code() == to_upper(trim(s))
    }

    /// A text that names a value is read as that value, and nothing else
    /// is read as a value.
    pub proof fn lemma_parse_named(s: Seq<char>)
        ensures
            LocalityType::names_value(s) <==> LocalityType::parse(s) is Ok,
            LocalityType::parse(s) matches Ok(value) ==> value.code() == to_upper(trim(s))
                && !is_blank(s),
    {
        lemma_blank_iff_trim_empty(s);
        assert(to_upper(trim(s)).len() == trim(s).len());
        if LocalityType::names_value(s) {
            let value = choose|value: LocalityType| value.code() == to_upper(trim(s));
            value.lemma_with_code();
        }
    }

    /// The code of a value is read back as that value. It is one character
    /// that is neither whitespace nor a field separator.
    pub proof fn lemma_code_reads_back(self)
        ensures
            LocalityType::parse(self.code()) == Ok::<LocalityType, Seq<char>>(self),
            !is_blank(self.code()),
            !self.code().contains('@'),
    {
        let code = self.code();
        self.lemma_with_code();
        assert(code.take(0) =~= Seq::<char>::empty());
        lemma_trim_start_is_suffix(code, 0);
        assert(code.skip(0) =~= code);
        assert(code.skip(1) =~= Seq::<char>::empty());
        lemma_trim_end_is_prefix(code, 1);
        assert(code.take(1) =~= code);
        assert(to_upper(code) =~= code);
        assert(!is_whitespace(code[0]));
    }

    /// A code names one value only, and `with_code` finds it.
    pub proof fn lemma_with_code(self)
        ensures
            LocalityType::with_code(self.code()) == Some(self),
    {
        let found = choose|value: LocalityType| value.code() == self.code();
        assert(found.code()[0] == self.code()[0]);
    }

    /// Reads a value from its code.
    pub fn from_str(s: &str) -> (r: Result<LocalityType, LocalityTypeError>)
        ensures
            result_view(r) == LocalityType::parse(s@),
    {
        let v = to_chars(s);
        let bounds: (usize, usize) = trim_range(&v);
        let from: usize = bounds.0;
        let to: usize = bounds.1;
        let ghost text = to_upper(trim(s@));
        let found = if to - from == 1 {
            match upper_char(v[from]) {
                'D' => Some(LocalityType::District),
                'M' => Some(LocalityType::Municipality),
                'P' => Some(LocalityType::Village),
                _ => None,
            }
        } else {
            None
        };
        proof {
            assert(text.len() == to - from);
            match found {
                Some(value) => {
                    assert(text =~= value.code());
                    value.lemma_with_code();
                },
                None => {
                    assert forall|value: LocalityType| value.code() != text by {
                        if value.code() == text {
                            assert(value.code()[0] == text[0]);
                            assert(text[0] == upper(v@[from as int]));
                        }
                    }
                },
            }
        }
        match found {
            Some(value) => Ok(value),
            None => Err(LocalityTypeError::InvalidCode(upper_range(&v, from, to))),
        }
    }

    /// The code of the value.
    pub fn to_string(&self) -> (r: String)
        ensures
            r@ == self.code(),
    {
        let c = match self {
            LocalityType::District => 'D',
            LocalityType::Municipality => 'M',
            LocalityType::Village => 'P',
        };
        let mut r = String::new();
        r.push(c);
        r
    }
}

/// A text that is no code of [`LocalityType`].
#[derive(Debug, PartialEq, Eq)]
pub enum LocalityTypeError {
    /// The rejected text, trimmed and in upper case.
    InvalidCode(String),
}

impl Clone for LocalityTypeError {
    fn clone(&self) -> (r: Self)
        ensures
            r@ == self@,
    {
        match self {
            LocalityTypeError::InvalidCode(text) => LocalityTypeError::InvalidCode(text.clone()),
        }
    }
}

impl View for LocalityTypeError {
    type V = Seq<char>;

    open spec fn view(&self) -> Seq<char> {
        match self {
            LocalityTypeError::InvalidCode(text) => text@,
        }
    }
}

impl DeepView for LocalityTypeError {
    type V = Seq<char>;

    open spec fn deep_view(&self) -> Seq<char> {
        self@
    }
}

impl LocalityTypeError {
    /// The name of the enumeration in reports.
    pub open spec fn what() -> Seq<char> {
        "locality type"@
    }

    /// The report of the fault, as a sentence.
    pub fn to_string(&self) -> (r: String)
        ensures
            r@ == code_message(Self::what(), self@),
    {
        match self {
            LocalityTypeError::InvalidCode(text) => {
                code_message_string("locality type", text.as_str())
            },
        }
    }
}

/// A municipality, district or village.
#[derive(Debug, PartialEq, Eq)]
pub struct Locality {
    /// Identifier of the locality.
    pub id: LocalityId,
    /// Federative unit.
    pub uf: Uf,
    /// Name of the locality.
    pub name: String,
    /// Postal code of the locality as a whole, where it has one.
    pub cep: Option<String>,
    /// How far its addresses are coded.
    pub situation: LocalitySituation,
    /// What kind of place it is.
    pub locality_type: LocalityType,
    /// The locality that this one is subordinate to, if any.
    pub subordinate_to: Option<LocalityId>,
    /// Abbreviated name.
    pub abbreviated_name: Option<String>,
    /// Municipal code of the statistics office.
    pub ibge_code: Option<String>,
}

/// The mathematical value of a [`Locality`].
pub struct LocalityView {
    pub id: u32,
    pub uf: Uf,
    pub name: Seq<char>,
    pub cep: Option<Seq<char>>,
    pub situation: LocalitySituation,
    pub locality_type: LocalityType,
    pub subordinate_to: Option<u32>,
    pub abbreviated_name: Option<Seq<char>>,
    pub ibge_code: Option<Seq<char>>,
}

impl View for Locality {
    type V = LocalityView;

    open spec fn view(&self) -> LocalityView {
        LocalityView {
            id: self.id@,
            uf: self.uf,
            name: self.name@,
            cep: self.cep.deep_view(),
            situation: self.situation,
            locality_type: self.locality_type,
            subordinate_to: self.subordinate_to.deep_view(),
            abbreviated_name: self.abbreviated_name.deep_view(),
            ibge_code: self.ibge_code.deep_view(),
        }
    }
}

impl DeepView for Locality {
    type V = LocalityView;

    open spec fn deep_view(&self) -> LocalityView {
        self@
    }
}

impl Clone for Locality {
    fn clone(&self) -> (r: Self)
        ensures
            r@ == self@,
    {
        Locality {
            id: self.id,
            uf: self.uf,
            name: self.name.clone(),
            cep: clone_text(&self.cep),
            situation: self.situation,
            locality_type: self.locality_type,
            subordinate_to: self.subordinate_to,
            abbreviated_name: clone_text(&self.abbreviated_name),
            ibge_code: clone_text(&self.ibge_code),
        }
    }
}

} // verus!
