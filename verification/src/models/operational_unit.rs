//! Operational units: post offices and distribution centers.

use crate::models::big_user::StreetId;
use crate::models::code::{code_message, code_message_string};
use crate::models::code::clone_text;
use crate::models::id::{
    fault_message, format_message, parse_id, read_number, zero_message, IdFault,
};
use crate::models::locality::LocalityId;
use crate::models::neighborhood::NeighborhoodId;
use crate::models::uf::Uf;
use crate::outcome::result_view;
use crate::text::ascii::{to_upper, upper, upper_char, upper_range};
use crate::text::decimal::{decimal, decimal_string};
use crate::text::space::{
    is_blank, is_whitespace, lemma_blank_iff_trim_empty, lemma_trim_end_is_prefix,
    lemma_trim_start_is_suffix, to_chars, trim, trim_range,
};
use std::cmp::Ordering;
use vstd::prelude::*;
use vstd::std_specs::cmp::PartialOrdSpecImpl;

verus! {

/// Identifier of an operational unit: a positive 32-bit number.
#[derive(Debug, Copy, Clone, PartialEq, Eq, Structural, Hash, Ord)]
pub struct OperationalUnitId(u32);

impl PartialOrd for OperationalUnitId {
    fn partial_cmp(&self, other: &Self) -> (r: Option<Ordering>) {
        if self.0 < other.0 {
            Some(Ordering::Less)
        } else if self.0 == other.0 {
            Some(Ordering::Equal)
        } else {
            Some(Ordering::Greater)
        }
    }
}

impl PartialOrdSpecImpl for OperationalUnitId {
    open spec fn obeys_partial_cmp_spec() -> bool {
        true
    }

    /// Identifiers are ordered by their numbers.
    open spec fn partial_cmp_spec(&self, other: &Self) -> Option<Ordering> {
        if self@ < other@ {
            Some(Ordering::Less)
        } else if self@ == other@ {
            Some(Ordering::Equal)
        } else {
            Some(Ordering::Greater)
        }
    }
}

impl View for OperationalUnitId {
    type V = u32;

    closed spec fn view(&self) -> u32 {
        self.0
    }
}

impl DeepView for OperationalUnitId {
    type V = u32;

    open spec fn deep_view(&self) -> u32 {
        self@
    }
}

impl OperationalUnitId {
    /// The number is not zero.
    #[verifier::type_invariant]
    spec fn positive(self) -> bool {
        self.0 != 0
    }

    /// Two identifiers are equal exactly when their numbers are.
    pub proof fn lemma_equal_by_number(self, other: Self)
        ensures
            self == other <==> self@ == other@,
    {
    }

    /// The identifier with the given number, which must not be zero.
    pub fn new(id: u32) -> (r: Self)
        requires
            id != 0,
        ensures
            r@ == id,
    {
        Self(id)
    }

    /// The number of the identifier.
    pub fn get(&self) -> (r: u32)
        ensures
            r == self@,
            r != 0,
    {
        proof {
            use_type_invariant(self);
        }
        self.0
    }

    /// The identifier with the given number, unless that is zero.
    pub fn try_from(value: u32) -> (r: Result<Self, OperationalUnitIdError>)
        ensures
            result_view(r) == if value == 0 {
                Err::<u32, IdFault>(IdFault::Zero)
            } else {
                Ok::<u32, IdFault>(value)
            },
    {
        if value == 0 {
            return Err(OperationalUnitIdError::Zero);
        }
        Ok(Self(value))
    }

    /// Reads an identifier from text: surrounding whitespace is dropped,
    /// and what is left must be a decimal number other than zero.
    pub fn from_str(s: &str) -> (r: Result<Self, OperationalUnitIdError>)
        ensures
            result_view(r) == parse_id(s@),
    {
        match read_number(s) {
            None => Err(OperationalUnitIdError::InvalidFormat(s.to_owned())),
            Some(value) => Self::try_from(value),
        }
    }

    /// The number in decimal, without padding.
    pub fn to_string(&self) -> (r: String)
        ensures
            r@ == decimal(self@ as nat),
    {
        decimal_string(self.0 as u64)
    }
}

/// Why a number or a text is no OperationalUnitId.
#[derive(Debug, PartialEq, Eq)]
pub enum OperationalUnitIdError {
    /// The number is zero.
    Zero,
    /// The text is no unsigned 32-bit decimal number.
    InvalidFormat(String),
}

impl Clone for OperationalUnitIdError {
    fn clone(&self) -> (r: Self)
        ensures
            r@ == self@,
    {
        match self {
            OperationalUnitIdError::Zero => OperationalUnitIdError::Zero,
            OperationalUnitIdError::InvalidFormat(text) => {
                OperationalUnitIdError::InvalidFormat(text.clone())
            },
        }
    }
}

impl View for OperationalUnitIdError {
    type V = IdFault;

    open spec fn view(&self) -> IdFault {
        match self {
            OperationalUnitIdError::Zero => IdFault::Zero,
            OperationalUnitIdError::InvalidFormat(text) => IdFault::InvalidFormat(text@),
        }
    }
}

impl DeepView for OperationalUnitIdError {
    type V = IdFault;

    open spec fn deep_view(&self) -> IdFault {
        self@
    }
}

impl OperationalUnitIdError {
    /// The word for the kind of identifier in reports.
    pub open spec fn kind() -> Seq<char> {
        "operational unit"@
    }

    /// The report of the fault, as a sentence.
    pub fn to_string(&self) -> (r: String)
        ensures
            r@ == fault_message(Self::kind(), self@),
    {
        match self {
            OperationalUnitIdError::Zero => zero_message("operational unit"),
            OperationalUnitIdError::InvalidFormat(text) => {
                format_message("operational unit", text.as_str())
            },
        }
    }
}

/// Whether an operational unit offers post boxes.
#[derive(Debug, Copy, Clone, PartialEq, Eq, Structural, Hash)]
pub enum PostBoxIndicator {
    /// The unit has post boxes.
    Yes,
    /// The unit has none.
    No,
}

impl View for PostBoxIndicator {
    type V = PostBoxIndicator;

    open spec fn view(&self) -> PostBoxIndicator {
        *self
    }
}

impl DeepView for PostBoxIndicator {
    type V = PostBoxIndicator;

    open spec fn deep_view(&self) -> PostBoxIndicator {
        *self
    }
}

impl PostBoxIndicator {
    /// The letter that stands for the value in the source files.
    pub open spec fn letter(self) -> char {
        match self {
            PostBoxIndicator::Yes => 'S',
            PostBoxIndicator::No => 'N',
        }
    }

    /// The code of the value: its one character as a text.
    pub open spec fn code(self) -> Seq<char> {
        seq![self.letter()]
    }

    /// The value with the given code, if there is one.
    pub open spec fn with_code(code: Seq<char>) -> Option<PostBoxIndicator> {
        if exists|value: PostBoxIndicator| value.code() == code {
            Some(choose|value: PostBoxIndicator| value.code() == code)
        } else {
            None
        }
    }

    /// The value that a text names: surrounding whitespace is dropped and case is ignored; a text
    /// that is no code is handed back as the fault.
    pub open spec fn parse(s: Seq<char>) -> Result<PostBoxIndicator, Seq<char>> {
        let text = to_upper(trim(s));
        match PostBoxIndicator::with_code(text) {
            Some(value) => Ok(value),
            None => Err(text),
        }
    }

    /// The text names a value: between surrounding whitespace stands the
    /// code of a value, in upper or lower case.
    pub open spec fn names_value(s: Seq<char>) -> bool {
        exists|value: PostBoxIndicator| value.code() == to_upper(trim(s))
    }

    /// A text that names a value is read as that value, and nothing else
    /// is read as a value.
    pub proof fn lemma_parse_named(s: Seq<char>)
        ensures
            PostBoxIndicator::names_value(s) <==> PostBoxIndicator::parse(s) is Ok,
            PostBoxIndicator::parse(s) matches Ok(value) ==> value.code() == to_upper(trim(s))
                && !is_blank(s),
    {
        lemma_blank_iff_trim_empty(s);
        assert(to_upper(trim(s)).len() == trim(s).len());
        if PostBoxIndicator::names_value(s) {
            let value = choose|value: PostBoxIndicator| value.code() == to_upper(trim(s));
            value.lemma_with_code();
        }
    }

    /// The code of a value is read back as that value. It is one character
    /// that is neither whitespace nor a field separator.
    pub proof fn lemma_code_reads_back(self)
        ensures
            PostBoxIndicator::parse(self.code()) == Ok::<PostBoxIndicator, Seq<char>>(self),
            !is_blank(self.code()),
            !self.code().contains('@'),
    {
        let code = self.code();
        self.lemma_with_code();
        assert(code.take(0) =~= Seq::<char>::empty());
        lemma_trim_start_is_suffix(code, 0);
        assert(code.skip(0) =~= code);
        assert(code.skip(1) =~= Seq::<char>::empty());
        lemma_trim_end_is_prefix(code, 1);
        assert(code.take(1) =~= code);
        assert(to_upper(code) =~= code);
        assert(!is_whitespace(code[0]));
    }

    /// A code names one value only, and `with_code` finds it.
    pub proof fn lemma_with_code(self)
        ensures
            PostBoxIndicator::with_code(self.code()) == Some(self),
    {
        let found = choose|value: PostBoxIndicator| value.code() == self.code();
        assert(found.code()[0] == self.code()[0]);
    }

    /// Reads a value from its code.
    pub fn from_str(s: &str) -> (r: Result<PostBoxIndicator, PostBoxIndicatorError>)
        ensures
            result_view(r) == PostBoxIndicator::parse(s@),
    {
        let v = to_chars(s);
        let bounds: (usize, usize) = trim_range(&v);
        let from: usize = bounds.0;
        let to: usize = bounds.1;
        let ghost text = to_upper(trim(s@));
        let found = if to - from == 1 {
            match upper_char(v[from]) {
                'S' => Some(PostBoxIndicator::Yes),
                'N' => Some(PostBoxIndicator::No),
                _ => None,
            }
        } else {
            None
        };
        proof {
            assert(text.len() == to - from);
            match found {
                Some(value) => {
                    assert(text =~= value.code());
                    value.lemma_with_code();
                },
                None => {
                    assert forall|value: PostBoxIndicator| value.code() != text by {
                        if value.code() == text {
                            assert(value.code()[0] == text[0]);
                            assert(text[0] == upper(v@[from as int]));
                        }
                    }
                },
            }
        }
        match found {
            Some(value) => Ok(value),
            None => Err(PostBoxIndicatorError::InvalidCode(upper_range(&v, from, to))),
        }
    }

    /// The code of the value.
    pub fn to_string(&self) -> (r: String)
        ensures
            r@ == self.code(),
    {
        let c = match self {
            PostBoxIndicator::Yes => 'S',
            PostBoxIndicator::No => 'N',
        };
        let mut r = String::new();
        r.push(c);
        r
    }
}

/// A text that is no code of [`PostBoxIndicator`].
#[derive(Debug, PartialEq, Eq)]
pub enum PostBoxIndicatorError {
    /// The rejected text, trimmed and in upper case.
    InvalidCode(String),
}

impl Clone for PostBoxIndicatorError {
    fn clone(&self) -> (r: Self)
        ensures
            r@ == self@,
    {
        match self {
            PostBoxIndicatorError::InvalidCode(text) => {
                PostBoxIndicatorError::InvalidCode(text.clone())
            },
        }
    }
}

impl View for PostBoxIndicatorError {
    type V = Seq<char>;

    open spec fn view(&self) -> Seq<char> {
        match self {
            PostBoxIndicatorError::InvalidCode(text) => text@,
        }
    }
}

impl DeepView for PostBoxIndicatorError {
    type V = Seq<char>;

    open spec fn deep_view(&self) -> Seq<char> {
        self@
    }
}

impl PostBoxIndicatorError {
    /// The name of the enumeration in reports.
    pub open spec fn what() -> Seq<char> {
        "post box indicator"@
    }

    /// The report of the fault, as a sentence.
    pub fn to_string(&self) -> (r: String)
        ensures
            r@ == code_message(Self::what(), self@),
    {
        match self {
            PostBoxIndicatorError::InvalidCode(text) => {
                code_message_string("post box indicator", text.as_str())
            },
        }
    }
}

/// A post office, franchise or distribution center.
#[derive(Debug, PartialEq, Eq)]
pub struct OperationalUnit {
    /// Identifier of the unit.
    pub id: OperationalUnitId,
    /// Federative unit.
    pub uf: Uf,
    /// Locality.
    pub locality_id: LocalityId,
    /// Neighborhood.
    pub neighborhood_id: NeighborhoodId,
    /// Street; absent where the locality is not coded at street level.
    pub street_id: Option<StreetId>,
    /// Name of the unit.
    pub name: String,
    /// Address text.
    pub address: String,
    /// Postal code.
    pub cep: String,
    /// Whether the unit offers post boxes.
    pub post_box_indicator: PostBoxIndicator,
    /// Abbreviated name.
    pub abbreviated_name: Option<String>,
}

/// The mathematical value of an [`OperationalUnit`].
pub struct OperationalUnitView {
    pub id: u32,
    pub uf: Uf,
    pub locality_id: u32,
    pub neighborhood_id: u32,
    pub street_id: Option<u32>,
    pub name: Seq<char>,
    pub address: Seq<char>,
    pub cep: Seq<char>,
    pub post_box_indicator: PostBoxIndicator,
    pub abbreviated_name: Option<Seq<char>>,
}

impl View for OperationalUnit {
    type V = OperationalUnitView;

    open spec fn view(&self) -> OperationalUnitView {
        OperationalUnitView {
            id: self.id@,
            uf: self.uf,
            locality_id: self.locality_id@,
            neighborhood_id: self.neighborhood_id@,
            street_id: self.street_id.deep_view(),
            name: self.name@,
            address: self.address@,
            cep: self.cep@,
            post_box_indicator: self.post_box_indicator,
            abbreviated_name: self.abbreviated_name.deep_view(),
        }
    }
}

impl DeepView for OperationalUnit {
    type V = OperationalUnitView;

    open spec fn deep_view(&self) -> OperationalUnitView {
        self@
    }
}

impl Clone for OperationalUnit {
    fn clone(&self) -> (r: Self)
        ensures
            r@ == self@,
    {
        OperationalUnit {
            id: self.id,
            uf: self.uf,
            locality_id: self.locality_id,
            neighborhood_id: self.neighborhood_id,
            street_id: self.street_id,
            name: self.name.clone(),
            address: self.address.clone(),
            cep: self.cep.clone(),
            post_box_indicator: self.post_box_indicator,
            abbreviated_name: clone_text(&self.abbreviated_name),
        }
    }
}

} // verus!
