//! Big users: addressees with a postal code of their own.

use crate::models::code::clone_text;
use crate::models::id::{
    fault_message, format_message, parse_id, read_number, zero_message, IdFault,
};
use crate::models::locality::LocalityId;
use crate::models::neighborhood::NeighborhoodId;
use crate::models::uf::Uf;
use crate::outcome::result_view;
use crate::text::decimal::{decimal, decimal_string};
use std::cmp::Ordering;
use vstd::prelude::*;
use vstd::std_specs::cmp::PartialOrdSpecImpl;

verus! {

/// Identifier of a big user: a positive 32-bit number.
#[derive(Debug, Copy, Clone, PartialEq, Eq, Structural, Hash, Ord)]
pub struct BigUserId(u32);

impl PartialOrd for BigUserId {
    fn partial_cmp(&self, other: &Self) -> (r: Option<Ordering>) {
        if self.0 < other.0 {
            Some(Ordering::Less)
        } else if self.0 == other.0 {
            Some(Ordering::Equal)
        } else {
            Some(Ordering::Greater)
        }
    }
}

impl PartialOrdSpecImpl for BigUserId {
    open spec fn obeys_partial_cmp_spec() -> bool {
        true
    }

    /// Identifiers are ordered by their numbers.
    open spec fn partial_cmp_spec(&self, other: &Self) -> Option<Ordering> {
        if self@ < other@ {
            Some(Ordering::Less)
        } else if self@ == other@ {
            Some(Ordering::Equal)
        } else {
            Some(Ordering::Greater)
        }
    }
}

impl View for BigUserId {
    type V = u32;

    closed spec fn view(&self) -> u32 {
        self.0
    }
}

impl DeepView for BigUserId {
    type V = u32;

    open spec fn deep_view(&self) -> u32 {
        self@
    }
}

impl BigUserId {
    /// The number is not zero.
    #[verifier::type_invariant]
    spec fn positive(self) -> bool {
        self.0 != 0
    }

    /// Two identifiers are equal exactly when their numbers are.
    pub proof fn lemma_equal_by_number(self, other: Self)
        ensures
            self == other <==> self@ == other@,
    {
    }

    /// The identifier with the given number, which must not be zero.
    pub fn new(id: u32) -> (r: Self)
        requires
            id != 0,
        ensures
            r@ == id,
    {
        Self(id)
    }

    /// The number of the identifier.
    pub fn get(&self) -> (r: u32)
        ensures
            r == self@,
            r != 0,
    {
        proof {
            use_type_invariant(self);
        }
        self.0
    }

    /// The identifier with the given number, unless that is zero.
    pub fn try_from(value: u32) -> (r: Result<Self, BigUserIdError>)
        ensures
            result_view(r) == if value == 0 {
                Err::<u32, IdFault>(IdFault::Zero)
            } else {
                Ok::<u32, IdFault>(value)
            },
    {
        if value == 0 {
            return Err(BigUserIdError::Zero);
        }
        Ok(Self(value))
    }

    /// Reads an identifier from text: surrounding whitespace is dropped,
    /// and what is left must be a decimal number other than zero.
    pub fn from_str(s: &str) -> (r: Result<Self, BigUserIdError>)
        ensures
            result_view(r) == parse_id(s@),
    {
        match read_number(s) {
            None => Err(BigUserIdError::InvalidFormat(s.to_owned())),
            Some(value) => Self::try_from(value),
        }
    }

    /// The number in decimal, without padding.
    pub fn to_string(&self) -> (r: String)
        ensures
            r@ == decimal(self@ as nat),
    {
        decimal_string(self.0 as u64)
    }
}

/// Why a number or a text is no BigUserId.
#[derive(Debug, PartialEq, Eq)]
pub enum BigUserIdError {
    /// The number is zero.
    Zero,
    /// The text is no unsigned 32-bit decimal number.
    InvalidFormat(String),
}

impl Clone for BigUserIdError {
    fn clone(&self) -> (r: Self)
        ensures
            r@ == self@,
    {
        match self {
            BigUserIdError::Zero => BigUserIdError::Zero,
            BigUserIdError::InvalidFormat(text) => BigUserIdError::InvalidFormat(text.clone()),
        }
    }
}

impl View for BigUserIdError {
    type V = IdFault;

    open spec fn view(&self) -> IdFault {
        match self {
            BigUserIdError::Zero => IdFault::Zero,
            BigUserIdError::InvalidFormat(text) => IdFault::InvalidFormat(text@),
        }
    }
}

impl DeepView for BigUserIdError {
    type V = IdFault;

    open spec fn deep_view(&self) -> IdFault {
        self@
    }
}

impl BigUserIdError {
    /// The word for the kind of identifier in reports.
    pub open spec fn kind() -> Seq<char> {
        "big user"@
    }

    /// The report of the fault, as a sentence.
    pub fn to_string(&self) -> (r: String)
        ensures
            r@ == fault_message(Self::kind(), self@),
    {
        match self {
            BigUserIdError::Zero => zero_message("big user"),
            BigUserIdError::InvalidFormat(text) => format_message("big user", text.as_str()),
        }
    }
}

/// Identifier of a street: a positive 32-bit number.
#[derive(Debug, Copy, Clone, PartialEq, Eq, Structural, Hash, Ord)]
pub struct StreetId(u32);

impl PartialOrd for StreetId {
    fn partial_cmp(&self, other: &Self) -> (r: Option<Ordering>) {
        if self.0 < other.0 {
            Some(Ordering::Less)
        } else if self.0 == other.0 {
            Some(Ordering::Equal)
        } else {
            Some(Ordering::Greater)
        }
    }
}

impl PartialOrdSpecImpl for StreetId {
    open spec fn obeys_partial_cmp_spec() -> bool {
        true
    }

    /// Identifiers are ordered by their numbers.
    open spec fn partial_cmp_spec(&self, other: &Self) -> Option<Ordering> {
        if self@ < other@ {
            Some(Ordering::Less)
        } else if self@ == other@ {
            Some(Ordering::Equal)
        } else {
            Some(Ordering::Greater)
        }
    }
}

impl View for StreetId {
    type V = u32;

    closed spec fn view(&self) -> u32 {
        self.0
    }
}

impl DeepView for StreetId {
    type V = u32;

    open spec fn deep_view(&self) -> u32 {
        self@
    }
}

impl StreetId {
    /// The number is not zero.
    #[verifier::type_invariant]
    spec fn positive(self) -> bool {
        self.0 != 0
    }

    /// Two identifiers are equal exactly when their numbers are.
    pub proof fn lemma_equal_by_number(self, other: Self)
        ensures
            self == other <==> self@ == other@,
    {
    }

    /// The identifier with the given number, which must not be zero.
    pub fn new(id: u32) -> (r: Self)
        requires
            id != 0,
        ensures
            r@ == id,
    {
        Self(id)
    }

    /// The number of the identifier.
    pub fn get(&self) -> (r: u32)
        ensures
            r == self@,
            r != 0,
    {
        proof {
            use_type_invariant(self);
        }
        self.0
    }

    /// The identifier with the given number, unless that is zero.
    pub fn try_from(value: u32) -> (r: Result<Self, StreetIdError>)
        ensures
            result_view(r) == if value == 0 {
                Err::<u32, IdFault>(IdFault::Zero)
            } else {
                Ok::<u32, IdFault>(value)
            },
    {
        if value == 0 {
            return Err(StreetIdError::Zero);
        }
        Ok(Self(value))
    }

    /// Reads an identifier from text: surrounding whitespace is dropped,
    /// and what is left must be a decimal number other than zero.
    pub fn from_str(s: &str) -> (r: Result<Self, StreetIdError>)
        ensures
            result_view(r) == parse_id(s@),
    {
        match read_number(s) {
            None => Err(StreetIdError::InvalidFormat(s.to_owned())),
            Some(value) => Self::try_from(value),
        }
    }

    /// The number in decimal, without padding.
    pub fn to_string(&self) -> (r: String)
        ensures
            r@ == decimal(self@ as nat),
    {
        decimal_string(self.0 as u64)
    }
}

/// Why a number or a text is no StreetId.
#[derive(Debug, PartialEq, Eq)]
pub enum StreetIdError {
    /// The number is zero.
    Zero,
    /// The text is no unsigned 32-bit decimal number.
    InvalidFormat(String),
}

impl Clone for StreetIdError {
    fn clone(&self) -> (r: Self)
        ensures
            r@ == self@,
    {
        match self {
            StreetIdError::Zero => StreetIdError::Zero,
            StreetIdError::InvalidFormat(text) => StreetIdError::InvalidFormat(text.clone()),
        }
    }
}

impl View for StreetIdError {
    type V = IdFault;

    open spec fn view(&self) -> IdFault {
        match self {
            StreetIdError::Zero => IdFault::Zero,
            StreetIdError::InvalidFormat(text) => IdFault::InvalidFormat(text@),
        }
    }
}

impl DeepView for StreetIdError {
    type V = IdFault;

    open spec fn deep_view(&self) -> IdFault {
        self@
    }
}

impl StreetIdError {
    /// The word for the kind of identifier in reports.
    pub open spec fn kind() -> Seq<char> {
        "street"@
    }

    /// The report of the fault, as a sentence.
    pub fn to_string(&self) -> (r: String)
        ensures
            r@ == fault_message(Self::kind(), self@),
    {
        match self {
            StreetIdError::Zero => zero_message("street"),
            StreetIdError::InvalidFormat(text) => format_message("street", text.as_str()),
        }
    }
}

/// A high-volume addressee: a company, an institution.
#[derive(Debug, PartialEq, Eq)]
pub struct BigUser {
    /// Identifier of the big user.
    pub id: BigUserId,
    /// Federative unit.
    pub uf: Uf,
    /// Locality.
    pub locality_id: LocalityId,
    /// Neighborhood.
    pub neighborhood_id: NeighborhoodId,
    /// Street; absent where the locality is not coded at street level.
    pub street_id: Option<StreetId>,
    /// Name of the big user.
    pub name: String,
    /// Address text.
    pub address: String,
    /// Postal code.
    pub cep: String,
    /// Abbreviated name.
    pub abbreviated_name: Option<String>,
}

/// The mathematical value of a [`BigUser`].
pub struct BigUserView {
    pub id: u32,
    pub uf: Uf,
    pub locality_id: u32,
    pub neighborhood_id: u32,
    pub street_id: Option<u32>,
    pub name: Seq<char>,
    pub address: Seq<char>,
    pub cep: Seq<char>,
    pub abbreviated_name: Option<Seq<char>>,
}

impl View for BigUser {
    type V = BigUserView;

    open spec fn view(&self) -> BigUserView {
        BigUserView {
            id: self.id@,
            uf: self.uf,
            locality_id: self.locality_id@,
            neighborhood_id: self.neighborhood_id@,
            street_id: self.street_id.deep_view(),
            name: self.name@,
            address: self.address@,
            cep: self.cep@,
            abbreviated_name: self.abbreviated_name.deep_view(),
        }
    }
}

impl DeepView for BigUser {
    type V = BigUserView;

    open spec fn deep_view(&self) -> BigUserView {
        self@
    }
}

impl Clone for BigUser {
    fn clone(&self) -> (r: Self)
        ensures
            r@ == self@,
    {
        BigUser {
            id: self.id,
            uf: self.uf,
            locality_id: self.locality_id,
            neighborhood_id: self.neighborhood_id,
            street_id: self.street_id,
            name: self.name.clone(),
            address: self.address.clone(),
            cep: self.cep.clone(),
            abbreviated_name: clone_text(&self.abbreviated_name),
        }
    }
}

} // verus!
