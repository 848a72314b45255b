//! Community postal boxes, which serve areas without home delivery.

use crate::models::id::{
    fault_message, format_message, parse_id, read_number, zero_message, IdFault,
};
use crate::models::locality::LocalityId;
use crate::models::uf::Uf;
use crate::outcome::result_view;
use crate::text::decimal::{decimal, decimal_string};
use std::cmp::Ordering;
use vstd::prelude::*;
use vstd::std_specs::cmp::PartialOrdSpecImpl;

verus! {

/// Identifier of a community postal box: a positive 32-bit number.
#[derive(Debug, Copy, Clone, PartialEq, Eq, Structural, Hash, Ord)]
pub struct CpcId(u32);

impl PartialOrd for CpcId {
    fn partial_cmp(&self, other: &Self) -> (r: Option<Ordering>) {
        if self.0 < other.0 {
            Some(Ordering::Less)
        } else if self.0 == other.0 {
            Some(Ordering::Equal)
        } else {
            Some(Ordering::Greater)
        }
    }
}

impl PartialOrdSpecImpl for CpcId {
    open spec fn obeys_partial_cmp_spec() -> bool {
        true
    }

    /// Identifiers are ordered by their numbers.
    open spec fn partial_cmp_spec(&self, other: &Self) -> Option<Ordering> {
        if self@ < other@ {
            Some(Ordering::Less)
        } else if self@ == other@ {
            Some(Ordering::Equal)
        } else {
            Some(Ordering::Greater)
        }
    }
}

impl View for CpcId {
    type V = u32;

    closed spec fn view(&self) -> u32 {
        self.0
    }
}

impl DeepView for CpcId {
    type V = u32;

    open spec fn deep_view(&self) -> u32 {
        self@
    }
}

impl CpcId {
    /// The number is not zero.
    #[verifier::type_invariant]
    spec fn positive(self) -> bool {
        self.0 != 0
    }

    /// Two identifiers are equal exactly when their numbers are.
    pub proof fn lemma_equal_by_number(self, other: Self)
        ensures
            self == other <==> self@ == other@,
    {
    }

    /// The identifier with the given number, which must not be zero.
    pub fn new(id: u32) -> (r: Self)
        requires
            id != 0,
        ensures
            r@ == id,
    {
        Self(id)
    }

    /// The number of the identifier.
    pub fn get(&self) -> (r: u32)
        ensures
            r == self@,
            r != 0,
    {
        proof {
            use_type_invariant(self);
        }
        self.0
    }

    /// The identifier with the given number, unless that is zero.
    pub fn try_from(value: u32) -> (r: Result<Self, CpcIdError>)
        ensures
            result_view(r) == if value == 0 {
                Err::<u32, IdFault>(IdFault::Zero)
            } else {
                Ok::<u32, IdFault>(value)
            },
    {
        if value == 0 {
            return Err(CpcIdError::Zero);
        }
        Ok(Self(value))
    }

    /// Reads an identifier from text: surrounding whitespace is dropped,
    /// and what is left must be a decimal number other than zero.
    pub fn from_str(s: &str) -> (r: Result<Self, CpcIdError>)
        ensures
            result_view(r) == parse_id(s@),
    {
        match read_number(s) {
            None => Err(CpcIdError::InvalidFormat(s.to_owned())),
            Some(value) => Self::try_from(value),
        }
    }

    /// The number in decimal, without padding.
    pub fn to_string(&self) -> (r: String)
        ensures
            r@ == decimal(self@ as nat),
    {
        decimal_string(self.0 as u64)
    }
}

/// Why a number or a text is no CpcId.
#[derive(Debug, PartialEq, Eq)]
pub enum CpcIdError {
    /// The number is zero.
    Zero,
    /// The text is no unsigned 32-bit decimal number.
    InvalidFormat(String),
}

impl Clone for CpcIdError {
    fn clone(&self) -> (r: Self)
        ensures
            r@ == self@,
    {
        match self {
            CpcIdError::Zero => CpcIdError::Zero,
            CpcIdError::InvalidFormat(text) => CpcIdError::InvalidFormat(text.clone()),
        }
    }
}

impl View for CpcIdError {
    type V = IdFault;

    open spec fn view(&self) -> IdFault {
        match self {
            CpcIdError::Zero => IdFault::Zero,
            CpcIdError::InvalidFormat(text) => IdFault::InvalidFormat(text@),
        }
    }
}

impl DeepView for CpcIdError {
    type V = IdFault;

    open spec fn deep_view(&self) -> IdFault {
        self@
    }
}

impl CpcIdError {
    /// The word for the kind of identifier in reports.
    pub open spec fn kind() -> Seq<char> {
        "CPC"@
    }

    /// The report of the fault, as a sentence.
    pub fn to_string(&self) -> (r: String)
        ensures
            r@ == fault_message(Self::kind(), self@),
    {
        match self {
            CpcIdError::Zero => zero_message("CPC"),
            CpcIdError::InvalidFormat(text) => format_message("CPC", text.as_str()),
        }
    }
}

/// A community postal box.
#[derive(Debug, PartialEq, Eq)]
pub struct Cpc {
    /// Identifier of the box.
    pub id: CpcId,
    /// Federative unit.
    pub uf: Uf,
    /// The locality that the box serves.
    pub locality_id: LocalityId,
    /// Name of the box.
    pub name: String,
    /// Address text.
    pub address: String,
    /// Postal code.
    pub cep: String,
}

/// The mathematical value of a [`Cpc`].
pub struct CpcView {
    pub id: u32,
    pub uf: Uf,
    pub locality_id: u32,
    pub name: Seq<char>,
    pub address: Seq<char>,
    pub cep: Seq<char>,
}

impl View for Cpc {
    type V = CpcView;

    open spec fn view(&self) -> CpcView {
        CpcView {
            id: self.id@,
            uf: self.uf,
            locality_id: self.locality_id@,
            name: self.name@,
            address: self.address@,
            cep: self.cep@,
        }
    }
}

impl DeepView for Cpc {
    type V = CpcView;

    open spec fn deep_view(&self) -> CpcView {
        self@
    }
}

impl Clone for Cpc {
    fn clone(&self) -> (r: Self)
        ensures
            r@ == self@,
    {
        Cpc {
            id: self.id,
            uf: self.uf,
            locality_id: self.locality_id,
            name: self.name.clone(),
            address: self.address.clone(),
            cep: self.cep.clone(),
        }
    }
}

} // verus!
