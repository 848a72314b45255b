//! Parser and postal-code index for the national address directory, which
//! comes as text files with one record per line and `@` between the fields.
//!
//! [`parser`] turns each of the six source files into a collection of typed
//! records, and [`cep_lookup`] merges the collections into one index from
//! postal code to address. [`models`] holds the record types and [`text`]
//! the text primitives that the parsers rest on. [`model`] is a reduced
//! model of the localities file, with a reader of its own in
//! [`parser::locality`].
//!
//! Every function states what it computes over the mathematical value of
//! its arguments: a text is the sequence of its characters, a record its
//! fields, a collection the map from identifier to record.

pub mod cep_lookup;
pub mod model;
pub mod models;
pub mod outcome;
pub mod parser;
pub mod text;

pub use models::{
    Address, AddressId, BigUser, BigUserId, Cpc, CpcId, Locality, LocalityId, Neighborhood,
    NeighborhoodId, OperationalUnit, OperationalUnitId, PostBoxIndicator, StreetId,
    StreetTypeIndicator, Uf,
};
pub use parser::base::ParseError;
