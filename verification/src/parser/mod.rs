//! Parsers for the source files, one collection per record kind.

pub mod addresses;
pub mod base;
pub mod big_users;
pub mod collect;
pub mod cpcs;
pub mod fields;
pub mod localities;
pub mod locality;
pub mod neighborhoods;
pub mod operational_units;
