//! The postal-code index: one entry per postal code, merged from the six
//! record kinds in a fixed order of precedence.

pub mod builder;
pub mod index;
pub mod precedence;

pub use builder::CepLookupBuilder;
pub use index::{Cep, CepInfo, CepLookup, CepType};
