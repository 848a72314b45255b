//! Text primitives shared by every parser in the crate.
//!
//! All specifications are stated over `Seq<char>`, the view of `str` and
//! `String`. The executable functions work on `&str`, `String` and
//! `Vec<char>` and are proved against those specifications.

pub mod space;
pub mod split;
pub mod lines;
pub mod decimal;
pub mod ascii;
