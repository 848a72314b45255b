use edne::models::uf::{Uf, UfParseError};
use std::collections::HashSet;

/// Ensures that valid UF codes can be parsed correctly.
#[test]
fn uf_parses_valid() {
    assert_eq!(Uf::from_str("SP").unwrap(), Uf::SP);
    assert_eq!(Uf::from_str("rj").unwrap(), Uf::RJ);
    assert_eq!(Uf::from_str(" ba ").unwrap(), Uf::BA);
}

/// Ensures that parsing fails for empty strings and invalid codes.
#[test]
fn uf_parsing_errors() {
    assert!(matches!(Uf::from_str(""), Err(UfParseError::Empty)));
    assert!(matches!(
        Uf::from_str("S"),
        Err(UfParseError::WrongLength(1))
    ));
    assert!(matches!(
        Uf::from_str("XYZ"),
        Err(UfParseError::WrongLength(3))
    ));
    assert!(matches!(
        Uf::from_str("ZZ"),
        Err(UfParseError::InvalidCode(_))
    ));
}

/// Validates the display implementation.
#[test]
fn uf_display_abbreviation() {
    assert_eq!(Uf::SP.to_string(), "SP");
    assert_eq!(Uf::RR.to_string(), "RR");
}

/// Ensures that the full name mapping works correctly.
#[test]
fn uf_full_name_mapping() {
    assert_eq!(Uf::SP.full_name(), "São Paulo");
    assert_eq!(Uf::RJ.full_name(), "Rio de Janeiro");
    assert_eq!(Uf::DF.full_name(), "Distrito Federal");
}

/// Validates that iteration covers all 27 federative units with no duplicates.
#[test]
fn uf_iteration_covers_all() {
    let all: HashSet<_> = Uf::iter().into_iter().collect();
    assert_eq!(all.len(), 27, "Expected 27 federative units");
    assert!(all.contains(&Uf::SP));
    assert!(all.contains(&Uf::AC));
    assert!(all.contains(&Uf::TO));
}
