use edne::models::neighborhood::{NeighborhoodId, NeighborhoodIdError};

#[test]
fn neighborhood_id_new() {
    let id = NeighborhoodId::new(55400);
    assert_eq!(id.get(), 55400);
}

#[test]
fn neighborhood_id_try_from_valid() {
    let id = NeighborhoodId::try_from(39321).unwrap();
    assert_eq!(id.get(), 39321);
}

#[test]
fn neighborhood_id_try_from_zero() {
    let result = NeighborhoodId::try_from(0);
    assert!(result.is_err());
    assert_eq!(result.unwrap_err(), NeighborhoodIdError::Zero);
}

#[test]
fn neighborhood_id_from_str_valid() {
    let id = NeighborhoodId::from_str("55400").unwrap();
    assert_eq!(id.get(), 55400);
}

#[test]
fn neighborhood_id_from_str_invalid() {
    let result = NeighborhoodId::from_str("abc");
    assert!(result.is_err());
}

#[test]
fn neighborhood_id_from_str_zero() {
    let result = NeighborhoodId::from_str("0");
    assert!(result.is_err());
    assert_eq!(result.unwrap_err(), NeighborhoodIdError::Zero);
}

#[test]
fn neighborhood_id_display() {
    let id = NeighborhoodId::new(55400);
    assert_eq!(id.to_string(), "55400");
}
