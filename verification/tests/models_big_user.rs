use edne::models::big_user::{BigUserId, BigUserIdError, StreetId, StreetIdError};

#[test]
fn big_user_id_new() {
    let id = BigUserId::new(41739);
    assert_eq!(id.get(), 41739);
}

#[test]
fn big_user_id_try_from_zero() {
    let result = BigUserId::try_from(0);
    assert!(result.is_err());
    assert_eq!(result.unwrap_err(), BigUserIdError::Zero);
}

#[test]
fn street_id_new() {
    let id = StreetId::new(949512);
    assert_eq!(id.get(), 949512);
}

#[test]
fn street_id_try_from_zero() {
    let result = StreetId::try_from(0);
    assert!(result.is_err());
    assert_eq!(result.unwrap_err(), StreetIdError::Zero);
}
