use edne::models::address::{AddressId, StreetTypeIndicator};

#[test]
fn address_id_new() {
    let id = AddressId::new(1);
    assert_eq!(id.get(), 1);
}

#[test]
fn address_id_try_from_zero() {
    let result = AddressId::try_from(0);
    assert!(result.is_err());
}

#[test]
fn street_type_indicator_from_str() {
    assert_eq!(
        StreetTypeIndicator::from_str("S").unwrap(),
        StreetTypeIndicator::Yes
    );
    assert_eq!(
        StreetTypeIndicator::from_str("N").unwrap(),
        StreetTypeIndicator::No
    );
    assert_eq!(
        StreetTypeIndicator::from_str("s").unwrap(),
        StreetTypeIndicator::Yes
    );
}

#[test]
fn street_type_indicator_invalid() {
    let result = StreetTypeIndicator::from_str("X");
    assert!(result.is_err());
}
