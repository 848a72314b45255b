use edne::models::locality::{LocalityId, LocalityIdError, LocalitySituation, LocalityType};

#[test]
fn locality_id_new() {
    let id = LocalityId::new(12345);
    assert_eq!(id.get(), 12345);
}

#[test]
fn locality_id_try_from_valid() {
    let id = LocalityId::try_from(100).unwrap();
    assert_eq!(id.get(), 100);
}

#[test]
fn locality_id_try_from_zero() {
    let result = LocalityId::try_from(0);
    assert!(result.is_err());
    assert_eq!(result.unwrap_err(), LocalityIdError::Zero);
}

#[test]
fn locality_id_from_str_valid() {
    let id = LocalityId::from_str("12345").unwrap();
    assert_eq!(id.get(), 12345);
}

#[test]
fn locality_id_from_str_invalid() {
    let result = LocalityId::from_str("abc");
    assert!(result.is_err());
}

#[test]
fn locality_id_from_str_zero() {
    let result = LocalityId::from_str("0");
    assert!(result.is_err());
    assert_eq!(result.unwrap_err(), LocalityIdError::Zero);
}

#[test]
fn locality_situation_from_str_valid() {
    assert_eq!(
        LocalitySituation::from_str("0").unwrap(),
        LocalitySituation::NotCoded
    );
    assert_eq!(
        LocalitySituation::from_str("1").unwrap(),
        LocalitySituation::Coded
    );
    assert_eq!(
        LocalitySituation::from_str("2").unwrap(),
        LocalitySituation::DistrictOrVillage
    );
    assert_eq!(
        LocalitySituation::from_str("3").unwrap(),
        LocalitySituation::CodingInProgress
    );
}

#[test]
fn locality_situation_from_str_invalid() {
    let result = LocalitySituation::from_str("4");
    assert!(result.is_err());
}

#[test]
fn locality_type_from_str_valid() {
    assert_eq!(
        LocalityType::from_str("D").unwrap(),
        LocalityType::District
    );
    assert_eq!(
        LocalityType::from_str("M").unwrap(),
        LocalityType::Municipality
    );
    assert_eq!(
        LocalityType::from_str("P").unwrap(),
        LocalityType::Village
    );
    assert_eq!(
        LocalityType::from_str("d").unwrap(),
        LocalityType::District
    );
    assert_eq!(
        LocalityType::from_str("m").unwrap(),
        LocalityType::Municipality
    );
}

#[test]
fn locality_type_from_str_invalid() {
    let result = LocalityType::from_str("X");
    assert!(result.is_err());
}

#[test]
fn locality_id_display() {
    let id = LocalityId::new(12345);
    assert_eq!(id.to_string(), "12345");
}

#[test]
fn locality_situation_display() {
    assert_eq!(LocalitySituation::NotCoded.to_string(), "0");
    assert_eq!(LocalitySituation::Coded.to_string(), "1");
}

#[test]
fn locality_type_display() {
    assert_eq!(LocalityType::District.to_string(), "D");
    assert_eq!(LocalityType::Municipality.to_string(), "M");
    assert_eq!(LocalityType::Village.to_string(), "P");
}
