use edne::models::cpc::{CpcId, CpcIdError};

#[test]
fn cpc_id_new() {
    let id = CpcId::new(1285);
    assert_eq!(id.get(), 1285);
}

#[test]
fn cpc_id_try_from_valid() {
    let id = CpcId::try_from(3788).unwrap();
    assert_eq!(id.get(), 3788);
}

#[test]
fn cpc_id_try_from_zero() {
    let result = CpcId::try_from(0);
    assert!(result.is_err());
    assert_eq!(result.unwrap_err(), CpcIdError::Zero);
}

#[test]
fn cpc_id_from_str_valid() {
    let id = CpcId::from_str("1285").unwrap();
    assert_eq!(id.get(), 1285);
}

#[test]
fn cpc_id_from_str_invalid() {
    let result = CpcId::from_str("abc");
    assert!(result.is_err());
}

#[test]
fn cpc_id_from_str_zero() {
    let result = CpcId::from_str("0");
    assert!(result.is_err());
    assert_eq!(result.unwrap_err(), CpcIdError::Zero);
}

#[test]
fn cpc_id_display() {
    let id = CpcId::new(1285);
    assert_eq!(id.to_string(), "1285");
}
