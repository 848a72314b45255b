use edne::models::operational_unit::{OperationalUnitId, PostBoxIndicator};

#[test]
fn operational_unit_id_new() {
    let id = OperationalUnitId::new(48437);
    assert_eq!(id.get(), 48437);
}

#[test]
fn operational_unit_id_try_from_zero() {
    let result = OperationalUnitId::try_from(0);
    assert!(result.is_err());
}

#[test]
fn post_box_indicator_from_str() {
    assert_eq!(
        PostBoxIndicator::from_str("S").unwrap(),
        PostBoxIndicator::Yes
    );
    assert_eq!(
        PostBoxIndicator::from_str("N").unwrap(),
        PostBoxIndicator::No
    );
    assert_eq!(
        PostBoxIndicator::from_str("s").unwrap(),
        PostBoxIndicator::Yes
    );
    assert_eq!(
        PostBoxIndicator::from_str("n").unwrap(),
        PostBoxIndicator::No
    );
}

#[test]
fn post_box_indicator_invalid() {
    let result = PostBoxIndicator::from_str("X");
    assert!(result.is_err());
}
