use edne::models::address::{AddressId, AddressIdError};
use edne::models::big_user::{BigUserId, BigUserIdError, StreetId, StreetIdError};
use edne::models::cpc::{CpcId, CpcIdError};
use edne::models::locality::{LocalityId, LocalityIdError};
use edne::models::neighborhood::{NeighborhoodId, NeighborhoodIdError};
use edne::models::operational_unit::{OperationalUnitId, OperationalUnitIdError};

#[test]
fn zero_text_is_rejected_by_every_identifier() {
    assert_eq!(LocalityId::from_str("0").unwrap_err(), LocalityIdError::Zero);
    assert_eq!(NeighborhoodId::from_str("0").unwrap_err(), NeighborhoodIdError::Zero);
    assert_eq!(AddressId::from_str("0").unwrap_err(), AddressIdError::Zero);
    assert_eq!(BigUserId::from_str("0").unwrap_err(), BigUserIdError::Zero);
    assert_eq!(StreetId::from_str("0").unwrap_err(), StreetIdError::Zero);
    assert_eq!(OperationalUnitId::from_str("0").unwrap_err(), OperationalUnitIdError::Zero);
    assert_eq!(CpcId::from_str("0").unwrap_err(), CpcIdError::Zero);
}

#[test]
fn zero_in_other_spellings_is_still_zero() {
    assert_eq!(LocalityId::from_str(" 0 ").unwrap_err(), LocalityIdError::Zero);
    assert_eq!(LocalityId::from_str("000").unwrap_err(), LocalityIdError::Zero);
    assert_eq!(LocalityId::from_str("+0").unwrap_err(), LocalityIdError::Zero);
    assert_eq!(LocalityId::try_from(0).unwrap_err(), LocalityIdError::Zero);
}

#[test]
fn identifier_text_is_trimmed_and_read_in_decimal() {
    assert_eq!(LocalityId::from_str("  16\t").unwrap().get(), 16);
    assert_eq!(LocalityId::from_str("\u{a0}16\u{2003}").unwrap().get(), 16);
    assert_eq!(LocalityId::from_str("+7").unwrap().get(), 7);
    assert_eq!(LocalityId::from_str("007").unwrap().get(), 7);
    assert_eq!(LocalityId::from_str("4294967295").unwrap().get(), u32::MAX);
}

#[test]
fn malformed_identifier_text_is_handed_back_untrimmed() {
    let cases = ["", " ", "abc", "-1", "1.5", "1 2", "4294967296", "+", "++1", "0x10", "١٢"];
    for text in cases {
        assert_eq!(
            LocalityId::from_str(text).unwrap_err(),
            LocalityIdError::InvalidFormat(text.to_string()),
            "text {:?}",
            text
        );
    }
    assert_eq!(
        CpcId::from_str(" x ").unwrap_err(),
        CpcIdError::InvalidFormat(" x ".to_string())
    );
}

#[test]
fn identifiers_are_written_in_decimal_without_padding() {
    assert_eq!(AddressId::new(1).to_string(), "1");
    assert_eq!(BigUserId::new(41739).to_string(), "41739");
    assert_eq!(StreetId::new(949512).to_string(), "949512");
    assert_eq!(OperationalUnitId::new(u32::MAX).to_string(), "4294967295");
    assert_eq!(LocalityId::from_str(" 0042 ").unwrap().to_string(), "42");
}

#[test]
fn written_identifier_reads_back() {
    for n in [1u32, 9, 10, 99, 100, 12345, 1_000_000, u32::MAX] {
        let id = NeighborhoodId::new(n);
        assert_eq!(NeighborhoodId::from_str(&id.to_string()).unwrap(), id);
    }
}

#[test]
fn identifier_faults_are_reported_by_kind() {
    assert_eq!(LocalityIdError::Zero.to_string(), "locality ID cannot be zero");
    assert_eq!(
        LocalityIdError::InvalidFormat("abc".to_string()).to_string(),
        "invalid locality ID format: 'abc'"
    );
    assert_eq!(NeighborhoodIdError::Zero.to_string(), "neighborhood ID cannot be zero");
    assert_eq!(AddressIdError::Zero.to_string(), "address ID cannot be zero");
    assert_eq!(BigUserIdError::Zero.to_string(), "big user ID cannot be zero");
    assert_eq!(
        StreetIdError::InvalidFormat(" 1x".to_string()).to_string(),
        "invalid street ID format: ' 1x'"
    );
    assert_eq!(OperationalUnitIdError::Zero.to_string(), "operational unit ID cannot be zero");
    assert_eq!(
        CpcIdError::InvalidFormat("".to_string()).to_string(),
        "invalid CPC ID format: ''"
    );
}

#[test]
fn identifiers_order_and_compare_by_number() {
    assert!(LocalityId::new(2) < LocalityId::new(10));
    assert_eq!(LocalityId::new(5), LocalityId::try_from(5).unwrap());
    assert_ne!(LocalityId::new(5), LocalityId::new(6));
}

#[test]
fn identifier_faults_can_be_copied() {
    let fault = StreetIdError::InvalidFormat("x".to_string());
    assert_eq!(fault.clone(), fault);
    assert_eq!(CpcIdError::Zero.clone(), CpcIdError::Zero);
}
