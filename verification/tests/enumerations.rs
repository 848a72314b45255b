use edne::models::address::{StreetTypeIndicator, StreetTypeIndicatorError};
use edne::models::locality::{
    LocalitySituation, LocalitySituationError, LocalityType, LocalityTypeError,
};
use edne::models::operational_unit::{PostBoxIndicator, PostBoxIndicatorError};
use edne::models::uf::{Uf, UfParseError};

#[test]
fn state_code_ignores_case() {
    assert_eq!(Uf::from_str("sp").unwrap(), Uf::SP);
    assert_eq!(Uf::from_str("Sp").unwrap(), Uf::SP);
    assert_eq!(Uf::from_str("sP").unwrap(), Uf::SP);
    assert_eq!(Uf::from_str("SP").unwrap(), Uf::SP);
    assert_eq!(Uf::from_str("\tsp\r\n").unwrap(), Uf::SP);
}

#[test]
fn state_code_length_is_checked_after_trimming() {
    assert_eq!(Uf::from_str("S").unwrap_err(), UfParseError::WrongLength(1));
    assert_eq!(Uf::from_str(" SPX ").unwrap_err(), UfParseError::WrongLength(3));
    assert_eq!(Uf::from_str("S P").unwrap_err(), UfParseError::WrongLength(3));
    assert_eq!(Uf::from_str("São Paulo").unwrap_err(), UfParseError::WrongLength(9));
}

#[test]
fn empty_state_code_is_its_own_fault() {
    assert_eq!(Uf::from_str("").unwrap_err(), UfParseError::Empty);
    assert_eq!(Uf::from_str("   ").unwrap_err(), UfParseError::Empty);
    assert_eq!(Uf::from_str("\u{a0}\t").unwrap_err(), UfParseError::Empty);
}

#[test]
fn unknown_state_code_is_handed_back_trimmed() {
    assert_eq!(Uf::from_str(" zz ").unwrap_err(), UfParseError::InvalidCode("zz".to_string()));
    assert_eq!(Uf::from_str("S1").unwrap_err(), UfParseError::InvalidCode("S1".to_string()));
    assert_eq!(Uf::from_str("ÃC").unwrap_err(), UfParseError::InvalidCode("ÃC".to_string()));
}

#[test]
fn every_state_code_reads_back() {
    let all = Uf::iter();
    assert_eq!(all.len(), 27);
    assert_eq!(all[0], Uf::AC);
    assert_eq!(all[26], Uf::TO);
    for uf in all {
        let code = uf.to_string();
        assert_eq!(code.len(), 2);
        assert_eq!(code, uf.abbreviation());
        assert_eq!(Uf::from_str(&code).unwrap(), uf);
        assert_eq!(Uf::from_str(&code.to_lowercase()).unwrap(), uf);
    }
}

#[test]
fn state_names_keep_their_accents() {
    assert_eq!(Uf::AP.full_name(), "Amapá");
    assert_eq!(Uf::CE.full_name(), "Ceará");
    assert_eq!(Uf::MS.full_name(), "Mato Grosso do Sul");
    assert_eq!(Uf::RO.full_name(), "Rondônia");
    assert_eq!(Uf::TO.full_name(), "Tocantins");
}

#[test]
fn state_code_faults_are_reported() {
    assert_eq!(UfParseError::Empty.to_string(), "UF code is empty");
    assert_eq!(UfParseError::WrongLength(13).to_string(), "UF code must have length 2, got 13");
    assert_eq!(UfParseError::InvalidCode("ZZ".to_string()).to_string(), "invalid UF code: ZZ");
}

#[test]
fn states_are_ordered_as_declared() {
    assert!(Uf::AC < Uf::AL);
    assert!(Uf::SP < Uf::SE);
    let mut some = vec![Uf::TO, Uf::AC, Uf::MG];
    some.sort();
    assert_eq!(some, vec![Uf::AC, Uf::MG, Uf::TO]);
}

#[test]
fn situation_codes_are_digits_matched_literally() {
    assert_eq!(LocalitySituation::from_str(" 2 ").unwrap(), LocalitySituation::DistrictOrVillage);
    assert_eq!(LocalitySituation::from_str("3").unwrap(), LocalitySituation::CodingInProgress);
    assert_eq!(
        LocalitySituation::from_str(" 4 ").unwrap_err(),
        LocalitySituationError::InvalidCode("4".to_string())
    );
    assert_eq!(
        LocalitySituation::from_str("01").unwrap_err(),
        LocalitySituationError::InvalidCode("01".to_string())
    );
    assert_eq!(
        LocalitySituation::from_str("").unwrap_err(),
        LocalitySituationError::InvalidCode("".to_string())
    );
    assert_eq!(LocalitySituation::DistrictOrVillage.to_string(), "2");
    assert_eq!(LocalitySituation::CodingInProgress.to_string(), "3");
}

#[test]
fn letter_codes_ignore_case_and_reject_in_upper_case() {
    assert_eq!(LocalityType::from_str(" p ").unwrap(), LocalityType::Village);
    assert_eq!(
        LocalityType::from_str(" x ").unwrap_err(),
        LocalityTypeError::InvalidCode("X".to_string())
    );
    assert_eq!(
        LocalityType::from_str("dm").unwrap_err(),
        LocalityTypeError::InvalidCode("DM".to_string())
    );
    assert_eq!(StreetTypeIndicator::from_str("n").unwrap(), StreetTypeIndicator::No);
    assert_eq!(
        StreetTypeIndicator::from_str("sim").unwrap_err(),
        StreetTypeIndicatorError::InvalidCode("SIM".to_string())
    );
    assert_eq!(
        PostBoxIndicator::from_str("").unwrap_err(),
        PostBoxIndicatorError::InvalidCode("".to_string())
    );
    assert_eq!(StreetTypeIndicator::Yes.to_string(), "S");
    assert_eq!(StreetTypeIndicator::No.to_string(), "N");
    assert_eq!(PostBoxIndicator::Yes.to_string(), "S");
    assert_eq!(PostBoxIndicator::No.to_string(), "N");
}

#[test]
fn code_faults_are_reported_by_enumeration() {
    assert_eq!(
        LocalitySituationError::InvalidCode("9".to_string()).to_string(),
        "invalid locality situation code: '9'"
    );
    assert_eq!(
        LocalityTypeError::InvalidCode("X".to_string()).to_string(),
        "invalid locality type code: 'X'"
    );
    assert_eq!(
        StreetTypeIndicatorError::InvalidCode("X".to_string()).to_string(),
        "invalid street type indicator code: 'X'"
    );
    assert_eq!(
        PostBoxIndicatorError::InvalidCode("X".to_string()).to_string(),
        "invalid post box indicator code: 'X'"
    );
}
