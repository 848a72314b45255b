use edne::models::locality::{LocalityId, LocalitySituation, LocalityType};
use edne::models::Uf;
use edne::parser::base::ParseError;
use edne::parser::localities::Localities;

const SAMPLE_DATA: &str = "\
15321@AC@Terra Indgena Mamoadate@69939810@0@P@2@Terra Ind Mamoadate@
13@AC@Plcido de Castro@69928000@0@M@@Plcido Castro@1200385
15323@AC@Terra Indgena Kampa e Isolados do Rio Envira@69969820@0@P@8@Terra Ind K I R Envira@
16@AC@Rio Branco@@1@M@@Rio Branco@1200401
12@AC@Marechal Thaumaturgo@69983000@0@M@@Mal Thaumaturgo@1200351";

#[test]
fn localities_parse_sample_data() {
    let localities =
        Localities::from_utf8(SAMPLE_DATA.to_string()).unwrap();
    assert_eq!(localities.len(), 5);
}

#[test]
fn parse_locality_with_all_fields() {
    let localities =
        Localities::from_utf8(SAMPLE_DATA.to_string()).unwrap();
    let id = LocalityId::new(13);
    let locality = localities.get(&id).unwrap();

    assert_eq!(locality.id, id);
    assert_eq!(locality.uf, Uf::AC);
    assert_eq!(locality.name, "Plcido de Castro");
    assert_eq!(locality.cep, Some("69928000".to_string()));
    assert_eq!(locality.situation, LocalitySituation::NotCoded);
    assert_eq!(locality.locality_type, LocalityType::Municipality);
    assert_eq!(locality.subordinate_to, None);
    assert_eq!(
        locality.abbreviated_name,
        Some("Plcido Castro".to_string())
    );
    assert_eq!(locality.ibge_code, Some("1200385".to_string()));
}

#[test]
fn parse_locality_with_optional_fields_empty() {
    let localities =
        Localities::from_utf8(SAMPLE_DATA.to_string()).unwrap();
    let id = LocalityId::new(16);
    let locality = localities.get(&id).unwrap();

    assert_eq!(locality.id, id);
    assert_eq!(locality.uf, Uf::AC);
    assert_eq!(locality.name, "Rio Branco");
    assert_eq!(locality.cep, None);
    assert_eq!(locality.situation, LocalitySituation::Coded);
    assert_eq!(locality.locality_type, LocalityType::Municipality);
    assert_eq!(locality.subordinate_to, None);
    assert_eq!(locality.abbreviated_name, Some("Rio Branco".to_string()));
    assert_eq!(locality.ibge_code, Some("1200401".to_string()));
}

#[test]
fn parse_locality_with_subordinate() {
    let localities =
        Localities::from_utf8(SAMPLE_DATA.to_string()).unwrap();
    let id = LocalityId::new(15321);
    let locality = localities.get(&id).unwrap();

    assert_eq!(locality.subordinate_to, Some(LocalityId::new(2)));
    assert_eq!(locality.locality_type, LocalityType::Village);
}

#[test]
fn localities_parse_invalid_field_count() {
    let invalid = "15321@AC@Terra Indgena@69939810@0@P";
    let result = Localities::from_utf8(invalid.to_string());
    assert!(result.is_err());
    match result.unwrap_err() {
        ParseError::FieldCount { expected, got, .. } => {
            assert_eq!(expected, 9);
            assert_eq!(got, 6);
        }
        _ => panic!("Expected FieldCount error"),
    }
}

#[test]
fn localities_parse_invalid_id() {
    let invalid = "abc@AC@Terra Indgena@69939810@0@P@2@Terra Ind@@";
    let result = Localities::from_utf8(invalid.to_string());
    assert!(result.is_err());
}

#[test]
fn localities_parse_invalid_uf() {
    let invalid = "15321@ZZ@Terra Indgena@69939810@0@P@2@Terra Ind@@";
    let result = Localities::from_utf8(invalid.to_string());
    assert!(result.is_err());
}

#[test]
fn parse_invalid_situation() {
    let invalid = "15321@AC@Terra Indgena@69939810@9@P@2@Terra Ind@@";
    let result = Localities::from_utf8(invalid.to_string());
    assert!(result.is_err());
}

#[test]
fn parse_invalid_type() {
    let invalid = "15321@AC@Terra Indgena@69939810@0@X@2@Terra Ind@@";
    let result = Localities::from_utf8(invalid.to_string());
    assert!(result.is_err());
}

#[test]
fn localities_parse_empty_required_field() {
    let invalid = "15321@@Terra Indgena@69939810@0@P@2@Terra Ind@";
    let result = Localities::from_utf8(invalid.to_string());
    assert!(result.is_err());
    match result.unwrap_err() {
        ParseError::EmptyField { field_name, .. } => {
            assert_eq!(field_name, "UFE_SG");
        }
        _ => panic!("Expected EmptyField error"),
    }
}

#[test]
fn localities_iterator() {
    let localities =
        Localities::from_utf8(SAMPLE_DATA.to_string()).unwrap();
    let count = localities.iter().len();
    assert_eq!(count, 5);
}

#[test]
fn localities_get_nonexistent() {
    let localities =
        Localities::from_utf8(SAMPLE_DATA.to_string()).unwrap();
    let result = localities.get(&LocalityId::new(99999));
    assert!(result.is_none());
}
