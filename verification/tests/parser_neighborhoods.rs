use edne::models::neighborhood::NeighborhoodId;
use edne::models::{LocalityId, Uf};
use edne::parser::base::ParseError;
use edne::parser::neighborhoods::Neighborhoods;

const SAMPLE_DATA: &str = "\
55400@AC@16@Loteamento Jaguar@Lot Jaguar
55402@AC@16@Loteamento Santa Luzia@Lot Sta Luzia
55403@AC@16@Habitasa@Habitasa
55404@AC@16@Baixada da Habitasa@Baixada Habitasa
55405@AC@16@Baixada da Cadeia Velha@Baixada C Velha
39321@AC@4@Centro@Centro
39322@AC@14@Centro@Centro
39323@AC@5@Centro@Centro
39324@AC@20@Centro@Centro
39325@AC@13@Centro@Centro
39326@AC@22@Centro@Centro
39327@AC@3@Centro@Centro
39328@AC@7@Centro@Centro
39329@AC@2@Centro@Centro
39330@AC@19@Centro@Centro";

#[test]
fn neighborhoods_parse_sample_data() {
    let neighborhoods =
        Neighborhoods::from_utf8(SAMPLE_DATA.to_string()).unwrap();
    assert_eq!(neighborhoods.len(), 15);
}

#[test]
fn parse_neighborhood_with_all_fields() {
    let neighborhoods =
        Neighborhoods::from_utf8(SAMPLE_DATA.to_string()).unwrap();
    let id = NeighborhoodId::new(55400);
    let neighborhood = neighborhoods.get(&id).unwrap();

    assert_eq!(neighborhood.id, id);
    assert_eq!(neighborhood.uf, Uf::AC);
    assert_eq!(neighborhood.locality_id, LocalityId::new(16));
    assert_eq!(neighborhood.name, "Loteamento Jaguar");
    assert_eq!(
        neighborhood.abbreviated_name,
        Some("Lot Jaguar".to_string())
    );
}

#[test]
fn parse_neighborhood_centro() {
    let neighborhoods =
        Neighborhoods::from_utf8(SAMPLE_DATA.to_string()).unwrap();
    let id = NeighborhoodId::new(39321);
    let neighborhood = neighborhoods.get(&id).unwrap();

    assert_eq!(neighborhood.id, id);
    assert_eq!(neighborhood.uf, Uf::AC);
    assert_eq!(neighborhood.locality_id, LocalityId::new(4));
    assert_eq!(neighborhood.name, "Centro");
    assert_eq!(neighborhood.abbreviated_name, Some("Centro".to_string()));
}

#[test]
fn parse_all_centro_neighborhoods() {
    let neighborhoods =
        Neighborhoods::from_utf8(SAMPLE_DATA.to_string()).unwrap();
    let centro_count =
        neighborhoods.iter().into_iter().filter(|(_, n)| n.name == "Centro").count();
    assert_eq!(centro_count, 10);
}

#[test]
fn parse_neighborhood_same_locality() {
    let neighborhoods =
        Neighborhoods::from_utf8(SAMPLE_DATA.to_string()).unwrap();
    let loc_16_count = neighborhoods
        .iter().into_iter().filter(|(_, n)| n.locality_id == LocalityId::new(16))
        .count();
    assert_eq!(loc_16_count, 5);
}

#[test]
fn neighborhoods_parse_invalid_field_count() {
    let invalid = "55400@AC@16@Loteamento Jaguar";
    let result = Neighborhoods::from_utf8(invalid.to_string());
    assert!(result.is_err());
    match result.unwrap_err() {
        ParseError::FieldCount { expected, got, .. } => {
            assert_eq!(expected, 5);
            assert_eq!(got, 4);
        }
        _ => panic!("Expected FieldCount error"),
    }
}

#[test]
fn neighborhoods_parse_invalid_id() {
    let invalid = "abc@AC@16@Loteamento Jaguar@Lot Jaguar";
    let result = Neighborhoods::from_utf8(invalid.to_string());
    assert!(result.is_err());
}

#[test]
fn neighborhoods_parse_invalid_uf() {
    let invalid = "55400@ZZ@16@Loteamento Jaguar@Lot Jaguar";
    let result = Neighborhoods::from_utf8(invalid.to_string());
    assert!(result.is_err());
}

#[test]
fn neighborhoods_parse_invalid_locality_id() {
    let invalid = "55400@AC@abc@Loteamento Jaguar@Lot Jaguar";
    let result = Neighborhoods::from_utf8(invalid.to_string());
    assert!(result.is_err());
}

#[test]
fn neighborhoods_parse_empty_required_field() {
    let invalid = "55400@AC@16@@Lot Jaguar";
    let result = Neighborhoods::from_utf8(invalid.to_string());
    assert!(result.is_err());
    match result.unwrap_err() {
        ParseError::EmptyField { field_name, .. } => {
            assert_eq!(field_name, "BAI_NO");
        }
        _ => panic!("Expected EmptyField error"),
    }
}

#[test]
fn parse_without_abbreviation() {
    let data = "55400@AC@16@Loteamento Jaguar@";
    let neighborhoods =
        Neighborhoods::from_utf8(data.to_string()).unwrap();
    let id = NeighborhoodId::new(55400);
    let neighborhood = neighborhoods.get(&id).unwrap();
    assert_eq!(neighborhood.abbreviated_name, None);
}

#[test]
fn neighborhoods_iterator() {
    let neighborhoods =
        Neighborhoods::from_utf8(SAMPLE_DATA.to_string()).unwrap();
    let count = neighborhoods.iter().len();
    assert_eq!(count, 15);
}

#[test]
fn neighborhoods_get_nonexistent() {
    let neighborhoods =
        Neighborhoods::from_utf8(SAMPLE_DATA.to_string()).unwrap();
    let result = neighborhoods.get(&NeighborhoodId::new(99999));
    assert!(result.is_none());
}
