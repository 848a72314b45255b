use edne::models::address::{AddressId, StreetTypeIndicator};
use edne::models::{LocalityId, NeighborhoodId, Uf};
use edne::parser::addresses::Addresses;

const SAMPLE_DATA: &str = "\
1@AC@16@47@@Nelson Mesquita@@69918703@Rua@S@R Nelson Mesquita
1001866@AC@16@55447@@24 de Dezembro@@69918142@Rua@S@R 24 de Dezembro
1004886@AC@16@32@@Manoel Cezário@@69900816@Travessa@S@Tv Manoel Cezário
1004887@AC@16@55437@@São José@@69915361@Travessa@S@Tv S José
1004888@AC@16@16@@Colombo@@69905027@Beco@S@Bc Colombo
1004889@AC@16@30@@José Pinho@@69915536@Rua@S@R José Pinho
1004890@AC@16@30@@Fátima Maia@@69915572@Rua@S@R Fátima Maia
1004891@AC@16@55480@@Hortencia da Silva@@69922227@Rua@S@R Hortencia da Silva
1004892@AC@16@55480@@Tufi@@69922250@Rua@S@R Tufi
1004893@AC@16@55480@@Flor de Jardim@@69922253@Rua@S@R Flor de Jd
1004894@AC@16@55480@@Raimundo Gomes@@69922256@Rua@S@R Raimundo Gomes
1004895@AC@16@55480@@Aquiles Peret@@69922259@Rua@S@R Aquiles Peret
1004896@AC@16@55422@@11 de Agosto@@69911335@Travessa@S@Tv 11 de Agosto
1004897@AC@16@9@@Santa Inês@@69901314@Beco@S@Bc Sta Inês
1004898@AC@16@55441@@Odim de Aguiar Queiroz@@69917651@Travessa@S@Tv Odim de A Queiroz";

#[test]
fn addresses_parse_sample_data() {
    let addresses = Addresses::from_utf8(SAMPLE_DATA.to_string()).unwrap();
    assert_eq!(addresses.len(), 15);
}

#[test]
fn parse_address_basic() {
    let addresses = Addresses::from_utf8(SAMPLE_DATA.to_string()).unwrap();
    let id = AddressId::new(1);
    let addr = addresses.get(&id).unwrap();

    assert_eq!(addr.id, id);
    assert_eq!(addr.uf, Uf::AC);
    assert_eq!(addr.locality_id, LocalityId::new(16));
    assert_eq!(addr.neighborhood_id_start, NeighborhoodId::new(47));
    assert_eq!(addr.neighborhood_id_end, None);
    assert_eq!(addr.name, "Nelson Mesquita");
    assert_eq!(addr.complement, None);
    assert_eq!(addr.cep, "69918703");
    assert_eq!(addr.street_type, "Rua");
    assert_eq!(addr.street_type_indicator, Some(StreetTypeIndicator::Yes));
    assert_eq!(
        addr.abbreviated_name,
        Some("R Nelson Mesquita".to_string())
    );
}

#[test]
fn parse_street_types() {
    let addresses = Addresses::from_utf8(SAMPLE_DATA.to_string()).unwrap();

    let rua_count =
        addresses.iter().into_iter().filter(|(_, a)| a.street_type == "Rua").count();
    let travessa_count = addresses
        .iter().into_iter().filter(|(_, a)| a.street_type == "Travessa")
        .count();
    let beco_count =
        addresses.iter().into_iter().filter(|(_, a)| a.street_type == "Beco").count();

    assert_eq!(rua_count, 9);
    assert_eq!(travessa_count, 4);
    assert_eq!(beco_count, 2);
}

#[test]
fn addresses_parse_invalid_field_count() {
    let invalid = "1@AC@16@47@@Nelson Mesquita@@69918703@Rua";
    let result = Addresses::from_utf8(invalid.to_string());
    assert!(result.is_err());
}
