use edne::cep_lookup::{CepInfo, CepLookup, CepLookupBuilder, CepType};
use edne::models::uf::Uf;
use edne::parser::addresses::Addresses;
use edne::parser::big_users::BigUsers;
use edne::parser::cpcs::Cpcs;
use edne::parser::localities::Localities;
use edne::parser::neighborhoods::Neighborhoods;
use edne::parser::operational_units::OperationalUnits;

fn localities(text: &str) -> Localities {
    Localities::from_utf8(text.to_string()).unwrap()
}

fn info(cep: &str, uf: Uf, locality: &str, type_: CepType) -> CepInfo {
    CepInfo {
        cep: cep.to_string(),
        uf,
        locality: locality.to_string(),
        neighborhood: None,
        address: String::new(),
        complement: None,
        type_,
    }
}

#[test]
fn operational_unit_takes_precedence_over_uncoded_locality() {
    let mut builder = CepLookupBuilder::new();
    builder.add_operational_units(
        OperationalUnits::from_utf8(
            "1@AC@16@17@948034@AC Rio Branco@Avenida Epaminondas, 2858@69900000@S@AC Rio Branco"
                .to_string(),
        )
        .unwrap(),
    );
    builder.add_localities(localities("16@AC@Rio Branco@69900000@0@M@@Rio Branco@1200401"));
    let lookup = builder.build();
    assert_eq!(lookup.len(), 1);
    let entry = lookup.lookup("69900000").unwrap();
    assert_eq!(entry.type_, CepType::OperationalUnit);
    assert_eq!(entry.address, "Avenida Epaminondas, 2858");
    assert_eq!(entry.complement, Some("AC Rio Branco".to_string()));
    assert_eq!(entry.locality, "Rio Branco");
    assert_eq!(entry.neighborhood, None);
    assert_eq!(entry.uf, Uf::AC);
    assert_eq!(entry.cep, "69900000");
}

#[test]
fn the_last_stage_that_offers_a_code_wins() {
    let locality = "16@AC@Rio Branco@70000001@0@M@@@\n17@AC@Bujari@70000002@0@M@@@\n18@AC@Xapuri@70000003@0@M@@@\n19@AC@Feijo@70000004@0@M@@@\n20@AC@Jordao@70000005@0@M@@@";
    let streets = "1@AC@16@47@@Rua Um@@70000002@Rua@N@\n2@AC@16@47@@Rua Dois@@70000003@Rua@N@\n3@AC@16@47@@Rua Tres@@70000004@Rua@N@\n4@AC@16@47@@Rua Quatro@@70000005@Rua@N@";
    let users = "1@AC@16@47@@Usuario@End U@70000003@\n2@AC@16@47@@Usuario@End U@70000004@\n3@AC@16@47@@Usuario@End U@70000005@";
    let units = "1@AC@16@47@@Unidade@End O@70000004@N@\n2@AC@16@47@@Unidade@End O@70000005@N@";
    let boxes = "1@AC@16@Caixa@End C@70000005";
    let mut builder = CepLookupBuilder::default();
    builder.add_cpcs(Cpcs::from_utf8(boxes.to_string()).unwrap());
    builder.add_big_users(BigUsers::from_utf8(users.to_string()).unwrap());
    builder.add_localities(localities(locality));
    builder.add_operational_units(OperationalUnits::from_utf8(units.to_string()).unwrap());
    builder.add_addresses(Addresses::from_utf8(streets.to_string()).unwrap());
    let lookup = builder.build();
    assert_eq!(lookup.len(), 5);
    assert_eq!(lookup.lookup("70000001").unwrap().type_, CepType::UncodedLocality);
    assert_eq!(lookup.lookup("70000002").unwrap().type_, CepType::Street);
    assert_eq!(lookup.lookup("70000003").unwrap().type_, CepType::BigUser);
    assert_eq!(lookup.lookup("70000004").unwrap().type_, CepType::OperationalUnit);
    assert_eq!(lookup.lookup("70000005").unwrap().type_, CepType::Cpc);
    assert_eq!(lookup.lookup("70000001").unwrap().address, "");
    assert_eq!(lookup.lookup("70000002").unwrap().address, "Rua Um");
    assert_eq!(lookup.lookup("70000003").unwrap().address, "End U");
    assert_eq!(lookup.lookup("70000004").unwrap().address, "End O");
    assert_eq!(lookup.lookup("70000005").unwrap().address, "End C");
    assert!(lookup.lookup("70000006").is_none());
}

#[test]
fn street_type_is_shown_where_the_street_says_so() {
    let mut builder = CepLookupBuilder::new();
    builder.add_addresses(
        Addresses::from_utf8(
            "1@AC@16@47@@Nelson Mesquita@@69918703@Rua@S@R Nelson Mesquita\n\
             2@AC@16@47@@Ceará@Lado par@69918704@Avenida@N@\n\
             3@AC@16@47@@Colombo@@69918705@Beco@@"
                .to_string(),
        )
        .unwrap(),
    );
    let lookup = builder.build();
    let shown = lookup.lookup("69918703").unwrap();
    assert_eq!(shown.address, "Rua Nelson Mesquita");
    assert_eq!(shown.type_, CepType::Street);
    assert_eq!(shown.complement, None);
    let alone = lookup.lookup("69918704").unwrap();
    assert_eq!(alone.address, "Ceará");
    assert_eq!(alone.complement, Some("Lado par".to_string()));
    assert_eq!(lookup.lookup("69918705").unwrap().address, "Colombo");
}

#[test]
fn an_unresolved_locality_leaves_the_name_empty() {
    let mut builder = CepLookupBuilder::new();
    builder.add_addresses(
        Addresses::from_utf8("1@AC@16@47@@Nelson Mesquita@@69918703@Rua@S@".to_string()).unwrap(),
    );
    builder.add_cpcs(Cpcs::from_utf8("1@AL@158@Caixa@Quadra 1@57100990".to_string()).unwrap());
    let lookup = builder.build();
    let street = lookup.lookup("69918703").unwrap();
    assert_eq!(street.locality, "");
    assert_eq!(street.neighborhood, None);
    assert_eq!(street.address, "Rua Nelson Mesquita");
    let cpc = lookup.lookup("57100990").unwrap();
    assert_eq!(cpc.locality, "");
    assert_eq!(cpc.complement, Some("Caixa".to_string()));
}

#[test]
fn names_are_resolved_from_the_gathered_collections() {
    let mut builder = CepLookupBuilder::new();
    builder.add_localities(localities("16@AC@Rio Branco@@1@M@@@"));
    builder.add_neighborhoods(
        Neighborhoods::from_utf8("47@AC@16@Centro@\n48@AC@16@Bosque@".to_string()).unwrap(),
    );
    builder.add_addresses(
        Addresses::from_utf8("1@AC@16@47@48@Nelson@@69918703@Rua@S@".to_string()).unwrap(),
    );
    builder.add_big_users(
        BigUsers::from_utf8("1@AC@16@48@@Residencial@Rodovia, 2081@69915900@".to_string()).unwrap(),
    );
    let lookup = builder.build();
    assert_eq!(lookup.len(), 2);
    let street = lookup.lookup("69918703").unwrap();
    assert_eq!(street.locality, "Rio Branco");
    assert_eq!(street.neighborhood, Some("Centro".to_string()));
    let user = lookup.lookup("69915900").unwrap();
    assert_eq!(user.locality, "Rio Branco");
    assert_eq!(user.neighborhood, Some("Bosque".to_string()));
    assert_eq!(user.address, "Rodovia, 2081");
    assert_eq!(user.complement, Some("Residencial".to_string()));
    assert_eq!(user.type_, CepType::BigUser);
}

#[test]
fn subordination_is_resolved_one_level_up() {
    let mut builder = CepLookupBuilder::new();
    builder.add_localities(localities(
        "1@AC@Avo@@1@M@@@\n2@AC@Pai@69000002@0@D@1@@\n3@AC@Filho@69000003@0@P@2@@\n4@AC@Orfao@69000004@0@P@99@@\n5@AC@Sozinho@69000005@0@M@@@",
    ));
    let lookup = builder.build();
    assert_eq!(lookup.len(), 4);
    assert_eq!(lookup.lookup("69000002").unwrap().neighborhood, Some("Avo".to_string()));
    let child = lookup.lookup("69000003").unwrap();
    assert_eq!(child.neighborhood, Some("Pai".to_string()));
    assert_eq!(child.locality, "Filho");
    assert_eq!(child.address, "");
    assert_eq!(child.complement, None);
    assert_eq!(child.type_, CepType::UncodedLocality);
    assert_eq!(lookup.lookup("69000004").unwrap().neighborhood, None);
    assert_eq!(lookup.lookup("69000005").unwrap().neighborhood, None);
}

#[test]
fn collections_added_twice_are_merged() {
    let mut builder = CepLookupBuilder::new();
    builder.add_localities(localities("1@AC@Antigo@69000001@0@M@@@\n2@AC@Outro@69000002@0@M@@@"));
    builder.add_localities(localities("1@AC@Novo@69000009@0@M@@@\n3@AL@Mais@57000003@0@M@@@"));
    let lookup = builder.build();
    assert_eq!(lookup.len(), 3);
    assert!(lookup.lookup("69000001").is_none());
    assert_eq!(lookup.lookup("69000009").unwrap().locality, "Novo");
    assert_eq!(lookup.lookup("69000002").unwrap().locality, "Outro");
    assert_eq!(lookup.lookup("57000003").unwrap().uf, Uf::AL);
}

#[test]
fn an_empty_builder_builds_an_empty_index() {
    let lookup = CepLookupBuilder::new().build();
    assert!(lookup.is_empty());
    assert_eq!(lookup.len(), 0);
    assert!(lookup.lookup("69900000").is_none());
    assert!(lookup.by_uf(Uf::AC).is_empty());
}

#[test]
fn index_keeps_one_entry_per_code() {
    let mut lookup = CepLookup::with_capacity(2);
    assert!(CepLookup::default().is_empty());
    lookup.insert(info("1", Uf::AC, "A", CepType::Street));
    lookup.insert(info("2", Uf::AL, "B", CepType::Street));
    lookup.insert(info("1", Uf::SP, "C", CepType::Cpc));
    assert_eq!(lookup.len(), 2);
    assert!(!lookup.is_empty());
    let first = lookup.get("1").unwrap();
    assert_eq!(first.uf, Uf::SP);
    assert_eq!(first.locality, "C");
    assert_eq!(first.type_, CepType::Cpc);
    assert_eq!(lookup.get("2").unwrap().locality, "B");
    assert!(lookup.get("3").is_none());
    assert!(lookup.get("").is_none());
}

#[test]
fn index_is_searched_by_state_and_by_locality_name() {
    let mut lookup = CepLookup::new();
    lookup.insert(info("1", Uf::AC, "Rio Branco", CepType::Street));
    lookup.insert(info("2", Uf::AL, "Rio Largo", CepType::Street));
    lookup.insert(info("3", Uf::AC, "Bujari", CepType::Cpc));
    lookup.insert(info("4", Uf::AC, "Rio Branco", CepType::BigUser));
    lookup.insert(info("2", Uf::AC, "Rio Branco", CepType::Cpc));
    let mut codes: Vec<&str> = lookup.by_uf(Uf::AC).iter().map(|e| e.cep.as_str()).collect();
    codes.sort();
    assert_eq!(codes, vec!["1", "2", "3", "4"]);
    assert!(lookup.by_uf(Uf::AL).is_empty());
    let mut codes: Vec<&str> =
        lookup.by_locality("Rio Branco").iter().map(|e| e.cep.as_str()).collect();
    codes.sort();
    assert_eq!(codes, vec!["1", "2", "4"]);
    assert_eq!(lookup.by_locality("Bujari").len(), 1);
    assert!(lookup.by_locality("Rio Largo").is_empty());
    assert!(lookup.by_locality("rio branco").is_empty());
    let copy = lookup.get("3").unwrap().clone();
    assert_eq!(copy.cep, "3");
    assert_eq!(copy.locality, "Bujari");
}
