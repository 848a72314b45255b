use edne::models::address::{AddressId, StreetTypeIndicator};
use edne::models::big_user::{BigUserId, StreetId};
use edne::models::cpc::CpcId;
use edne::models::locality::{Locality, LocalityId, LocalitySituation, LocalityType};
use edne::models::neighborhood::NeighborhoodId;
use edne::models::operational_unit::{OperationalUnitId, PostBoxIndicator};
use edne::models::uf::Uf;
use edne::parser::addresses::{parse_address_line, Addresses};
use edne::parser::base::{EdneParser, ParseError};
use edne::parser::big_users::{parse_big_user_line, BigUsers};
use edne::parser::cpcs::{parse_cpc_line, Cpcs};
use edne::parser::localities::{parse_locality_line, Localities};
use edne::parser::neighborhoods::{parse_neighborhood_line, Neighborhoods};
use edne::parser::operational_units::{parse_operational_unit_line, OperationalUnits};

fn parser() -> EdneParser {
    EdneParser::from_utf8(String::new())
}

#[test]
fn minimal_locality_line() {
    let locality =
        parse_locality_line(&parser(), "16@AC@Rio Branco@@1@M@@Rio Branco@1200401", 4).unwrap();
    assert_eq!(
        locality,
        Locality {
            id: LocalityId::new(16),
            uf: Uf::AC,
            name: "Rio Branco".to_string(),
            cep: None,
            situation: LocalitySituation::Coded,
            locality_type: LocalityType::Municipality,
            subordinate_to: None,
            abbreviated_name: Some("Rio Branco".to_string()),
            ibge_code: Some("1200401".to_string()),
        }
    );
}

#[test]
fn every_kind_round_trips_its_fields() {
    let p = parser();
    let locality = parse_locality_line(&p, " 7 @ sp @ Nome @ 01000000 @ 0 @ d @ 3 @@  ", 1).unwrap();
    assert_eq!(locality.id.to_string(), "7");
    assert_eq!(locality.uf.to_string(), "SP");
    assert_eq!(locality.name, " Nome ");
    assert_eq!(locality.cep, Some(" 01000000 ".to_string()));
    assert_eq!(locality.situation.to_string(), "0");
    assert_eq!(locality.locality_type.to_string(), "D");
    assert_eq!(locality.subordinate_to, Some(LocalityId::new(3)));
    assert_eq!(locality.abbreviated_name, None);
    assert_eq!(locality.ibge_code, None);

    let neighborhood = parse_neighborhood_line(&p, "55400@AC@16@Jaguar@", 1).unwrap();
    assert_eq!(neighborhood.id, NeighborhoodId::new(55400));
    assert_eq!(neighborhood.locality_id, LocalityId::new(16));
    assert_eq!(neighborhood.name, "Jaguar");
    assert_eq!(neighborhood.abbreviated_name, None);

    let address =
        parse_address_line(&p, "1@AC@16@47@48@Nelson@ate 10@69918703@Rua@n@R N", 1).unwrap();
    assert_eq!(address.id, AddressId::new(1));
    assert_eq!(address.neighborhood_id_start, NeighborhoodId::new(47));
    assert_eq!(address.neighborhood_id_end, Some(NeighborhoodId::new(48)));
    assert_eq!(address.complement, Some("ate 10".to_string()));
    assert_eq!(address.cep, "69918703");
    assert_eq!(address.street_type, "Rua");
    assert_eq!(address.street_type_indicator, Some(StreetTypeIndicator::No));
    assert_eq!(address.abbreviated_name, Some("R N".to_string()));
    let bare = parse_address_line(&p, "1@AC@16@47@@Nelson@@69918703@Rua@@", 1).unwrap();
    assert_eq!(bare.street_type_indicator, None);
    assert_eq!(bare.neighborhood_id_end, None);

    let user = parse_big_user_line(&p, "41739@AC@16@49922@949512@PCL@Rua V, 2@69919959@", 1)
        .unwrap();
    assert_eq!(user.id, BigUserId::new(41739));
    assert_eq!(user.street_id, Some(StreetId::new(949512)));
    assert_eq!(user.name, "PCL");
    assert_eq!(user.address, "Rua V, 2");
    assert_eq!(user.abbreviated_name, None);

    let unit =
        parse_operational_unit_line(&p, "1@AC@16@17@@AC Rio@Av E, 2858@69900970@s@AC", 1).unwrap();
    assert_eq!(unit.id, OperationalUnitId::new(1));
    assert_eq!(unit.street_id, None);
    assert_eq!(unit.post_box_indicator, PostBoxIndicator::Yes);
    assert_eq!(unit.abbreviated_name, Some("AC".to_string()));

    let cpc = parse_cpc_line(&p, "1285@AL@158@Conjunto@Quadra 1@57100990", 1).unwrap();
    assert_eq!(cpc.id, CpcId::new(1285));
    assert_eq!(cpc.uf, Uf::AL);
    assert_eq!(cpc.locality_id, LocalityId::new(158));
    assert_eq!(cpc.name, "Conjunto");
    assert_eq!(cpc.address, "Quadra 1");
    assert_eq!(cpc.cep, "57100990");
}

#[test]
fn wrong_field_count_is_reported_for_every_kind() {
    let p = parser();
    let count = |e: ParseError| match e {
        ParseError::FieldCount { expected, got, line_number } => (expected, got, line_number),
        other => panic!("not a field count fault: {:?}", other),
    };
    assert_eq!(count(parse_locality_line(&p, "a@b", 11).unwrap_err()), (9, 2, 11));
    assert_eq!(count(parse_neighborhood_line(&p, "", 12).unwrap_err()), (5, 1, 12));
    assert_eq!(count(parse_address_line(&p, "@@@@@@@@@@@", 13).unwrap_err()), (11, 12, 13));
    assert_eq!(count(parse_big_user_line(&p, "@@@@@@@", 14).unwrap_err()), (9, 8, 14));
    assert_eq!(count(parse_operational_unit_line(&p, "x", 15).unwrap_err()), (10, 1, 15));
    assert_eq!(count(parse_cpc_line(&p, "1@AL@158@@@@", 16).unwrap_err()), (6, 7, 16));
}

#[test]
fn faults_name_field_value_reason_and_line() {
    let p = parser();
    assert_eq!(
        parse_locality_line(&p, "0@AC@N@@1@M@@@", 5).unwrap_err(),
        ParseError::InvalidValue {
            field_name: "LOC_NU",
            value: "0".to_string(),
            reason: "locality ID cannot be zero".to_string(),
            line_number: 5,
        }
    );
    assert_eq!(
        parse_locality_line(&p, " x1 @AC@N@@1@M@@@", 5).unwrap_err(),
        ParseError::InvalidValue {
            field_name: "LOC_NU",
            value: " x1 ".to_string(),
            reason: "invalid locality ID format: ' x1 '".to_string(),
            line_number: 5,
        }
    );
    assert_eq!(
        parse_locality_line(&p, "1@ACRE@N@@1@M@@@", 6).unwrap_err(),
        ParseError::InvalidValue {
            field_name: "UFE_SG",
            value: "ACRE".to_string(),
            reason: "UF code must have length 2, got 4".to_string(),
            line_number: 6,
        }
    );
    assert_eq!(
        parse_locality_line(&p, "1@zz@N@@1@M@@@", 6).unwrap_err(),
        ParseError::InvalidValue {
            field_name: "UFE_SG",
            value: "zz".to_string(),
            reason: "invalid UF code: zz".to_string(),
            line_number: 6,
        }
    );
    assert_eq!(
        parse_locality_line(&p, "1@AC@N@@ 7@M@@@", 7).unwrap_err(),
        ParseError::InvalidValue {
            field_name: "LOC_IN_SIT",
            value: " 7".to_string(),
            reason: "invalid locality situation code: '7'".to_string(),
            line_number: 7,
        }
    );
    assert_eq!(
        parse_locality_line(&p, "1@AC@N@@1@q@@@", 8).unwrap_err(),
        ParseError::InvalidValue {
            field_name: "LOC_IN_TIPO_LOC",
            value: "q".to_string(),
            reason: "invalid locality type code: 'Q'".to_string(),
            line_number: 8,
        }
    );
    assert_eq!(
        parse_locality_line(&p, "1@AC@N@@1@M@0@@", 9).unwrap_err(),
        ParseError::InvalidValue {
            field_name: "LOC_NU_SUB",
            value: "0".to_string(),
            reason: "locality ID cannot be zero".to_string(),
            line_number: 9,
        }
    );
    assert_eq!(
        parse_address_line(&p, "1@AC@16@47@x@N@@6@Rua@S@", 10).unwrap_err(),
        ParseError::InvalidValue {
            field_name: "BAI_NU_FIM",
            value: "x".to_string(),
            reason: "invalid neighborhood ID format: 'x'".to_string(),
            line_number: 10,
        }
    );
    assert_eq!(
        parse_address_line(&p, "1@AC@16@47@@N@@6@Rua@talvez@", 10).unwrap_err(),
        ParseError::InvalidValue {
            field_name: "LOG_STA_TLO",
            value: "talvez".to_string(),
            reason: "invalid street type indicator code: 'TALVEZ'".to_string(),
            line_number: 10,
        }
    );
    assert_eq!(
        parse_big_user_line(&p, "1@AC@16@47@0@N@A@6@", 11).unwrap_err(),
        ParseError::InvalidValue {
            field_name: "LOG_NU",
            value: "0".to_string(),
            reason: "street ID cannot be zero".to_string(),
            line_number: 11,
        }
    );
    assert_eq!(
        parse_operational_unit_line(&p, "1@AC@16@47@@N@A@6@@", 12).unwrap_err(),
        ParseError::EmptyField { field_name: "UOP_IN_CP", line_number: 12 }
    );
    assert_eq!(
        parse_cpc_line(&p, "x@AL@158@N@A@6", 13).unwrap_err(),
        ParseError::InvalidValue {
            field_name: "CPC_NU",
            value: "x".to_string(),
            reason: "invalid CPC ID format: 'x'".to_string(),
            line_number: 13,
        }
    );
}

#[test]
fn the_first_faulty_field_in_checking_order_is_reported() {
    let p = parser();
    // Name, situation and parent are all faulty: the name is checked first.
    assert_eq!(
        parse_locality_line(&p, "1@AC@ @@9@M@0@@", 1).unwrap_err(),
        ParseError::EmptyField { field_name: "LOC_NO", line_number: 1 }
    );
    // The parent identifier is checked after situation and type.
    assert_eq!(
        parse_locality_line(&p, "1@AC@N@@1@X@0@@", 1).unwrap_err(),
        ParseError::InvalidValue {
            field_name: "LOC_IN_TIPO_LOC",
            value: "X".to_string(),
            reason: "invalid locality type code: 'X'".to_string(),
            line_number: 1,
        }
    );
    // In a street line the ending neighborhood is checked before the name.
    assert_eq!(
        parse_address_line(&p, "1@AC@16@47@0@@@@@@", 1).unwrap_err(),
        ParseError::InvalidValue {
            field_name: "BAI_NU_FIM",
            value: "0".to_string(),
            reason: "neighborhood ID cannot be zero".to_string(),
            line_number: 1,
        }
    );
}

#[test]
fn a_faulty_line_fails_the_whole_source_with_its_true_line_number() {
    let text = "1@AL@158@A@B@57100990\n\n   \n2@AL@158@@B@57100991\nthis line is never read\n";
    assert_eq!(
        Cpcs::from_utf8(text.to_string()).unwrap_err(),
        ParseError::EmptyField { field_name: "CPC_NO", line_number: 4 }
    );
    let text = "55400@AC@16@Jaguar@\r\n55401@AC\r\n";
    assert_eq!(
        Neighborhoods::from_utf8(text.to_string()).unwrap_err(),
        ParseError::FieldCount { expected: 5, got: 2, line_number: 2 }
    );
}

#[test]
fn a_later_line_replaces_an_earlier_one_with_the_same_identifier() {
    let text = "7@AL@158@First@A@57100990\n8@AL@158@Other@B@57100991\n7@AL@158@Second@C@57100992\n";
    let cpcs = Cpcs::from_utf8(text.to_string()).unwrap();
    assert_eq!(cpcs.len(), 2);
    assert_eq!(cpcs.get(&CpcId::new(7)).unwrap().name, "Second");
    assert_eq!(cpcs.get(&CpcId::new(8)).unwrap().name, "Other");
}

#[test]
fn bytes_are_decoded_before_parsing() {
    // "São José" in the single-byte encoding, and a name that is only a
    // no-break space, which is blank.
    let mut bytes = b"55400@AC@16@S".to_vec();
    bytes.extend_from_slice(&[0xE3, b'o', b' ', b'J', b'o', b's', 0xE9, b'@', b'\n']);
    let neighborhoods = Neighborhoods::from_iso8859_1(&bytes).unwrap();
    assert_eq!(neighborhoods.get(&NeighborhoodId::new(55400)).unwrap().name, "São José");
    let blank = b"55400@AC@16@\xA0@";
    assert_eq!(
        Neighborhoods::from_iso8859_1(blank).unwrap_err(),
        ParseError::EmptyField { field_name: "BAI_NO", line_number: 1 }
    );
}

#[test]
fn parsing_twice_gives_equal_collections() {
    let bytes = b"15321@AC@Terra@69939810@0@P@2@Terra Ind@\n13@AC@Pl\xE1cido@69928000@0@M@@@1200385\n";
    let first = Localities::from_iso8859_1(bytes).unwrap();
    let second = Localities::from_iso8859_1(bytes).unwrap();
    assert_eq!(first.len(), 2);
    assert_eq!(first.len(), second.len());
    for (id, locality) in first.iter() {
        assert_eq!(second.get(&id), Some(locality));
    }
    for (id, locality) in second.iter() {
        assert_eq!(first.get(&id), Some(locality));
    }
    let faulty = b"15321@AC@Terra@69939810@0@P@2@Terra Ind\n";
    assert_eq!(
        Localities::from_iso8859_1(faulty).unwrap_err(),
        Localities::from_iso8859_1(faulty).unwrap_err()
    );
}

#[test]
fn collections_insert_extend_and_copy() {
    let mut cpcs = Cpcs::new();
    assert!(cpcs.is_empty());
    let p = parser();
    let first = parse_cpc_line(&p, "7@AL@158@First@A@57100990", 1).unwrap();
    let second = parse_cpc_line(&p, "7@AL@158@Second@A@57100990", 2).unwrap();
    assert_eq!(cpcs.insert(first.clone()), None);
    assert_eq!(cpcs.insert(second.clone()), Some(first));
    assert_eq!(cpcs.len(), 1);
    assert!(!cpcs.is_empty());

    let mut others = Cpcs::with_capacity(4);
    others.insert(parse_cpc_line(&p, "7@AL@158@Third@A@57100990", 1).unwrap());
    others.insert(parse_cpc_line(&p, "9@AL@158@Ninth@A@57100999", 2).unwrap());
    cpcs.extend(&others);
    assert_eq!(cpcs.len(), 2);
    assert_eq!(cpcs.get(&CpcId::new(7)).unwrap().name, "Third");
    assert_eq!(cpcs.get(&CpcId::new(9)).unwrap().name, "Ninth");
    assert_eq!(others.len(), 2);

    let copy = cpcs.clone();
    assert_eq!(copy.len(), 2);
    let mut ids: Vec<u32> = copy.iter().into_iter().map(|(id, cpc)| {
        assert_eq!(cpc.id, id);
        id.get()
    }).collect();
    ids.sort();
    assert_eq!(ids, vec![7, 9]);
    assert!(Localities::default().is_empty());
    assert!(Addresses::default().is_empty());
    assert!(BigUsers::default().is_empty());
    assert!(OperationalUnits::default().is_empty());
}
