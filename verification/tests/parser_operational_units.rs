use edne::models::operational_unit::{OperationalUnitId, PostBoxIndicator};
use edne::models::StreetId;
use edne::parser::operational_units::OperationalUnits;

const SAMPLE_DATA: &str = "\
48437@AC@11059@51784@@AGC Campinas@Rua Kaxinawás, s/n@69929970@N@AGC Campinas
11986@AC@5@39323@@AC Capixaba@Avenida Governador Edmundo Pinto, 711@69931970@N@AC Capixaba
34293@AC@6@39337@@CDD Cruzeiro do Sul@Rua Rego Barros, 73@69980972@N@CDD Cruzeiro Sul
12037@AC@7@39328@@AC Epitaciolândia@Avenida Santos Dumont, 160@69934970@N@AC Epitaciolândia
12043@AC@8@39334@@AC Feijó@Avenida Plácido de Castro, 871@69960970@N@AC Feijó
12045@AC@9@39336@@AC Jordão@Rua Romildo Magalhães, s/n@69975970@N@AC Jordão
12048@AC@12@39339@@AC Marechal Thaumaturgo@Rua 5 de Novembro, 125@69983970@N@AC Mal Thaumaturgo
11988@AC@13@39325@@AC Plácido de Castro@Avenida Diamantino Augusto de Macedo, 580@69928970@N@AC Plácido Castro
11985@AC@14@39322@@AC Porto Acre@Rua Margaridas, 131@69927970@N@AC Pto Acre
12047@AC@15@39338@@AC Porto Walter@Rua Projetada, s/n@69982970@N@AC Pto Walter
1@AC@16@17@948034@AC Rio Branco@Avenida Epaminondas Jácome, 2858@69900970@S@AC Rio Branco
25740@AC@16@17@814@AC Oca@Rua Quintino Bocaiúva, 299@69900974@N@AC Oca
24821@AC@16@55445@950232@CDD Bosque@Avenida Ceará, 3607@69900973@N@CDD Bosque
60183@AC@16@49922@949512@PCL Ponto de Coleta Mercantil Junior@Rua Valdomiro Lopes, 2398@69919970@N@PCL Ponto C M Junior
5@AC@16@10@950390@CDD Rio Branco@Rua Floriano Peixoto, 411@69900971@N@CDD Rio Branco";

#[test]
fn operational_units_parse_sample_data() {
    let units =
        OperationalUnits::from_utf8(SAMPLE_DATA.to_string()).unwrap();
    assert_eq!(units.len(), 15);
}

#[test]
fn parse_unit_with_street_id() {
    let units =
        OperationalUnits::from_utf8(SAMPLE_DATA.to_string()).unwrap();
    let id = OperationalUnitId::new(1);
    let unit = units.get(&id).unwrap();

    assert_eq!(unit.id, id);
    assert_eq!(unit.street_id, Some(StreetId::new(948034)));
    assert_eq!(unit.post_box_indicator, PostBoxIndicator::Yes);
}

#[test]
fn parse_unit_without_street_id() {
    let units =
        OperationalUnits::from_utf8(SAMPLE_DATA.to_string()).unwrap();
    let id = OperationalUnitId::new(48437);
    let unit = units.get(&id).unwrap();

    assert_eq!(unit.street_id, None);
    assert_eq!(unit.post_box_indicator, PostBoxIndicator::No);
}

#[test]
fn operational_units_parse_invalid_field_count() {
    let invalid = "48437@AC@11059@51784@@AGC Campinas@69929970@N";
    let result = OperationalUnits::from_utf8(invalid.to_string());
    assert!(result.is_err());
}
