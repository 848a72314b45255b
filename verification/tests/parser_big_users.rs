use edne::models::big_user::{BigUserId, StreetId};
use edne::models::{LocalityId, NeighborhoodId, Uf};
use edne::parser::big_users::BigUsers;

const SAMPLE_DATA: &str = "\
41739@AC@16@49922@949512@PCL Ponto de Coleta Mercantil Júnior Clique e Retire@Rua Valdomiro Lopes, 2398 Clique e Retire Correios@69919959@PCL P C M J C Retire
34344@AC@16@55439@948258@Residencial Ecoville@Rodovia BR-364, 2081@69915900@Res Ecoville
33084@AC@18@39333@@AC Santa Rosa do Purus Clique e Retire@Rua Coronel José Ferreira, 1498 Clique e Retire Correios@69955959@AC Sta R P C Retire
33089@AC@19@39330@@AC Sena Madureira Clique e Retire@Rua Dom Júlio Matiolli, 290 Clique e Retire Correios@69940959@AC S M C Retire
32492@AC@20@39324@@AC Senador Guiomard Clique e Retire@Avenida Castelo Branco, 1750 Clique e Retire Correios@69925959@AC Sen G C Retire
33082@AC@21@39335@@AC Tarauacá Clique e Retire@Rua Coronel Juvêncio de Menezes, 158 Clique e Retire Correios@69970959@AC T C Retire
33099@AC@22@39326@@AC Xapuri Clique e Retire@Rua 24 de Janeiro, 270 Clique e Retire Correios@69930959@AC X C Retire
33087@AC@1@39331@@AC Acrelândia Clique e Retire@Avenida Paraná, 296 Clique e Retire Correios@69945959@AC A C Retire
33092@AC@2@39329@@AC Assis Brasil Clique e Retire@Rua Dom Giocondo Maria Grotte, 230 Clique e Retire Correios@69935959@AC A B C Retire
33094@AC@3@39327@@AC Brasiléia Clique e Retire@Avenida Prefeito Rolando Moreira, 170 Clique e Retire Correios@69932959@AC B C Retire
32496@AC@4@39321@@AC Bujari Clique e Retire@Rua Expedito Pereira de Souza, 971 Clique e Retire Correios@69926959@AC B C Retire
33097@AC@5@39323@@AC Capixaba Clique e Retire@Avenida Governador Edmundo Pinto, 711 Clique e Retire Correios@69931959@AC C C Retire
33080@AC@6@39337@@AC Cruzeiro do Sul Clique e Retire@Rua Rego Barros, 73 Clique e Retire Correios@69980959@AC C S C Retire
33093@AC@7@39328@@AC Epitaciolândia Clique e Retire@Avenida Santos Dumont, 160 Clique e Retire Correios@69934959@AC E C Retire
33083@AC@8@39334@@AC Feijó Clique e Retire@Avenida Plácido de Castro, 871 Clique e Retire Correios@69960959@AC F C Retire";

#[test]
fn big_users_parse_sample_data() {
    let big_users = BigUsers::from_utf8(SAMPLE_DATA.to_string()).unwrap();
    assert_eq!(big_users.len(), 15);
}

#[test]
fn parse_big_user_with_street_id() {
    let big_users = BigUsers::from_utf8(SAMPLE_DATA.to_string()).unwrap();
    let id = BigUserId::new(41739);
    let user = big_users.get(&id).unwrap();

    assert_eq!(user.id, id);
    assert_eq!(user.uf, Uf::AC);
    assert_eq!(user.locality_id, LocalityId::new(16));
    assert_eq!(user.neighborhood_id, NeighborhoodId::new(49922));
    assert_eq!(user.street_id, Some(StreetId::new(949512)));
    assert!(user.name.contains("PCL"));
    assert!(user.address.contains("Rua Valdomiro Lopes"));
    assert_eq!(user.cep, "69919959");
}

#[test]
fn parse_big_user_without_street_id() {
    let big_users = BigUsers::from_utf8(SAMPLE_DATA.to_string()).unwrap();
    let id = BigUserId::new(33084);
    let user = big_users.get(&id).unwrap();

    assert_eq!(user.street_id, None);
    assert!(user.name.contains("Santa Rosa"));
}

#[test]
fn big_users_parse_invalid_field_count() {
    let invalid = "41739@AC@16@49922@949512@PCL@Rua Valdomiro@69919959";
    let result = BigUsers::from_utf8(invalid.to_string());
    assert!(result.is_err());
}
