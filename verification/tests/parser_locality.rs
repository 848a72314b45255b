use edne::model::{Localities, LocalityId};
use edne::parser::locality::{parse, parse_capacity, read_line, Error};

#[test]
fn parse_localities_basic() {
    assert!(true);
    let data = b"15321@AC@Terra Ind\xEDgena Mamoadate@69939810@0@P@2@Terra Ind Mamoadate@\n
        13@AC@Pl\xE1cido de Castro@69928000@0@M@@Pl\xE1cido Castro@1200385\n";

    let nhs = parse(&data[..]).expect("parse ok");
    assert_eq!(nhs.len(), 2);

    let n1 = nhs.get(LocalityId::new(15321)).unwrap();
    assert_eq!(n1.name, "Terra Indígena Mamoadate");

    let n2 = nhs.get(LocalityId::new(13)).unwrap();
    assert_eq!(n2.name, "Plácido de Castro");
}

#[test]
fn error_invalid_id() {
    let data = b"X@AC@Terra Ind\xEDgena Mamoadate@69939810@0@P@2@Terra Ind Mamoadate@\n";

    let err = parse(&data[..]).unwrap_err();
    match err {
        Error::ParseInt { line, .. } => {
            assert_eq!(line, 1);
        }
        _ => panic!("expected ParseInt error"),
    }
}

#[test]
fn error_missing_separator() {
    let data = b"X|AC|Terra Ind\xEDgena Mamoadate|69939810|0|P|2|Terra Ind Mamoadate|\n";

    let err = parse(&data[..]).unwrap_err();
    match err {
        Error::FieldCount { line, got, expected } => {
            assert_eq!(line, 1);
            assert_eq!(got, 1);
            assert_eq!(expected, 2);
        }
        _ => panic!("expected FieldCount error"),
    }
}

#[test]
fn reduced_reader_counts_empty_lines_and_strips_line_ends() {
    let data = b"\n\r\n1@AC@ Um \r\r\n\n2@AC@Dois";
    let localities = parse_capacity(data, 8).unwrap();
    assert_eq!(localities.len(), 2);
    assert!(!localities.is_empty());
    assert_eq!(localities.get(LocalityId::new(1)).unwrap().name, "Um");
    assert_eq!(localities.get(LocalityId::new(2)).unwrap().name, "Dois");
    assert!(localities.get(LocalityId::new(3)).is_none());
    let mut ids: Vec<u32> = localities.iter().into_iter().map(|(id, l)| {
        assert_eq!(l.id, id);
        id.get()
    }).collect();
    ids.sort();
    assert_eq!(ids, vec![1, 2]);
    assert_eq!(parse(b"\n\n1@AC\n").unwrap_err(), Error::FieldCount { line: 3, got: 1, expected: 2 });
    assert_eq!(parse(b"1@AC@Um\n \n").unwrap_err(), Error::FieldCount { line: 2, got: 1, expected: 2 });
    assert_eq!(parse(b"1@AC@Um\n@@x\n").unwrap_err(), Error::ParseInt { line: 2 });
    assert!(parse(b"").unwrap().is_empty());
    assert!(Localities::default().is_empty());
}

#[test]
fn reduced_reader_accepts_zero_and_keeps_the_last_of_equal_identifiers() {
    let localities = parse(b"0@AC@Zero\n7@AC@Antes\n7@AC@Depois\n").unwrap();
    assert_eq!(localities.len(), 2);
    assert_eq!(localities.get(LocalityId::new(0)).unwrap().name, "Zero");
    assert_eq!(localities.get(LocalityId::new(7)).unwrap().name, "Depois");
}

#[test]
fn reduced_reader_takes_lines_one_by_one() {
    let mut localities = Localities::new();
    assert_eq!(read_line(&mut localities, b"5@AC@Cinco\r\n", 1), Ok(()));
    assert_eq!(read_line(&mut localities, b"\r\n", 2), Ok(()));
    assert_eq!(read_line(&mut localities, b"x@AC@Seis\n", 3), Err(Error::ParseInt { line: 3 }));
    assert_eq!(
        read_line(&mut localities, b"6\n", 4),
        Err(Error::FieldCount { line: 4, got: 1, expected: 2 })
    );
    assert_eq!(localities.len(), 1);
    assert_eq!(localities.get(LocalityId::new(5)).unwrap().name, "Cinco");
}
