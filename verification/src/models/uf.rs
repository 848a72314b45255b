//! The federative units and their two-letter codes.

use crate::outcome::result_view;
use crate::text::ascii::{
    lemma_to_upper_idempotent, lemma_trim_to_upper, to_upper, upper, upper_char,
};
use crate::text::decimal::{decimal, decimal_string};
use crate::text::space::{
    is_blank, is_whitespace, lemma_blank_iff_trim_empty, lemma_trim_end_is_prefix,
    lemma_trim_start_is_suffix, string_from_range, to_chars, trim, trim_range,
};
use std::cmp::Ordering;
use vstd::prelude::*;
use vstd::std_specs::cmp::PartialOrdSpecImpl;
use vstd::string::StringExecFns;

verus! {

/// One of the 27 federative units.
#[derive(Debug, Copy, Clone, PartialEq, Eq, Structural, Hash, Ord)]
pub enum Uf {
    AC,
    AL,
    AP,
    AM,
    BA,
    CE,
    DF,
    ES,
    GO,
    MA,
    MT,
    MS,
    MG,
    PA,
    PB,
    PR,
    PE,
    PI,
    RJ,
    RN,
    RS,
    RO,
    RR,
    SC,
    SP,
    SE,
    TO,
}

impl PartialOrd for Uf {
    fn partial_cmp(&self, other: &Self) -> (r: Option<Ordering>) {
        let a: u8 = self.position();
        let b: u8 = other.position();
        if a < b {
            Some(Ordering::Less)
        } else if a == b {
            Some(Ordering::Equal)
        } else {
            Some(Ordering::Greater)
        }
    }
}

impl PartialOrdSpecImpl for Uf {
    open spec fn obeys_partial_cmp_spec() -> bool {
        true
    }

    /// Units are ordered as they are declared.
    open spec fn partial_cmp_spec(&self, other: &Self) -> Option<Ordering> {
        if self.index() < other.index() {
            Some(Ordering::Less)
        } else if self.index() == other.index() {
            Some(Ordering::Equal)
        } else {
            Some(Ordering::Greater)
        }
    }
}

impl View for Uf {
    type V = Uf;

    open spec fn view(&self) -> Uf {
        *self
    }
}

impl DeepView for Uf {
    type V = Uf;

    open spec fn deep_view(&self) -> Uf {
        *self
    }
}

/// Why a text names no federative unit.
pub enum UfFault {
    /// Nothing is left of the text after trimming.
    Empty,
    /// The trimmed text has this many characters, not two.
    WrongLength(usize),
    /// The trimmed text, given here, has two characters but is no code.
    InvalidCode(Seq<char>),
}

/// Why a text names no federative unit.
#[derive(Debug, PartialEq, Eq)]
pub enum UfParseError {
    /// Nothing is left of the text after trimming.
    Empty,
    /// The trimmed text has this many characters, not two.
    WrongLength(usize),
    /// The trimmed text has two characters but is no code.
    InvalidCode(String),
}

impl View for UfParseError {
    type V = UfFault;

    open spec fn view(&self) -> UfFault {
        match self {
            UfParseError::Empty => UfFault::Empty,
            UfParseError::WrongLength(n) => UfFault::WrongLength(*n),
            UfParseError::InvalidCode(text) => UfFault::InvalidCode(text@),
        }
    }
}

impl DeepView for UfParseError {
    type V = UfFault;

    open spec fn deep_view(&self) -> UfFault {
        self@
    }
}

impl UfFault {
    /// The report of the fault, as a sentence.
    pub open spec fn message(self) -> Seq<char> {
        match self {
            UfFault::Empty => "UF code is empty"@,
            UfFault::WrongLength(n) => "UF code must have length 2, got "@ + decimal(n as nat),
            UfFault::InvalidCode(text) => "invalid UF code: "@ + text,
        }
    }
}

impl UfParseError {
    /// The report of the fault, as a sentence.
    pub fn to_string(&self) -> (r: String)
        ensures
            r@ == self@.message(),
    {
        match self {
            UfParseError::Empty => String::from_str("UF code is empty"),
            UfParseError::WrongLength(n) => {
                let mut r = String::from_str("UF code must have length 2, got ");
                let digits = decimal_string(*n as u64);
                r.append(digits.as_str());
                r
            },
            UfParseError::InvalidCode(text) => {
                let mut r = String::from_str("invalid UF code: ");
                r.append(text.as_str());
                r
            },
        }
    }
}

impl Uf {
    /// The two-letter code of the unit.
    pub open spec fn code(self) -> Seq<char> {
        match self {
            Uf::AC => "AC"@,
            Uf::AL => "AL"@,
            Uf::AP => "AP"@,
            Uf::AM => "AM"@,
            Uf::BA => "BA"@,
            Uf::CE => "CE"@,
            Uf::DF => "DF"@,
            Uf::ES => "ES"@,
            Uf::GO => "GO"@,
            Uf::MA => "MA"@,
            Uf::MT => "MT"@,
            Uf::MS => "MS"@,
            Uf::MG => "MG"@,
            Uf::PA => "PA"@,
            Uf::PB => "PB"@,
            Uf::PR => "PR"@,
            Uf::PE => "PE"@,
            Uf::PI => "PI"@,
            Uf::RJ => "RJ"@,
            Uf::RN => "RN"@,
            Uf::RS => "RS"@,
            Uf::RO => "RO"@,
            Uf::RR => "RR"@,
            Uf::SC => "SC"@,
            Uf::SP => "SP"@,
            Uf::SE => "SE"@,
            Uf::TO => "TO"@,
        }
    }

    /// The unit with the given code, if there is one. Codes are in upper
    /// case.
    pub open spec fn with_code(code: Seq<char>) -> Option<Uf> {
        if exists|uf: Uf| uf.code() == code {
            Some(choose|uf: Uf| uf.code() == code)
        } else {
            None
        }
    }

    /// The unit that a text names: the text is trimmed, must then have two
    /// characters, and is matched against the codes without regard to case.
    pub open spec fn parse(s: Seq<char>) -> Result<Uf, UfFault> {
        let text = trim(s);
        if text.len() == 0 {
            Err(UfFault::Empty)
        } else if text.len() != 2 {
            Err(UfFault::WrongLength(text.len() as usize))
        } else {
            match Uf::with_code(to_upper(text)) {
                Some(uf) => Ok(uf),
                None => Err(UfFault::InvalidCode(text)),
            }
        }
    }

    /// The text names a unit: between surrounding whitespace stands the
    /// code of a unit, in upper or lower case.
    pub open spec fn names_unit(s: Seq<char>) -> bool {
        exists|uf: Uf| uf.code() == to_upper(trim(s))
    }

    /// The full name of the unit.
    pub open spec fn name(self) -> Seq<char> {
        match self {
            Uf::AC => "Acre"@,
            Uf::AL => "Alagoas"@,
            Uf::AP => "Amapá"@,
            Uf::AM => "Amazonas"@,
            Uf::BA => "Bahia"@,
            Uf::CE => "Ceará"@,
            Uf::DF => "Distrito Federal"@,
            Uf::ES => "Espírito Santo"@,
            Uf::GO => "Goiás"@,
            Uf::MA => "Maranhão"@,
            Uf::MT => "Mato Grosso"@,
            Uf::MS => "Mato Grosso do Sul"@,
            Uf::MG => "Minas Gerais"@,
            Uf::PA => "Pará"@,
            Uf::PB => "Paraíba"@,
            Uf::PR => "Paraná"@,
            Uf::PE => "Pernambuco"@,
            Uf::PI => "Piauí"@,
            Uf::RJ => "Rio de Janeiro"@,
            Uf::RN => "Rio Grande do Norte"@,
            Uf::RS => "Rio Grande do Sul"@,
            Uf::RO => "Rondônia"@,
            Uf::RR => "Roraima"@,
            Uf::SC => "Santa Catarina"@,
            Uf::SP => "São Paulo"@,
            Uf::SE => "Sergipe"@,
            Uf::TO => "Tocantins"@,
        }
    }

    /// All units, in the order of their declaration.
    pub open spec fn all() -> Seq<Uf> {
        seq![
            Uf::AC,
            Uf::AL,
            Uf::AP,
            Uf::AM,
            Uf::BA,
            Uf::CE,
            Uf::DF,
            Uf::ES,
            Uf::GO,
            Uf::MA,
            Uf::MT,
            Uf::MS,
            Uf::MG,
            Uf::PA,
            Uf::PB,
            Uf::PR,
            Uf::PE,
            Uf::PI,
            Uf::RJ,
            Uf::RN,
            Uf::RS,
            Uf::RO,
            Uf::RR,
            Uf::SC,
            Uf::SP,
            Uf::SE,
            Uf::TO,
        ]
    }

    /// The place of the unit in `all`.
    pub open spec fn index(self) -> int {
        match self {
            Uf::AC => 0,
            Uf::AL => 1,
            Uf::AP => 2,
            Uf::AM => 3,
            Uf::BA => 4,
            Uf::CE => 5,
            Uf::DF => 6,
            Uf::ES => 7,
            Uf::GO => 8,
            Uf::MA => 9,
            Uf::MT => 10,
            Uf::MS => 11,
            Uf::MG => 12,
            Uf::PA => 13,
            Uf::PB => 14,
            Uf::PR => 15,
            Uf::PE => 16,
            Uf::PI => 17,
            Uf::RJ => 18,
            Uf::RN => 19,
            Uf::RS => 20,
            Uf::RO => 21,
            Uf::RR => 22,
            Uf::SC => 23,
            Uf::SP => 24,
            Uf::SE => 25,
            Uf::TO => 26,
        }
    }

    /// The place of the unit in `all`.
    fn position(&self) -> (r: u8)
        ensures
            r == self.index(),
    {
        match self {
            Uf::AC => 0,
            Uf::AL => 1,
            Uf::AP => 2,
            Uf::AM => 3,
            Uf::BA => 4,
            Uf::CE => 5,
            Uf::DF => 6,
            Uf::ES => 7,
            Uf::GO => 8,
            Uf::MA => 9,
            Uf::MT => 10,
            Uf::MS => 11,
            Uf::MG => 12,
            Uf::PA => 13,
            Uf::PB => 14,
            Uf::PR => 15,
            Uf::PE => 16,
            Uf::PI => 17,
            Uf::RJ => 18,
            Uf::RN => 19,
            Uf::RS => 20,
            Uf::RO => 21,
            Uf::RR => 22,
            Uf::SC => 23,
            Uf::SP => 24,
            Uf::SE => 25,
            Uf::TO => 26,
        }
    }

    /// The two letters of the code.
    pub open spec fn letters(self) -> (char, char) {
        match self {
            Uf::AC => ('A', 'C'),
            Uf::AL => ('A', 'L'),
            Uf::AP => ('A', 'P'),
            Uf::AM => ('A', 'M'),
            Uf::BA => ('B', 'A'),
            Uf::CE => ('C', 'E'),
            Uf::DF => ('D', 'F'),
            Uf::ES => ('E', 'S'),
            Uf::GO => ('G', 'O'),
            Uf::MA => ('M', 'A'),
            Uf::MT => ('M', 'T'),
            Uf::MS => ('M', 'S'),
            Uf::MG => ('M', 'G'),
            Uf::PA => ('P', 'A'),
            Uf::PB => ('P', 'B'),
            Uf::PR => ('P', 'R'),
            Uf::PE => ('P', 'E'),
            Uf::PI => ('P', 'I'),
            Uf::RJ => ('R', 'J'),
            Uf::RN => ('R', 'N'),
            Uf::RS => ('R', 'S'),
            Uf::RO => ('R', 'O'),
            Uf::RR => ('R', 'R'),
            Uf::SC => ('S', 'C'),
            Uf::SP => ('S', 'P'),
            Uf::SE => ('S', 'E'),
            Uf::TO => ('T', 'O'),
        }
    }

    /// The code of a unit is made of its two letters.
    pub proof fn lemma_code_letters(self)
        ensures
            self.code() == seq![self.letters().0, self.letters().1],
    {
        Self::reveal_codes();
        assert(self.code() =~= seq![self.letters().0, self.letters().1]);
    }

    /// What the literals of the codes hold.
    proof fn reveal_codes()
        ensures
            forall|uf: Uf|
                (#[trigger] uf.code()).len() == 2 && uf.code()[0] == uf.letters().0
                    && uf.code()[1] == uf.letters().1,
    {
        reveal_strlit("AC");
        reveal_strlit("AL");
        reveal_strlit("AP");
        reveal_strlit("AM");
        reveal_strlit("BA");
        reveal_strlit("CE");
        reveal_strlit("DF");
        reveal_strlit("ES");
        reveal_strlit("GO");
        reveal_strlit("MA");
        reveal_strlit("MT");
        reveal_strlit("MS");
        reveal_strlit("MG");
        reveal_strlit("PA");
        reveal_strlit("PB");
        reveal_strlit("PR");
        reveal_strlit("PE");
        reveal_strlit("PI");
        reveal_strlit("RJ");
        reveal_strlit("RN");
        reveal_strlit("RS");
        reveal_strlit("RO");
        reveal_strlit("RR");
        reveal_strlit("SC");
        reveal_strlit("SP");
        reveal_strlit("SE");
        reveal_strlit("TO");
    }

    /// A code names one unit only, and `with_code` finds it.
    pub proof fn lemma_with_code(self)
        ensures
            Uf::with_code(self.code()) == Some(self),
    {
        Self::reveal_codes();
        let found = choose|uf: Uf| uf.code() == self.code();
        assert(found.code()[0] == self.code()[0]);
        assert(found.code()[1] == self.code()[1]);
    }

    /// `all` holds every unit once, at its index.
    pub proof fn lemma_all(self)
        ensures
            Uf::all().len() == 27,
            0 <= self.index() < 27,
            Uf::all()[self.index()] == self,
            Uf::all().no_duplicates(),
    {
        assert forall|i: int, j: int| 0 <= i < 27 && 0 <= j < 27 && i != j implies Uf::all()[i]
            != Uf::all()[j] by {
            assert(Uf::all()[i].index() == i);
            assert(Uf::all()[j].index() == j);
        }
    }

    /// The unit with the two given upper-case letters as its code.
    fn from_letters(a: char, b: char) -> (r: Option<Uf>)
        ensures
            r == Uf::with_code(seq![a, b]),
    {
        let r = match (a, b) {
            ('A', 'C') => Some(Uf::AC),
            ('A', 'L') => Some(Uf::AL),
            ('A', 'P') => Some(Uf::AP),
            ('A', 'M') => Some(Uf::AM),
            ('B', 'A') => Some(Uf::BA),
            ('C', 'E') => Some(Uf::CE),
            ('D', 'F') => Some(Uf::DF),
            ('E', 'S') => Some(Uf::ES),
            ('G', 'O') => Some(Uf::GO),
            ('M', 'A') => Some(Uf::MA),
            ('M', 'T') => Some(Uf::MT),
            ('M', 'S') => Some(Uf::MS),
            ('M', 'G') => Some(Uf::MG),
            ('P', 'A') => Some(Uf::PA),
            ('P', 'B') => Some(Uf::PB),
            ('P', 'R') => Some(Uf::PR),
            ('P', 'E') => Some(Uf::PE),
            ('P', 'I') => Some(Uf::PI),
            ('R', 'J') => Some(Uf::RJ),
            ('R', 'N') => Some(Uf::RN),
            ('R', 'S') => Some(Uf::RS),
            ('R', 'O') => Some(Uf::RO),
            ('R', 'R') => Some(Uf::RR),
            ('S', 'C') => Some(Uf::SC),
            ('S', 'P') => Some(Uf::SP),
            ('S', 'E') => Some(Uf::SE),
            ('T', 'O') => Some(Uf::TO),
            _ => None,
        };
        proof {
            Self::reveal_codes();
            let code = seq![a, b];
            match r {
                Some(uf) => {
                    assert(uf.code() =~= code);
                    uf.lemma_with_code();
                },
                None => {
                    assert forall|uf: Uf| uf.code() != code by {
                        if uf.code() == code {
                            assert(uf.code()[0] == a);
                            assert(uf.code()[1] == b);
                        }
                    }
                },
            }
        }
        r
    }

    /// Reads a unit from its code, in either case and with whitespace
    /// around it.
    pub fn from_str(s: &str) -> (r: Result<Uf, UfParseError>)
        ensures
            result_view(r) == Uf::parse(s@),
    {
        let v = to_chars(s);
        let bounds: (usize, usize) = trim_range(&v);
        let from: usize = bounds.0;
        let to: usize = bounds.1;
        if from == to {
            return Err(UfParseError::Empty);
        }
        if to - from != 2 {
            return Err(UfParseError::WrongLength(to - from));
        }
        let ghost text = v@.subrange(from as int, to as int);
        proof {
            assert(to_upper(text) =~= seq![upper(v@[from as int]), upper(v@[from + 1])]);
        }
        match Uf::from_letters(upper_char(v[from]), upper_char(v[from + 1])) {
            Some(uf) => Ok(uf),
            None => Err(UfParseError::InvalidCode(string_from_range(&v, from, to))),
        }
    }

    /// The two-letter code of the unit.
    pub fn abbreviation(&self) -> (r: &'static str)
        ensures
            r@ == self.code(),
    {
        match self {
            Uf::AC => "AC",
            Uf::AL => "AL",
            Uf::AP => "AP",
            Uf::AM => "AM",
            Uf::BA => "BA",
            Uf::CE => "CE",
            Uf::DF => "DF",
            Uf::ES => "ES",
            Uf::GO => "GO",
            Uf::MA => "MA",
            Uf::MT => "MT",
            Uf::MS => "MS",
            Uf::MG => "MG",
            Uf::PA => "PA",
            Uf::PB => "PB",
            Uf::PR => "PR",
            Uf::PE => "PE",
            Uf::PI => "PI",
            Uf::RJ => "RJ",
            Uf::RN => "RN",
            Uf::RS => "RS",
            Uf::RO => "RO",
            Uf::RR => "RR",
            Uf::SC => "SC",
            Uf::SP => "SP",
            Uf::SE => "SE",
            Uf::TO => "TO",
        }
    }

    /// The two-letter code of the unit, as an owned string.
    pub fn to_string(&self) -> (r: String)
        ensures
            r@ == self.code(),
    {
        String::from_str(self.abbreviation())
    }

    /// The full name of the unit.
    pub fn full_name(&self) -> (r: &'static str)
        ensures
            r@ == self.name(),
    {
        match self {
            Uf::AC => "Acre",
            Uf::AL => "Alagoas",
            Uf::AP => "Amapá",
            Uf::AM => "Amazonas",
            Uf::BA => "Bahia",
            Uf::CE => "Ceará",
            Uf::DF => "Distrito Federal",
            Uf::ES => "Espírito Santo",
            Uf::GO => "Goiás",
            Uf::MA => "Maranhão",
            Uf::MT => "Mato Grosso",
            Uf::MS => "Mato Grosso do Sul",
            Uf::MG => "Minas Gerais",
            Uf::PA => "Pará",
            Uf::PB => "Paraíba",
            Uf::PR => "Paraná",
            Uf::PE => "Pernambuco",
            Uf::PI => "Piauí",
            Uf::RJ => "Rio de Janeiro",
            Uf::RN => "Rio Grande do Norte",
            Uf::RS => "Rio Grande do Sul",
            Uf::RO => "Rondônia",
            Uf::RR => "Roraima",
            Uf::SC => "Santa Catarina",
            Uf::SP => "São Paulo",
            Uf::SE => "Sergipe",
            Uf::TO => "Tocantins",
        }
    }

    /// All units, in the order of their declaration.
    pub fn iter() -> (all: Vec<Uf>)
        ensures
            all@ == Uf::all(),
    {
        let mut all: Vec<Uf> = Vec::new();
        all.push(Uf::AC);
        all.push(Uf::AL);
        all.push(Uf::AP);
        all.push(Uf::AM);
        all.push(Uf::BA);
        all.push(Uf::CE);
        all.push(Uf::DF);
        all.push(Uf::ES);
        all.push(Uf::GO);
        all.push(Uf::MA);
        all.push(Uf::MT);
        all.push(Uf::MS);
        all.push(Uf::MG);
        all.push(Uf::PA);
        all.push(Uf::PB);
        all.push(Uf::PR);
        all.push(Uf::PE);
        all.push(Uf::PI);
        all.push(Uf::RJ);
        all.push(Uf::RN);
        all.push(Uf::RS);
        all.push(Uf::RO);
        all.push(Uf::RR);
        all.push(Uf::SC);
        all.push(Uf::SP);
        all.push(Uf::SE);
        all.push(Uf::TO);
        assert(all@ =~= Uf::all());
        all
    }
}

/// The code of a unit is read back as that unit. It holds neither
/// whitespace nor a field separator.
pub proof fn lemma_parse_code(uf: Uf)
    ensures
        Uf::parse(uf.code()) == Ok::<Uf, UfFault>(uf),
        !is_blank(uf.code()),
        !uf.code().contains('@'),
{
    uf.lemma_code_letters();
    uf.lemma_with_code();
    let code = uf.code();
    assert(!is_whitespace(code[0]));
    lemma_trim_start_is_suffix(code, 0);
    assert(code.skip(0) =~= code);
    lemma_trim_end_is_prefix(code, 2);
    assert(code.take(2) =~= code);
    assert(to_upper(code) =~= code);
}

/// A text that names a unit is read as that unit, and nothing else is read
/// as a unit.
pub proof fn lemma_parse_named(s: Seq<char>)
    ensures
        Uf::names_unit(s) <==> Uf::parse(s) is Ok,
        Uf::parse(s) matches Ok(uf) ==> uf.code() == to_upper(trim(s)) && !is_blank(s),
{
    lemma_blank_iff_trim_empty(s);
    assert(to_upper(trim(s)).len() == trim(s).len());
    if Uf::names_unit(s) {
        let uf = choose|uf: Uf| uf.code() == to_upper(trim(s));
        uf.lemma_code_letters();
        uf.lemma_with_code();
    }
}

/// Case does not matter to `parse`: a text names the unit that its
/// upper-case form names, or neither names one.
pub proof fn lemma_parse_ignores_case(s: Seq<char>)
    ensures
        Uf::parse(s) matches Ok(uf) ==> Uf::parse(to_upper(s)) == Ok::<Uf, UfFault>(uf),
        Uf::parse(s) is Err ==> Uf::parse(to_upper(s)) is Err,
        Uf::parse(s) matches Err(fault) ==> !(fault is InvalidCode) ==> Uf::parse(to_upper(s))
            == Err::<Uf, UfFault>(fault),
{
    lemma_trim_to_upper(s);
    lemma_to_upper_idempotent(trim(s));
}

/// Two texts that differ in the case of their letters alone name the same
/// unit, or neither names one.
pub proof fn lemma_parse_same_letters(first: Seq<char>, second: Seq<char>)
    requires
        to_upper(first) == to_upper(second),
    ensures
        Uf::parse(first) is Ok <==> Uf::parse(second) is Ok,
        Uf::parse(first) matches Ok(uf) ==> Uf::parse(second) == Ok::<Uf, UfFault>(uf),
{
    lemma_parse_ignores_case(first);
    lemma_parse_ignores_case(second);
}

} // verus!
