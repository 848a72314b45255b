//! The index itself: one entry per postal code.

use crate::models::code::clone_text;
use crate::models::uf::Uf;
use vstd::hash_map::StringHashMap;
use vstd::prelude::*;

verus! {

/// A postal code: eight digits as text. The index carries it through
/// without looking into it.
pub type Cep = String;

/// The record kind that an entry of the index came from.
#[derive(Debug, Copy, Clone, PartialEq, Eq, Structural)]
pub enum CepType {
    /// The general postal code of a locality not coded at street level.
    UncodedLocality,
    /// A street.
    Street,
    /// A big user.
    BigUser,
    /// An operational unit.
    OperationalUnit,
    /// A community postal box.
    Cpc,
}

/// What the index knows of a postal code, ready for display.
#[derive(Debug)]
pub struct CepInfo {
    /// The postal code.
    pub cep: Cep,
    /// Federative unit.
    pub uf: Uf,
    /// Name of the locality; empty where the locality is unknown.
    pub locality: String,
    /// Name of the neighborhood, where there is one.
    pub neighborhood: Option<String>,
    /// Address text; empty for an entry without street-level addressing.
    pub address: String,
    /// Complement or qualifier.
    pub complement: Option<String>,
    /// The record kind that the entry came from.
    pub type_: CepType,
}

/// The mathematical value of a [`CepInfo`].
pub struct CepInfoView {
    pub cep: Seq<char>,
    pub uf: Uf,
    pub locality: Seq<char>,
    pub neighborhood: Option<Seq<char>>,
    pub address: Seq<char>,
    pub complement: Option<Seq<char>>,
    pub type_: CepType,
}

impl View for CepInfo {
    type V = CepInfoView;

    open spec fn view(&self) -> CepInfoView {
        CepInfoView {
            cep: self.cep@,
            uf: self.uf,
            locality: self.locality@,
            neighborhood: self.neighborhood.deep_view(),
            address: self.address@,
            complement: self.complement.deep_view(),
            type_: self.type_,
        }
    }
}

impl DeepView for CepInfo {
    type V = CepInfoView;

    open spec fn deep_view(&self) -> CepInfoView {
        self@
    }
}

impl Clone for CepInfo {
    fn clone(&self) -> (r: Self)
        ensures
            r@ == self@,
    {
        CepInfo {
            cep: self.cep.clone(),
            uf: self.uf,
            locality: self.locality.clone(),
            neighborhood: clone_text(&self.neighborhood),
            address: self.address.clone(),
            complement: clone_text(&self.complement),
            type_: self.type_,
        }
    }
}

/// The index: at most one entry per postal code.
pub struct CepLookup {
    entries: Vec<CepInfo>,
    positions: StringHashMap<usize>,
}

impl View for CepLookup {
    type V = Map<Seq<char>, CepInfoView>;

    closed spec fn view(&self) -> Map<Seq<char>, CepInfoView> {
        Map::new(
            |cep: Seq<char>| self.positions@.contains_key(cep),
            |cep: Seq<char>| self.entries@[self.positions@[cep] as int]@,
        )
    }
}

impl CepLookup {
    /// Every postal code has one entry, and `positions` tells where it
    /// stands among `entries`.
    #[verifier::type_invariant]
    spec fn consistent(self) -> bool {
        &&& self.positions@.dom().finite()
        &&& self.positions@.len() == self.entries@.len()
        &&& forall|cep: Seq<char>| #[trigger]
            self.positions@.contains_key(cep) ==> self.positions@[cep] < self.entries@.len()
                && self.entries@[self.positions@[cep] as int].cep@ == cep
        &&& forall|i: int|
            0 <= i < self.entries@.len() ==> self.positions@.contains_key(
                (#[trigger] self.entries@[i]).cep@,
            ) && self.positions@[self.entries@[i].cep@] == i
    }

    /// An empty index.
    pub fn new() -> (r: Self)
        ensures
            r@ == Map::<Seq<char>, CepInfoView>::empty(),
    {
        let r = Self { entries: Vec::new(), positions: StringHashMap::new() };
        assert(r@ =~= Map::<Seq<char>, CepInfoView>::empty());
        r
    }

    /// An empty index with room for `capacity` entries.
    pub fn with_capacity(capacity: usize) -> (r: Self)
        ensures
            r@ == Map::<Seq<char>, CepInfoView>::empty(),
    {
        let r = Self {
            entries: Vec::with_capacity(capacity),
            positions: StringHashMap::with_capacity(capacity),
        };
        assert(r@ =~= Map::<Seq<char>, CepInfoView>::empty());
        r
    }

    /// Number of postal codes in the index.
    pub fn len(&self) -> (n: usize)
        ensures
            n == self@.len(),
    {
        proof {
            use_type_invariant(self);
            assert(self@.dom() =~= self.positions@.dom());
        }
        self.entries.len()
    }

    /// Tells whether the index holds no postal code.
    pub fn is_empty(&self) -> (b: bool)
        ensures
            b == (self@.len() == 0),
    {
        self.len() == 0
    }

    /// The entry of a postal code, if the index has one.
    pub fn get(&self, cep: &str) -> (r: Option<&CepInfo>)
        ensures
            match r {
                Some(info) => self@.contains_key(cep@) && info@ == self@[cep@],
                None => !self@.contains_key(cep@),
            },
    {
        proof {
            use_type_invariant(self);
        }
        match self.positions.get(cep) {
            Some(position) => Some(&self.entries[*position]),
            None => None,
        }
    }

    /// Puts an entry under its postal code, in place of the entry that the
    /// code had before, if any.
    pub fn insert(&mut self, info: CepInfo)
        ensures
            final(self)@ == old(self)@.insert(info.cep@, info@),
    {
        proof {
            use_type_invariant(&*self);
        }
        let ghost added = info;
        // The content is taken out while it changes and put back whole.
        let mut taken = Self::new();
        std::mem::swap(self, &mut taken);
        let CepLookup { entries, positions } = taken;
        let mut entries = entries;
        let mut positions = positions;
        let ghost before = entries@;
        let ghost places = positions@;
        let found: Option<usize> = match positions.get(info.cep.as_str()) {
            Some(position) => Some(*position),
            None => None,
        };
        match found {
            Some(position) => {
                entries.set(position, info);
                proof {
                    assert forall|i: int| 0 <= i < entries@.len() implies places.contains_key(
                        (#[trigger] entries@[i]).cep@,
                    ) && places[entries@[i].cep@] == i by {
                        if i != position {
                            assert(entries@[i] == before[i]);
                        }
                    }
                }
            },
            None => {
                let position: usize = entries.len();
                let key = info.cep.clone();
                entries.push(info);
                positions.insert(key, position);
                proof {
                    assert(positions@.dom() =~= places.dom().insert(added.cep@));
                    assert forall|cep: Seq<char>| #[trigger]
                        positions@.contains_key(cep) implies positions@[cep] < entries@.len()
                        && entries@[positions@[cep] as int].cep@ == cep by {
                        if cep != added.cep@ {
                            assert(places.contains_key(cep));
                            assert(entries@[places[cep] as int] == before[places[cep] as int]);
                        }
                    }
                    assert forall|i: int| 0 <= i < entries@.len() implies positions@.contains_key(
                        (#[trigger] entries@[i]).cep@,
                    ) && positions@[entries@[i].cep@] == i by {
                        if i < before.len() {
                            assert(entries@[i] == before[i]);
                            assert(places.contains_key(before[i].cep@));
                        }
                    }
                }
            },
        }
        *self = CepLookup { entries, positions };
        assert(self@ =~= old(self)@.insert(added.cep@, added@));
    }

    /// The entry of a postal code, if the index has one.
    pub fn lookup(&self, cep: &str) -> (r: Option<&CepInfo>)
        ensures
            match r {
                Some(info) => self@.contains_key(cep@) && info@ == self@[cep@],
                None => !self@.contains_key(cep@),
            },
    {
        self.get(cep)
    }

    /// The entries of a federative unit, each once, in no particular order.
    pub fn by_uf(&self, uf: Uf) -> (r: Vec<&CepInfo>)
        ensures
            forall|i: int|
                0 <= i < r.len() ==> self@.contains_key((#[trigger] r[i]).cep@) && self@[r[i].cep@]
                    == r[i]@ && r[i].uf == uf,
            forall|i: int, j: int|
                0 <= i < j < r.len() ==> (#[trigger] r[i]).cep@ != (#[trigger] r[j]).cep@,
            forall|cep: Seq<char>|
                self@.contains_key(cep) && self@[cep].uf == uf ==> exists|i: int|
                    0 <= i < r.len() && (#[trigger] r[i]).cep@ == cep,
    {
        self.select(&Wanted::Unit(uf))
    }

    /// The entries with the given locality name, each once, in no
    /// particular order.
    pub fn by_locality(&self, locality: &str) -> (r: Vec<&CepInfo>)
        ensures
            forall|i: int|
                0 <= i < r.len() ==> self@.contains_key((#[trigger] r[i]).cep@) && self@[r[i].cep@]
                    == r[i]@ && r[i].locality@ == locality@,
            forall|i: int, j: int|
                0 <= i < j < r.len() ==> (#[trigger] r[i]).cep@ != (#[trigger] r[j]).cep@,
            forall|cep: Seq<char>|
                self@.contains_key(cep) && self@[cep].locality == locality@ ==> exists|i: int|
                    0 <= i < r.len() && (#[trigger] r[i]).cep@ == cep,
    {
        self.select(&Wanted::Locality(locality.to_owned()))
    }

    /// The entries that `wanted` accepts, each once, in the order in which
    /// their postal codes first came into the index.
    fn select(&self, wanted: &Wanted) -> (r: Vec<&CepInfo>)
        ensures
            forall|i: int|
                0 <= i < r.len() ==> self@.contains_key((#[trigger] r[i]).cep@) && self@[r[i].cep@]
                    == r[i]@ && wanted.accepts(r[i]@),
            forall|i: int, j: int|
                0 <= i < j < r.len() ==> (#[trigger] r[i]).cep@ != (#[trigger] r[j]).cep@,
            forall|cep: Seq<char>|
                self@.contains_key(cep) && wanted.accepts(self@[cep]) ==> exists|i: int|
                    0 <= i < r.len() && (#[trigger] r[i]).cep@ == cep,
    {
        proof {
            use_type_invariant(self);
        }
        let mut r: Vec<&CepInfo> = Vec::new();
        let ghost mut chosen: Seq<int> = Seq::empty();
        let mut k: usize = 0;
        while k < self.entries.len()
            invariant
                k <= self.entries.len(),
                chosen.len() == r.len(),
                forall|i: int|
                    0 <= i < r.len() ==> 0 <= (#[trigger] chosen[i]) < k && *r[i]
                        == self.entries@[chosen[i]] && wanted.accepts(r[i]@),
                forall|i: int, j: int|
                    0 <= i < j < r.len() ==> (#[trigger] chosen[i]) < (#[trigger] chosen[j]),
                forall|p: int|
                    0 <= p < k && wanted.accepts((#[trigger] self.entries@[p])@) ==> exists|i: int|
                        0 <= i < r.len() && (#[trigger] chosen[i]) == p,
            decreases self.entries.len() - k,
        {
            let entry = &self.entries[k];
            if wanted.takes(entry) {
                let ghost held = chosen;
                let ghost before = r@;
                r.push(entry);
                proof {
                    chosen = chosen.push(k as int);
                    assert forall|i: int| 0 <= i < r.len() implies 0 <= (#[trigger] chosen[i]) < k
                        + 1 && *r[i] == self.entries@[chosen[i]] && wanted.accepts(r[i]@) by {
                        if i < held.len() {
                            assert(chosen[i] == held[i]);
                            assert(r[i] == before[i]);
                        }
                    }
                    assert forall|i: int, j: int| 0 <= i < j < r.len() implies (
                    #[trigger] chosen[i]) < (#[trigger] chosen[j]) by {
                        assert(chosen[i] == held[i]);
                        if j < held.len() {
                            assert(chosen[j] == held[j]);
                        }
                    }
                    assert forall|p: int|
                        0 <= p < k + 1 && wanted.accepts(
                            (#[trigger] self.entries@[p])@,
                        ) implies exists|i: int|
                        0 <= i < r.len() && (#[trigger] chosen[i]) == p by {
                        if p < k {
                            let i = choose|i: int| 0 <= i < held.len() && (#[trigger] held[i]) == p;
                            assert(chosen[i] == p);
                        } else {
                            assert(chosen[r.len() - 1] == p);
                        }
                    }
                }
            }
            k += 1;
        }
        proof {
            assert forall|i: int| 0 <= i < r.len() implies self@.contains_key(
                (#[trigger] r[i]).cep@,
            ) && self@[r[i].cep@] == r[i]@ && wanted.accepts(r[i]@) by {
                let p = chosen[i];
                assert(self.positions@.contains_key(self.entries@[p].cep@));
            }
            assert forall|i: int, j: int| 0 <= i < j < r.len() implies (#[trigger] r[i]).cep@ != (
            #[trigger] r[j]).cep@ by {
                assert(chosen[i] < chosen[j]);
                assert(self.positions@.contains_key(self.entries@[chosen[i]].cep@));
                assert(self.positions@.contains_key(self.entries@[chosen[j]].cep@));
            }
            assert forall|cep: Seq<char>|
                self@.contains_key(cep) && wanted.accepts(self@[cep]) implies exists|i: int|
                0 <= i < r.len() && (#[trigger] r[i]).cep@ == cep by {
                let p = self.positions@[cep] as int;
                assert(wanted.accepts(self.entries@[p]@));
                let i = choose|i: int| 0 <= i < r.len() && (#[trigger] chosen[i]) == p;
                assert(r[i].cep@ == cep);
            }
        }
        r
    }
}

/// What a search of the index asks of an entry.
enum Wanted {
    /// The entry lies in this federative unit.
    Unit(Uf),
    /// The entry has this locality name.
    Locality(String),
}

impl Wanted {
    /// Tells whether an entry is what the search asks for.
    spec fn accepts(self, info: CepInfoView) -> bool {
        match self {
            Wanted::Unit(uf) => info.uf == uf,
            Wanted::Locality(name) => info.locality == name@,
        }
    }

    /// Tells whether an entry is what the search asks for.
    fn takes(&self, info: &CepInfo) -> (b: bool)
        ensures
            b == self.accepts(info@),
    {
        match self {
            Wanted::Unit(uf) => info.uf == *uf,
            Wanted::Locality(name) => info.locality == *name,
        }
    }
}

impl Default for CepLookup {
    fn default() -> (r: Self)
        ensures
            r@ == Map::<Seq<char>, CepInfoView>::empty(),
    {
        Self::new()
    }
}

} // verus!
