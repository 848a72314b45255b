//! A reduced model of the localities file: each locality by its identifier
//! and its name alone.

use crate::parser::collect::{entries, lists_keys};
use std::collections::HashMap;
use vstd::prelude::*;

verus! {

/// Identifier of a locality in the reduced model: any 32-bit number.
#[derive(Debug, Clone, Copy, PartialEq, Eq, Hash)]
pub struct LocalityId(u32);

impl View for LocalityId {
    type V = u32;

    closed spec fn view(&self) -> u32 {
        self.0
    }
}

impl LocalityId {
    /// The identifier with the given number.
    pub fn new(id: u32) -> (r: Self)
        ensures
            r@ == id,
    {
        Self(id)
    }

    /// The number of the identifier.
    pub fn get(&self) -> (r: u32)
        ensures
            r == self@,
    {
        self.0
    }
}

/// A locality in the reduced model.
#[derive(Debug, PartialEq, Eq)]
pub struct Locality {
    /// Identifier of the locality.
    pub id: LocalityId,
    /// Name of the locality, trimmed.
    pub name: String,
}

/// The mathematical value of a [`Locality`].
pub struct LocalityView {
    pub id: u32,
    pub name: Seq<char>,
}

impl View for Locality {
    type V = LocalityView;

    open spec fn view(&self) -> LocalityView {
        LocalityView { id: self.id@, name: self.name@ }
    }
}

impl Clone for Locality {
    fn clone(&self) -> (r: Self)
        ensures
            r@ == self@,
    {
        Locality { id: self.id, name: self.name.clone() }
    }
}

/// Localities of the reduced model, each under its identifier.
#[derive(Debug)]
pub struct Localities(HashMap<u32, Locality>);

impl View for Localities {
    type V = Map<u32, LocalityView>;

    closed spec fn view(&self) -> Map<u32, LocalityView> {
        self.0@.map_values(|locality: Locality| locality@)
    }
}

impl Localities {
    /// Every record stands under its own identifier.
    #[verifier::type_invariant]
    spec fn keyed_by_identifier(self) -> bool {
        forall|id: u32| #[trigger] self.0@.contains_key(id) ==> self.0@[id].id@ == id
    }

    /// An empty collection.
    pub fn new() -> (r: Self)
        ensures
            r@ == Map::<u32, LocalityView>::empty(),
    {
        let r = Self(HashMap::new());
        assert(r@ =~= Map::<u32, LocalityView>::empty());
        r
    }

    /// An empty collection with room for `capacity` localities.
    pub fn with_capacity(capacity: usize) -> (r: Self)
        ensures
            r@ == Map::<u32, LocalityView>::empty(),
    {
        let r = Self(HashMap::with_capacity(capacity));
        assert(r@ =~= Map::<u32, LocalityView>::empty());
        r
    }

    /// Number of localities.
    pub fn len(&self) -> (n: usize)
        ensures
            n == self@.len(),
    {
        assert(self@.dom() =~= self.0@.dom());
        self.0.len()
    }

    /// Tells whether the collection holds no locality.
    pub fn is_empty(&self) -> (b: bool)
        ensures
            b == (self@.len() == 0),
    {
        assert(self@.dom() =~= self.0@.dom());
        self.0.len() == 0
    }

    /// The locality with the given identifier, if there is one.
    pub fn get(&self, id: LocalityId) -> (r: Option<&Locality>)
        ensures
            match r {
                Some(locality) => self@.contains_key(id@) && locality@ == self@[id@],
                None => !self@.contains_key(id@),
            },
    {
        let key: u32 = id.get();
        self.0.get(&key)
    }

    /// Puts a locality under its identifier, in place of the one that
    /// stood there before, if any.
    pub fn insert(&mut self, locality: Locality)
        ensures
            final(self)@ == old(self)@.insert(locality.id@, locality@),
    {
        proof {
            use_type_invariant(&*self);
        }
        let key: u32 = locality.id.get();
        let ghost added = locality;
        // The content is taken out while it changes and put back whole.
        let mut taken = Self::new();
        std::mem::swap(self, &mut taken);
        let mut localities = taken.0;
        localities.insert(key, locality);
        *self = Self(localities);
        assert(self@ =~= old(self)@.insert(added.id@, added@));
    }

    /// Every locality with its identifier, each once, in no particular
    /// order.
    pub fn iter(&self) -> (r: Vec<(LocalityId, &Locality)>)
        ensures
            r.len() == self@.len(),
            lists_keys(Seq::new(r.len() as nat, |i: int| r[i].0@), self@),
            forall|i: int|
                0 <= i < r.len() ==> self@.contains_key((#[trigger] r[i]).0@) && r[i].1@
                    == self@[r[i].0@] && r[i].1.id@ == r[i].0@,
    {
        let pairs = entries(&self.0);
        let mut r: Vec<(LocalityId, &Locality)> = Vec::new();
        let mut i: usize = 0;
        proof {
            use_type_invariant(self);
            assert(self@.dom() =~= self.0@.dom());
            let listed = Seq::new(pairs.len() as nat, |j: int| pairs[j].0);
            assert forall|j: int| 0 <= j < pairs.len() implies self.0@.contains_key(
                (#[trigger] pairs[j]).0,
            ) by {
                assert(listed[j] == pairs[j].0);
            }
        }
        while i < pairs.len()
            invariant
                i <= pairs.len(),
                r.len() == i,
                forall|j: int|
                    0 <= j < pairs.len() ==> self.0@.contains_key((#[trigger] pairs[j]).0)
                        && self.0@[pairs[j].0] == *pairs[j].1 && pairs[j].1.id@ == pairs[j].0,
                forall|j: int|
                    0 <= j < i ==> (#[trigger] r[j]).0@ == pairs[j].0 && r[j].1 == pairs[j].1,
            decreases pairs.len() - i,
        {
            r.push((pairs[i].1.id, pairs[i].1));
            i += 1;
        }
        proof {
            let keys = Seq::new(r.len() as nat, |i: int| r[i].0@);
            assert(keys =~= Seq::new(pairs.len() as nat, |i: int| pairs[i].0));
        }
        r
    }
}

impl Default for Localities {
    fn default() -> (r: Self)
        ensures
            r@ == Map::<u32, LocalityView>::empty(),
    {
        Self::new()
    }
}

} // verus!
