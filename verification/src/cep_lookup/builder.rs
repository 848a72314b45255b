//! The builder: it gathers collections of the six record kinds and merges
//! them into an index in one pass.

use crate::cep_lookup::index::{CepInfo, CepLookup, CepType};
use crate::cep_lookup::precedence::{
    big_user_entry, big_user_offer, candidates, cpc_entry, cpc_offer, is_index_of,
    lemma_offered_all, lemma_offered_next, lemma_overlaid_insert, lemma_overlaid_nothing,
    lemma_stages_make_index, locality_name, locality_offer, neighborhood_name, offered_so_far,
    operational_unit_entry, operational_unit_offer, overlaid, street_entry, street_offer,
    uncoded_locality_entry, Batch, Sources,
};
use crate::models::address::{Address, StreetTypeIndicator};
use crate::models::big_user::BigUser;
use crate::models::code::clone_text;
use crate::models::cpc::Cpc;
use crate::models::locality::{Locality, LocalityId};
use crate::models::neighborhood::NeighborhoodId;
use crate::models::operational_unit::OperationalUnit;
use crate::parser::addresses::Addresses;
use crate::parser::big_users::BigUsers;
use crate::parser::cpcs::Cpcs;
use crate::parser::localities::Localities;
use crate::parser::neighborhoods::Neighborhoods;
use crate::parser::operational_units::OperationalUnits;
use vstd::prelude::*;
use vstd::string::StringExecFns;

verus! {

/// Gathers the records that an index is built from.
pub struct CepLookupBuilder {
    localities: Localities,
    neighborhoods: Neighborhoods,
    addresses: Addresses,
    big_users: BigUsers,
    operational_units: OperationalUnits,
    cpcs: Cpcs,
}

impl View for CepLookupBuilder {
    type V = Sources;

    closed spec fn view(&self) -> Sources {
        Sources {
            localities: self.localities@,
            neighborhoods: self.neighborhoods@,
            addresses: self.addresses@,
            big_users: self.big_users@,
            operational_units: self.operational_units@,
            cpcs: self.cpcs@,
        }
    }
}

impl CepLookupBuilder {
    /// A builder without records.
    pub fn new() -> (r: Self)
        ensures
            r@ == Sources::empty(),
    {
        Self {
            localities: Localities::new(),
            neighborhoods: Neighborhoods::new(),
            addresses: Addresses::new(),
            big_users: BigUsers::new(),
            operational_units: OperationalUnits::new(),
            cpcs: Cpcs::new(),
        }
    }

    /// Adds localities. One that is already there under the same
    /// identifier is replaced.
    pub fn add_localities(&mut self, localities: Localities)
        ensures
            final(self)@ == old(self)@.with(Batch::Localities(localities@)),
    {
        self.localities.extend(&localities);
    }

    /// Adds neighborhoods. One that is already there under the same
    /// identifier is replaced.
    pub fn add_neighborhoods(&mut self, neighborhoods: Neighborhoods)
        ensures
            final(self)@ == old(self)@.with(Batch::Neighborhoods(neighborhoods@)),
    {
        self.neighborhoods.extend(&neighborhoods);
    }

    /// Adds streets. One that is already there under the same identifier
    /// is replaced.
    pub fn add_addresses(&mut self, addresses: Addresses)
        ensures
            final(self)@ == old(self)@.with(Batch::Addresses(addresses@)),
    {
        self.addresses.extend(&addresses);
    }

    /// Adds big users. One that is already there under the same identifier
    /// is replaced.
    pub fn add_big_users(&mut self, big_users: BigUsers)
        ensures
            final(self)@ == old(self)@.with(Batch::BigUsers(big_users@)),
    {
        self.big_users.extend(&big_users);
    }

    /// Adds operational units. One that is already there under the same
    /// identifier is replaced.
    pub fn add_operational_units(&mut self, units: OperationalUnits)
        ensures
            final(self)@ == old(self)@.with(Batch::OperationalUnits(units@)),
    {
        self.operational_units.extend(&units);
    }

    /// Adds community postal boxes. One that is already there under the
    /// same identifier is replaced.
    pub fn add_cpcs(&mut self, cpcs: Cpcs)
        ensures
            final(self)@ == old(self)@.with(Batch::Cpcs(cpcs@)),
    {
        self.cpcs.extend(&cpcs);
    }

    /// Merges the records into an index, stage by stage: uncoded
    /// localities, streets, big users, operational units, community postal
    /// boxes. An entry of a later stage takes the place of an earlier one
    /// for the same postal code.
    pub fn build(self) -> (r: CepLookup)
        ensures
            is_index_of(self@, r@),
    {
        let mut lookup = CepLookup::new();
        self.add_uncoded_localities(&mut lookup);
        let ghost first = lookup@;
        self.add_streets(&mut lookup);
        let ghost second = lookup@;
        self.add_big_user_entries(&mut lookup);
        let ghost third = lookup@;
        self.add_operational_unit_entries(&mut lookup);
        let ghost fourth = lookup@;
        self.add_cpc_entries(&mut lookup);
        proof {
            lemma_stages_make_index(self@, first, second, third, fourth, lookup@);
        }
        lookup
    }

    /// The name of a locality, or an empty text if it is unknown.
    fn name_of_locality(&self, id: &LocalityId) -> (r: String)
        ensures
            r@ == locality_name(self@, id@),
    {
        match self.localities.get(id) {
            Some(locality) => locality.name.clone(),
            None => String::new(),
        }
    }

    /// The name of a neighborhood, if it is known.
    fn name_of_neighborhood(&self, id: &NeighborhoodId) -> (r: Option<String>)
        ensures
            r.deep_view() == neighborhood_name(self@, id@),
    {
        match self.neighborhoods.get(id) {
            Some(neighborhood) => Some(neighborhood.name.clone()),
            None => None,
        }
    }

    /// The entry that a locality offers.
    fn uncoded_locality_info(&self, locality: &Locality) -> (r: Option<CepInfo>)
        ensures
            r.deep_view() == uncoded_locality_entry(self@, locality@),
    {
        match &locality.cep {
            Some(cep) => {
                let neighborhood = match &locality.subordinate_to {
                    Some(parent) => match self.localities.get(parent) {
                        Some(found) => Some(found.name.clone()),
                        None => None,
                    },
                    None => None,
                };
                Some(
                    CepInfo {
                        cep: cep.clone(),
                        uf: locality.uf,
                        locality: locality.name.clone(),
                        neighborhood,
                        address: String::new(),
                        complement: None,
                        type_: CepType::UncodedLocality,
                    },
                )
            },
            None => None,
        }
    }

    /// The entry that a street offers.
    fn street_info(&self, address: &Address) -> (r: CepInfo)
        ensures
            Some(r@) == street_entry(self@, address@),
    {
        let shown = match address.street_type_indicator {
            Some(StreetTypeIndicator::Yes) => {
                let mut text = address.street_type.clone();
                text.append(" ");
                text.append(address.name.as_str());
                text
            },
            _ => address.name.clone(),
        };
        CepInfo {
            cep: address.cep.clone(),
            uf: address.uf,
            locality: self.name_of_locality(&address.locality_id),
            neighborhood: self.name_of_neighborhood(&address.neighborhood_id_start),
            address: shown,
            complement: clone_text(&address.complement),
            type_: CepType::Street,
        }
    }

    /// The entry that a big user offers.
    fn big_user_info(&self, user: &BigUser) -> (r: CepInfo)
        ensures
            Some(r@) == big_user_entry(self@, user@),
    {
        CepInfo {
            cep: user.cep.clone(),
            uf: user.uf,
            locality: self.name_of_locality(&user.locality_id),
            neighborhood: self.name_of_neighborhood(&user.neighborhood_id),
            address: user.address.clone(),
            complement: Some(user.name.clone()),
            type_: CepType::BigUser,
        }
    }

    /// The entry that an operational unit offers.
    fn operational_unit_info(&self, unit: &OperationalUnit) -> (r: CepInfo)
        ensures
            Some(r@) == operational_unit_entry(self@, unit@),
    {
        CepInfo {
            cep: unit.cep.clone(),
            uf: unit.uf,
            locality: self.name_of_locality(&unit.locality_id),
            neighborhood: self.name_of_neighborhood(&unit.neighborhood_id),
            address: unit.address.clone(),
            complement: Some(unit.name.clone()),
            type_: CepType::OperationalUnit,
        }
    }

    /// The entry that a community postal box offers.
    fn cpc_info(&self, cpc: &Cpc) -> (r: CepInfo)
        ensures
            Some(r@) == cpc_entry(self@, cpc@),
    {
        CepInfo {
            cep: cpc.cep.clone(),
            uf: cpc.uf,
            locality: self.name_of_locality(&cpc.locality_id),
            neighborhood: None,
            address: cpc.address.clone(),
            complement: Some(cpc.name.clone()),
            type_: CepType::Cpc,
        }
    }

    /// First stage: the localities that have a postal code of their own.
    fn add_uncoded_localities(&self, lookup: &mut CepLookup)
        ensures
            overlaid(old(lookup)@, candidates(self@, CepType::UncodedLocality), final(lookup)@),
    {
        let records = self.localities.iter();
        let ghost before = lookup@;
        let ghost keys = Seq::new(records.len() as nat, |j: int| records[j].0@);
        let ghost views = Seq::new(records.len() as nat, |j: int| records[j].1@);
        let ghost offer = locality_offer(self@);
        let mut i: usize = 0;
        proof {
            lemma_overlaid_nothing(before);
            assert(offered_so_far(views, 0, offer) =~= Set::empty());
        }
        while i < records.len()
            invariant
                i <= records.len(),
                offer == locality_offer(self@),
                views == Seq::new(records.len() as nat, |j: int| records[j].1@),
                overlaid(before, offered_so_far(views, i as int, offer), lookup@),
            decreases records.len() - i,
        {
            proof {
                lemma_offered_next(views, i as int, offer);
            }
            match self.uncoded_locality_info(records[i].1) {
                Some(info) => {
                    proof {
                        lemma_overlaid_insert(
                            before,
                            offered_so_far(views, i as int, offer),
                            lookup@,
                            info@,
                        );
                    }
                    lookup.insert(info);
                },
                None => {},
            }
            i += 1;
        }
        proof {
            lemma_offered_all(self@.localities, keys, views, offer);
        }
    }

    /// Second stage: the streets.
    fn add_streets(&self, lookup: &mut CepLookup)
        ensures
            overlaid(old(lookup)@, candidates(self@, CepType::Street), final(lookup)@),
    {
        let records = self.addresses.iter();
        let ghost before = lookup@;
        let ghost keys = Seq::new(records.len() as nat, |j: int| records[j].0@);
        let ghost views = Seq::new(records.len() as nat, |j: int| records[j].1@);
        let ghost offer = street_offer(self@);
        let mut i: usize = 0;
        proof {
            lemma_overlaid_nothing(before);
            assert(offered_so_far(views, 0, offer) =~= Set::empty());
        }
        while i < records.len()
            invariant
                i <= records.len(),
                offer == street_offer(self@),
                views == Seq::new(records.len() as nat, |j: int| records[j].1@),
                overlaid(before, offered_so_far(views, i as int, offer), lookup@),
            decreases records.len() - i,
        {
            let info = self.street_info(records[i].1);
            proof {
                lemma_offered_next(views, i as int, offer);
                lemma_overlaid_insert(
                    before,
                    offered_so_far(views, i as int, offer),
                    lookup@,
                    info@,
                );
            }
            lookup.insert(info);
            i += 1;
        }
        proof {
            lemma_offered_all(self@.addresses, keys, views, offer);
        }
    }

    /// Third stage: the big users.
    fn add_big_user_entries(&self, lookup: &mut CepLookup)
        ensures
            overlaid(old(lookup)@, candidates(self@, CepType::BigUser), final(lookup)@),
    {
        let records = self.big_users.iter();
        let ghost before = lookup@;
        let ghost keys = Seq::new(records.len() as nat, |j: int| records[j].0@);
        let ghost views = Seq::new(records.len() as nat, |j: int| records[j].1@);
        let ghost offer = big_user_offer(self@);
        let mut i: usize = 0;
        proof {
            lemma_overlaid_nothing(before);
            assert(offered_so_far(views, 0, offer) =~= Set::empty());
        }
        while i < records.len()
            invariant
                i <= records.len(),
                offer == big_user_offer(self@),
                views == Seq::new(records.len() as nat, |j: int| records[j].1@),
                overlaid(before, offered_so_far(views, i as int, offer), lookup@),
            decreases records.len() - i,
        {
            let info = self.big_user_info(records[i].1);
            proof {
                lemma_offered_next(views, i as int, offer);
                lemma_overlaid_insert(
                    before,
                    offered_so_far(views, i as int, offer),
                    lookup@,
                    info@,
                );
            }
            lookup.insert(info);
            i += 1;
        }
        proof {
            lemma_offered_all(self@.big_users, keys, views, offer);
        }
    }

    /// Fourth stage: the operational units.
    fn add_operational_unit_entries(&self, lookup: &mut CepLookup)
        ensures
            overlaid(old(lookup)@, candidates(self@, CepType::OperationalUnit), final(lookup)@),
    {
        let records = self.operational_units.iter();
        let ghost before = lookup@;
        let ghost keys = Seq::new(records.len() as nat, |j: int| records[j].0@);
        let ghost views = Seq::new(records.len() as nat, |j: int| records[j].1@);
        let ghost offer = operational_unit_offer(self@);
        let mut i: usize = 0;
        proof {
            lemma_overlaid_nothing(before);
            assert(offered_so_far(views, 0, offer) =~= Set::empty());
        }
        while i < records.len()
            invariant
                i <= records.len(),
                offer == operational_unit_offer(self@),
                views == Seq::new(records.len() as nat, |j: int| records[j].1@),
                overlaid(before, offered_so_far(views, i as int, offer), lookup@),
            decreases records.len() - i,
        {
            let info = self.operational_unit_info(records[i].1);
            proof {
                lemma_offered_next(views, i as int, offer);
                lemma_overlaid_insert(
                    before,
                    offered_so_far(views, i as int, offer),
                    lookup@,
                    info@,
                );
            }
            lookup.insert(info);
            i += 1;
        }
        proof {
            lemma_offered_all(self@.operational_units, keys, views, offer);
        }
    }

    /// Fifth stage: the community postal boxes.
    fn add_cpc_entries(&self, lookup: &mut CepLookup)
        ensures
            overlaid(old(lookup)@, candidates(self@, CepType::Cpc), final(lookup)@),
    {
        let records = self.cpcs.iter();
        let ghost before = lookup@;
        let ghost keys = Seq::new(records.len() as nat, |j: int| records[j].0@);
        let ghost views = Seq::new(records.len() as nat, |j: int| records[j].1@);
        let ghost offer = cpc_offer(self@);
        let mut i: usize = 0;
        proof {
            lemma_overlaid_nothing(before);
            assert(offered_so_far(views, 0, offer) =~= Set::empty());
        }
        while i < records.len()
            invariant
                i <= records.len(),
                offer == cpc_offer(self@),
                views == Seq::new(records.len() as nat, |j: int| records[j].1@),
                overlaid(before, offered_so_far(views, i as int, offer), lookup@),
            decreases records.len() - i,
        {
            let info = self.cpc_info(records[i].1);
            proof {
                lemma_offered_next(views, i as int, offer);
                lemma_overlaid_insert(
                    before,
                    offered_so_far(views, i as int, offer),
                    lookup@,
                    info@,
                );
            }
            lookup.insert(info);
            i += 1;
        }
        proof {
            lemma_offered_all(self@.cpcs, keys, views, offer);
        }
    }
}

impl Default for CepLookupBuilder {
    fn default() -> (r: Self)
        ensures
            r@ == Sources::empty(),
    {
        Self::new()
    }
}

} // verus!
