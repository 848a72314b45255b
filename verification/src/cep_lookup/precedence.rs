//! What the merge of the six record kinds yields: the entry that each
//! record offers, and which offer a postal code ends up with.

use crate::cep_lookup::index::{CepInfoView, CepType};
use crate::models::address::{AddressView, StreetTypeIndicator};
use crate::models::big_user::BigUserView;
use crate::models::cpc::CpcView;
use crate::models::locality::LocalityView;
use crate::models::neighborhood::NeighborhoodView;
use crate::models::operational_unit::OperationalUnitView;
use crate::parser::collect::lists_keys;
use vstd::prelude::*;

verus! {

/// The records that an index is built from, each kind under its
/// identifiers.
pub struct Sources {
    pub localities: Map<u32, LocalityView>,
    pub neighborhoods: Map<u32, NeighborhoodView>,
    pub addresses: Map<u32, AddressView>,
    pub big_users: Map<u32, BigUserView>,
    pub operational_units: Map<u32, OperationalUnitView>,
    pub cpcs: Map<u32, CpcView>,
}

/// Records of one kind that are added to the sources together.
pub enum Batch {
    Localities(Map<u32, LocalityView>),
    Neighborhoods(Map<u32, NeighborhoodView>),
    Addresses(Map<u32, AddressView>),
    BigUsers(Map<u32, BigUserView>),
    OperationalUnits(Map<u32, OperationalUnitView>),
    Cpcs(Map<u32, CpcView>),
}

impl Sources {
    /// Sources without records.
    pub open spec fn empty() -> Sources {
        Sources {
            localities: Map::empty(),
            neighborhoods: Map::empty(),
            addresses: Map::empty(),
            big_users: Map::empty(),
            operational_units: Map::empty(),
            cpcs: Map::empty(),
        }
    }

    /// The sources with a batch added: its records join those of their
    /// kind, and take the place of records with the same identifier.
    pub open spec fn with(self, batch: Batch) -> Sources {
        match batch {
            Batch::Localities(more) => Sources {
                localities: self.localities.union_prefer_right(more),
                ..self
            },
            Batch::Neighborhoods(more) => Sources {
                neighborhoods: self.neighborhoods.union_prefer_right(more),
                ..self
            },
            Batch::Addresses(more) => Sources {
                addresses: self.addresses.union_prefer_right(more),
                ..self
            },
            Batch::BigUsers(more) => Sources {
                big_users: self.big_users.union_prefer_right(more),
                ..self
            },
            Batch::OperationalUnits(more) => Sources {
                operational_units: self.operational_units.union_prefer_right(more),
                ..self
            },
            Batch::Cpcs(more) => Sources { cpcs: self.cpcs.union_prefer_right(more), ..self },
        }
    }
}

/// Two maps hold the same record wherever both hold one.
pub open spec fn agree<R>(first: Map<u32, R>, second: Map<u32, R>) -> bool {
    forall|id: u32| first.contains_key(id) && second.contains_key(id) ==> first[id] == second[id]
}

/// Two batches do not compete: they are of different kinds, or no
/// identifier stands for different records in them.
pub open spec fn compatible(first: Batch, second: Batch) -> bool {
    match (first, second) {
        (Batch::Localities(a), Batch::Localities(b)) => agree(a, b),
        (Batch::Neighborhoods(a), Batch::Neighborhoods(b)) => agree(a, b),
        (Batch::Addresses(a), Batch::Addresses(b)) => agree(a, b),
        (Batch::BigUsers(a), Batch::BigUsers(b)) => agree(a, b),
        (Batch::OperationalUnits(a), Batch::OperationalUnits(b)) => agree(a, b),
        (Batch::Cpcs(a), Batch::Cpcs(b)) => agree(a, b),
        _ => true,
    }
}

/// Batches that do not compete can be added in either order.
pub proof fn lemma_batches_commute(sources: Sources, first: Batch, second: Batch)
    requires
        compatible(first, second),
    ensures
        sources.with(first).with(second) == sources.with(second).with(first),
{
    let one = sources.with(first).with(second);
    let other = sources.with(second).with(first);
    assert(one.localities =~= other.localities);
    assert(one.neighborhoods =~= other.neighborhoods);
    assert(one.addresses =~= other.addresses);
    assert(one.big_users =~= other.big_users);
    assert(one.operational_units =~= other.operational_units);
    assert(one.cpcs =~= other.cpcs);
}

/// Two batches of one kind as a single batch, the second laid over the
/// first. Batches of different kinds cannot be joined.
pub open spec fn joined(first: Batch, second: Batch) -> Option<Batch> {
    match (first, second) {
        (Batch::Localities(a), Batch::Localities(b)) => Some(
            Batch::Localities(a.union_prefer_right(b)),
        ),
        (Batch::Neighborhoods(a), Batch::Neighborhoods(b)) => Some(
            Batch::Neighborhoods(a.union_prefer_right(b)),
        ),
        (Batch::Addresses(a), Batch::Addresses(b)) => Some(
            Batch::Addresses(a.union_prefer_right(b)),
        ),
        (Batch::BigUsers(a), Batch::BigUsers(b)) => Some(Batch::BigUsers(a.union_prefer_right(b))),
        (Batch::OperationalUnits(a), Batch::OperationalUnits(b)) => Some(
            Batch::OperationalUnits(a.union_prefer_right(b)),
        ),
        (Batch::Cpcs(a), Batch::Cpcs(b)) => Some(Batch::Cpcs(a.union_prefer_right(b))),
        _ => None,
    }
}

/// Adding two batches of one kind one after the other is adding them
/// joined.
pub proof fn lemma_batches_associate(sources: Sources, first: Batch, second: Batch)
    requires
        joined(first, second) is Some,
    ensures
        sources.with(first).with(second) == sources.with(joined(first, second)->0),
{
    let one = sources.with(first).with(second);
    let other = sources.with(joined(first, second)->0);
    assert(one.localities =~= other.localities);
    assert(one.neighborhoods =~= other.neighborhoods);
    assert(one.addresses =~= other.addresses);
    assert(one.big_users =~= other.big_users);
    assert(one.operational_units =~= other.operational_units);
    assert(one.cpcs =~= other.cpcs);
}

/// The name of the locality with the given identifier; empty if the
/// sources hold no such locality.
pub open spec fn locality_name(sources: Sources, id: u32) -> Seq<char> {
    if sources.localities.contains_key(id) {
        sources.localities[id].name
    } else {
        Seq::empty()
    }
}

/// The name of the neighborhood with the given identifier, if the sources
/// hold such a neighborhood.
pub open spec fn neighborhood_name(sources: Sources, id: u32) -> Option<Seq<char>> {
    if sources.neighborhoods.contains_key(id) {
        Some(sources.neighborhoods[id].name)
    } else {
        None
    }
}

/// The name of the locality that another is subordinate to, looked up one
/// level up and no further.
pub open spec fn parent_name(sources: Sources, locality: LocalityView) -> Option<Seq<char>> {
    match locality.subordinate_to {
        Some(parent) => if sources.localities.contains_key(parent) {
            Some(sources.localities[parent].name)
        } else {
            None
        },
        None => None,
    }
}

/// How a street is displayed: its type and its name with a space between
/// them where the street says so, else its name alone.
pub open spec fn display_address(address: AddressView) -> Seq<char> {
    if address.street_type_indicator == Some(StreetTypeIndicator::Yes) {
        address.street_type + " "@ + address.name
    } else {
        address.name
    }
}

/// The entry that a locality offers: one under its own postal code, if it
/// has one.
pub open spec fn uncoded_locality_entry(sources: Sources, locality: LocalityView) -> Option<
    CepInfoView,
> {
    match locality.cep {
        Some(cep) => Some(
            CepInfoView {
                cep,
                uf: locality.uf,
                locality: locality.name,
                neighborhood: parent_name(sources, locality),
                address: Seq::empty(),
                complement: None,
                type_: CepType::UncodedLocality,
            },
        ),
        None => None,
    }
}

/// The entry that a street offers.
pub open spec fn street_entry(sources: Sources, address: AddressView) -> Option<CepInfoView> {
    Some(
        CepInfoView {
            cep: address.cep,
            uf: address.uf,
            locality: locality_name(sources, address.locality_id),
            neighborhood: neighborhood_name(sources, address.neighborhood_id_start),
            address: display_address(address),
            complement: address.complement,
            type_: CepType::Street,
        },
    )
}

/// The entry that a big user offers.
pub open spec fn big_user_entry(sources: Sources, user: BigUserView) -> Option<CepInfoView> {
    Some(
        CepInfoView {
            cep: user.cep,
            uf: user.uf,
            locality: locality_name(sources, user.locality_id),
            neighborhood: neighborhood_name(sources, user.neighborhood_id),
            address: user.address,
            complement: Some(user.name),
            type_: CepType::BigUser,
        },
    )
}

/// The entry that an operational unit offers.
pub open spec fn operational_unit_entry(sources: Sources, unit: OperationalUnitView) -> Option<
    CepInfoView,
> {
    Some(
        CepInfoView {
            cep: unit.cep,
            uf: unit.uf,
            locality: locality_name(sources, unit.locality_id),
            neighborhood: neighborhood_name(sources, unit.neighborhood_id),
            address: unit.address,
            complement: Some(unit.name),
            type_: CepType::OperationalUnit,
        },
    )
}

/// The entry that a community postal box offers.
pub open spec fn cpc_entry(sources: Sources, cpc: CpcView) -> Option<CepInfoView> {
    Some(
        CepInfoView {
            cep: cpc.cep,
            uf: cpc.uf,
            locality: locality_name(sources, cpc.locality_id),
            neighborhood: None,
            address: cpc.address,
            complement: Some(cpc.name),
            type_: CepType::Cpc,
        },
    )
}

/// `uncoded_locality_entry` over given sources.
pub open spec fn locality_offer(sources: Sources) -> spec_fn(LocalityView) -> Option<CepInfoView> {
    |locality: LocalityView| uncoded_locality_entry(sources, locality)
}

/// `street_entry` over given sources.
pub open spec fn street_offer(sources: Sources) -> spec_fn(AddressView) -> Option<CepInfoView> {
    |address: AddressView| street_entry(sources, address)
}

/// `big_user_entry` over given sources.
pub open spec fn big_user_offer(sources: Sources) -> spec_fn(BigUserView) -> Option<CepInfoView> {
    |user: BigUserView| big_user_entry(sources, user)
}

/// `operational_unit_entry` over given sources.
pub open spec fn operational_unit_offer(sources: Sources) -> spec_fn(OperationalUnitView) -> Option<
    CepInfoView,
> {
    |unit: OperationalUnitView| operational_unit_entry(sources, unit)
}

/// `cpc_entry` over given sources.
pub open spec fn cpc_offer(sources: Sources) -> spec_fn(CpcView) -> Option<CepInfoView> {
    |cpc: CpcView| cpc_entry(sources, cpc)
}

/// The entries that the records of one kind offer.
pub open spec fn offers<R>(records: Map<u32, R>, offer: spec_fn(R) -> Option<CepInfoView>) -> Set<
    CepInfoView,
> {
    Set::new(
        |entry: CepInfoView|
            exists|id: u32| records.contains_key(id)
                && offer(#[trigger] records[id]) == Some(entry),
    )
}

/// The entries that the sources offer for a record kind.
pub open spec fn candidates(sources: Sources, kind: CepType) -> Set<CepInfoView> {
    match kind {
        CepType::UncodedLocality => offers(sources.localities, locality_offer(sources)),
        CepType::Street => offers(sources.addresses, street_offer(sources)),
        CepType::BigUser => offers(sources.big_users, big_user_offer(sources)),
        CepType::OperationalUnit => offers(
            sources.operational_units,
            operational_unit_offer(sources),
        ),
        CepType::Cpc => offers(sources.cpcs, cpc_offer(sources)),
    }
}

/// One of the entries is for the postal code.
pub open spec fn has_code(entries: Set<CepInfoView>, cep: Seq<char>) -> bool {
    exists|entry: CepInfoView| entries.contains(entry) && entry.cep == cep
}

/// The record kind whose entry a postal code ends up with: of the kinds
/// that offer one, the last in the order uncoded locality, street, big
/// user, operational unit, community postal box.
pub open spec fn winner(sources: Sources, cep: Seq<char>) -> Option<CepType> {
    if has_code(candidates(sources, CepType::Cpc), cep) {
        Some(CepType::Cpc)
    } else if has_code(candidates(sources, CepType::OperationalUnit), cep) {
        Some(CepType::OperationalUnit)
    } else if has_code(candidates(sources, CepType::BigUser), cep) {
        Some(CepType::BigUser)
    } else if has_code(candidates(sources, CepType::Street), cep) {
        Some(CepType::Street)
    } else if has_code(candidates(sources, CepType::UncodedLocality), cep) {
        Some(CepType::UncodedLocality)
    } else {
        None
    }
}

/// `index` is an index of the sources: it has exactly the postal codes
/// that some record offers an entry for, and each has an entry offered by
/// a record of the kind that wins it. Where several records of that kind
/// offer one, any of them may stand.
pub open spec fn is_index_of(sources: Sources, index: Map<Seq<char>, CepInfoView>) -> bool {
    forall|cep: Seq<char>|
        {
            &&& #[trigger] index.contains_key(cep) <==> winner(sources, cep) is Some
            &&& index.contains_key(cep) ==> index[cep].cep == cep && candidates(
                sources,
                winner(sources, cep)->0,
            ).contains(index[cep])
        }
}

/// `after` is `before` with one stage laid over it: the postal codes of
/// the stage's entries are added or taken over, each with one of the
/// stage's entries for it, and the others stay as they were.
pub open spec fn overlaid(
    before: Map<Seq<char>, CepInfoView>,
    entries: Set<CepInfoView>,
    after: Map<Seq<char>, CepInfoView>,
) -> bool {
    forall|cep: Seq<char>|
        {
            &&& #[trigger] after.contains_key(cep) <==> before.contains_key(cep) || has_code(
                entries,
                cep,
            )
            &&& after.contains_key(cep) ==> if has_code(entries, cep) {
                entries.contains(after[cep]) && after[cep].cep == cep
            } else {
                after[cep] == before[cep]
            }
        }
}

/// The entries that the first `count` of the listed records offer.
pub open spec fn offered_so_far<R>(
    records: Seq<R>,
    count: int,
    offer: spec_fn(R) -> Option<CepInfoView>,
) -> Set<CepInfoView> {
    Set::new(
        |entry: CepInfoView|
            exists|j: int| 0 <= j < count && offer(#[trigger] records[j]) == Some(entry),
    )
}

/// Laying nothing over a map leaves it as it is.
pub proof fn lemma_overlaid_nothing(before: Map<Seq<char>, CepInfoView>)
    ensures
        overlaid(before, Set::empty(), before),
{
}

/// Putting one more entry into the map lays it over as well.
pub proof fn lemma_overlaid_insert(
    before: Map<Seq<char>, CepInfoView>,
    entries: Set<CepInfoView>,
    after: Map<Seq<char>, CepInfoView>,
    entry: CepInfoView,
)
    requires
        overlaid(before, entries, after),
    ensures
        overlaid(before, entries.insert(entry), after.insert(entry.cep, entry)),
{
    let more = entries.insert(entry);
    let next = after.insert(entry.cep, entry);
    assert forall|cep: Seq<char>|
        {
            &&& #[trigger] next.contains_key(cep) <==> before.contains_key(cep) || has_code(
                more,
                cep,
            )
            &&& next.contains_key(cep) ==> if has_code(more, cep) {
                more.contains(next[cep]) && next[cep].cep == cep
            } else {
                next[cep] == before[cep]
            }
        } by {
        assert(after.contains_key(cep) <==> before.contains_key(cep) || has_code(entries, cep));
        if cep == entry.cep {
            assert(more.contains(entry) && entry.cep == cep);
        } else {
            if has_code(entries, cep) {
                let e = choose|e: CepInfoView| entries.contains(e) && e.cep == cep;
                assert(more.contains(e) && e.cep == cep);
            }
            if has_code(more, cep) {
                let e = choose|e: CepInfoView| more.contains(e) && e.cep == cep;
                assert(entries.contains(e) && e.cep == cep);
            }
        }
    }
}

/// What one more record adds to the entries offered so far.
pub proof fn lemma_offered_next<R>(
    records: Seq<R>,
    count: int,
    offer: spec_fn(R) -> Option<CepInfoView>,
)
    requires
        0 <= count < records.len(),
    ensures
        offered_so_far(records, count + 1, offer) == match offer(records[count]) {
            Some(entry) => offered_so_far(records, count, offer).insert(entry),
            None => offered_so_far(records, count, offer),
        },
{
    let so_far = offered_so_far(records, count, offer);
    let next = offered_so_far(records, count + 1, offer);
    let target = match offer(records[count]) {
        Some(entry) => so_far.insert(entry),
        None => so_far,
    };
    assert forall|entry: CepInfoView| next.contains(entry) implies target.contains(entry) by {
        let j = choose|j: int| 0 <= j < count + 1 && offer(#[trigger] records[j]) == Some(entry);
        if j < count {
            assert(so_far.contains(entry));
        }
    }
    assert forall|entry: CepInfoView| target.contains(entry) implies next.contains(entry) by {
        if so_far.contains(entry) {
            let j = choose|j: int| 0 <= j < count && offer(#[trigger] records[j]) == Some(entry);
            assert(0 <= j < count + 1 && offer(records[j]) == Some(entry));
        } else {
            assert(offer(records[count]) == Some(entry));
        }
    }
    assert(next =~= target);
}

/// A list that names every record of a map offers what the map offers.
pub proof fn lemma_offered_all<R>(
    map: Map<u32, R>,
    keys: Seq<u32>,
    records: Seq<R>,
    offer: spec_fn(R) -> Option<CepInfoView>,
)
    requires
        keys.len() == records.len(),
        lists_keys(keys, map),
        forall|j: int| 0 <= j < keys.len() ==> map[#[trigger] keys[j]] == records[j],
    ensures
        offered_so_far(records, records.len() as int, offer) == offers(map, offer),
{
    let listed = offered_so_far(records, records.len() as int, offer);
    let all = offers(map, offer);
    assert forall|entry: CepInfoView| listed.contains(entry) implies all.contains(entry) by {
        let j = choose|j: int|
            0 <= j < records.len() && offer(#[trigger] records[j]) == Some(entry);
        assert(map.contains_key(keys[j]) && map[keys[j]] == records[j]);
    }
    assert forall|entry: CepInfoView| all.contains(entry) implies listed.contains(entry) by {
        let id = choose|id: u32| map.contains_key(id) && offer(#[trigger] map[id]) == Some(entry);
        assert(keys.contains(id));
        let j = choose|j: int| 0 <= j < keys.len() && keys[j] == id;
        assert(map[keys[j]] == records[j]);
        assert(offer(records[j]) == Some(entry));
    }
    assert(listed =~= all);
}

/// Five stages laid over one another, in the order of precedence, make an
/// index of the sources.
pub proof fn lemma_stages_make_index(
    sources: Sources,
    first: Map<Seq<char>, CepInfoView>,
    second: Map<Seq<char>, CepInfoView>,
    third: Map<Seq<char>, CepInfoView>,
    fourth: Map<Seq<char>, CepInfoView>,
    fifth: Map<Seq<char>, CepInfoView>,
)
    requires
        overlaid(Map::empty(), candidates(sources, CepType::UncodedLocality), first),
        overlaid(first, candidates(sources, CepType::Street), second),
        overlaid(second, candidates(sources, CepType::BigUser), third),
        overlaid(third, candidates(sources, CepType::OperationalUnit), fourth),
        overlaid(fourth, candidates(sources, CepType::Cpc), fifth),
    ensures
        is_index_of(sources, fifth),
{
    assert forall|cep: Seq<char>|
        {
            &&& #[trigger] fifth.contains_key(cep) <==> winner(sources, cep) is Some
            &&& fifth.contains_key(cep) ==> fifth[cep].cep == cep && candidates(
                sources,
                winner(sources, cep)->0,
            ).contains(fifth[cep])
        } by {
        assert(first.contains_key(cep) <==> has_code(
            candidates(sources, CepType::UncodedLocality),
            cep,
        ));
        assert(second.contains_key(cep) <==> first.contains_key(cep) || has_code(
            candidates(sources, CepType::Street),
            cep,
        ));
        assert(third.contains_key(cep) <==> second.contains_key(cep) || has_code(
            candidates(sources, CepType::BigUser),
            cep,
        ));
        assert(fourth.contains_key(cep) <==> third.contains_key(cep) || has_code(
            candidates(sources, CepType::OperationalUnit),
            cep,
        ));
        assert(fifth.contains_key(cep) <==> fourth.contains_key(cep) || has_code(
            candidates(sources, CepType::Cpc),
            cep,
        ));
    }
}

/// Every entry that a record kind offers carries the tag of that kind.
pub proof fn lemma_candidates_are_tagged(sources: Sources, kind: CepType, entry: CepInfoView)
    requires
        candidates(sources, kind).contains(entry),
    ensures
        entry.type_ == kind,
{
}

/// In an index, a postal code carries the tag of the last record kind, in
/// the order of precedence, that offers an entry for it.
pub proof fn lemma_index_precedence(
    sources: Sources,
    index: Map<Seq<char>, CepInfoView>,
    cep: Seq<char>,
    kind: CepType,
)
    requires
        is_index_of(sources, index),
        has_code(candidates(sources, kind), cep),
    ensures
        index.contains_key(cep),
        winner(sources, cep) matches Some(won) && index[cep].type_ == won && rank(won) >= rank(
            kind,
        ),
{
    assert(index.contains_key(cep) <==> winner(sources, cep) is Some);
    lemma_candidates_are_tagged(sources, winner(sources, cep)->0, index[cep]);
}

/// Where one entry alone is offered for a postal code by the kind that
/// wins it, the index holds that entry.
pub proof fn lemma_index_sole_offer(
    sources: Sources,
    index: Map<Seq<char>, CepInfoView>,
    entry: CepInfoView,
)
    requires
        is_index_of(sources, index),
        winner(sources, entry.cep) == Some(entry.type_),
        candidates(sources, entry.type_).contains(entry),
        forall|other: CepInfoView|
            candidates(sources, entry.type_).contains(other) && other.cep == entry.cep ==> other
                == entry,
    ensures
        index.contains_key(entry.cep),
        index[entry.cep] == entry,
{
    assert(index.contains_key(entry.cep) <==> winner(sources, entry.cep) is Some);
}

/// The place of a record kind in the order of precedence.
pub open spec fn rank(kind: CepType) -> int {
    match kind {
        CepType::UncodedLocality => 1,
        CepType::Street => 2,
        CepType::BigUser => 3,
        CepType::OperationalUnit => 4,
        CepType::Cpc => 5,
    }
}

} // verus!
