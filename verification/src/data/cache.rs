//! The cache of the manager: a copy of the store's listing, keyed by
//! identity.

use crate::data::database::outcome_view;
use crate::data::models::{clone_households, households_view, Household, HouseholdView};
use crate::data::rows::StorageError;
use crate::data::search::{found_positions, positions_of_found, positions_view};
use crate::identity::HouseholdId;
use vstd::prelude::*;

verus! {

/// Whether no two households of the list have the same identity.
pub open spec fn distinct_ids(households: Seq<HouseholdView>) -> bool {
    forall|i: int, j: int|
        0 <= i < j < households.len() ==> (#[trigger] households[i]).id != (
        #[trigger] households[j]).id
}

/// The first position in the list of a household with the identity `id`;
/// the length of the list where there is none.
pub open spec fn position_of(households: Seq<HouseholdView>, id: HouseholdId) -> int
    decreases households.len(),
{
    if households.len() == 0 {
        0
    } else {
        let before = position_of(households.drop_last(), id);
        if before < households.len() - 1 {
            before
        } else if households.last().id == id {
            households.len() - 1
        } else {
            households.len() as int
        }
    }
}

/// The list with `household` filed under its identity: in the place of the
/// household that has it, or at the end where none has.
pub open spec fn filed(households: Seq<HouseholdView>, household: HouseholdView) -> Seq<
    HouseholdView,
> {
    let at = position_of(households, household.id);
    if at < households.len() {
        households.update(at, household)
    } else {
        households.push(household)
    }
}

/// The households of a listing keyed by identity: each is filed in turn, so
/// of two with one identity the later stands, in the place of the earlier.
pub open spec fn keyed(listing: Seq<HouseholdView>) -> Seq<HouseholdView>
    decreases listing.len(),
{
    if listing.len() == 0 {
        Seq::empty()
    } else {
        filed(keyed(listing.drop_last()), listing.last())
    }
}

/// The households that the cache shows for what a listing gave: the
/// listing keyed by identity, or nothing where the listing failed.
pub open spec fn shown(loaded: Result<Seq<HouseholdView>, StorageError>) -> Seq<HouseholdView> {
    match loaded {
        Ok(listing) => keyed(listing),
        Err(_) => Seq::empty(),
    }
}

/// A copy of the store's listing, keyed by identity, with the mark that
/// tells whether it is due to be read anew. No two of its households have
/// the same identity.
pub struct HouseholdCache {
    households: Vec<Household>,
    dirty: bool,
}

impl HouseholdCache {
    /// No two households of the cache have one identity.
    #[verifier::type_invariant]
    pub open spec fn keyed_by_identity(self) -> bool {
        distinct_ids(self.households())
    }

    /// The households of the cache, in their positions.
    pub closed spec fn households(&self) -> Seq<HouseholdView> {
        households_view(self.households@)
    }

    /// Whether the store may have changed since the cache was read.
    pub closed spec fn dirty(&self) -> bool {
        self.dirty
    }

    /// An empty cache that is due to be read.
    pub fn new() -> (r: HouseholdCache)
        ensures
            r.dirty(),
            r.households().len() == 0,
    {
        let households: Vec<Household> = Vec::new();
        assert(households_view(households@) =~= Seq::empty());
        HouseholdCache { households, dirty: true }
    }

    pub fn is_dirty(&self) -> (r: bool)
        ensures
            r == self.dirty(),
    {
        self.dirty
    }

    /// Marks the cache as due to be read anew.
    pub fn invalidate(&mut self)
        ensures
            final(self).dirty(),
            final(self).households() == old(self).households(),
    {
        proof {
            use_type_invariant(&*self);
        }
        self.dirty = true;
    }

    /// Takes what the store answered to the request for its listing: a
    /// listing is keyed by identity and kept; a failure leaves the cache
    /// empty. Either way the cache is fresh afterwards.
    pub fn fill(&mut self, loaded: Result<Vec<Household>, StorageError>)
        ensures
            !final(self).dirty(),
            distinct_ids(final(self).households()),
            final(self).households() == shown(outcome_view(loaded)),
    {
        match loaded {
            Ok(listing) => {
                let fresh = keyed_households(&listing);
                proof {
                    lemma_keyed_distinct(households_view(listing@));
                }
                self.households = fresh;
            },
            Err(_) => {
                let empty: Vec<Household> = Vec::new();
                assert(households_view(empty@) =~= Seq::empty());
                self.households = empty;
            },
        }
        self.dirty = false;
    }

    /// The number of households in the cache.
    pub fn len(&self) -> (r: usize)
        ensures
            r == self.households().len(),
    {
        self.households.len()
    }

    /// A copy of the households of the cache, in their positions.
    pub fn to_vec(&self) -> (r: Vec<Household>)
        ensures
            households_view(r@) == self.households(),
            distinct_ids(self.households()),
    {
        proof {
            use_type_invariant(self);
        }
        clone_households(&self.households)
    }

    /// A copy of the household at the position `index`, if there is one.
    pub fn get(&self, index: usize) -> (r: Option<Household>)
        ensures
            match r {
                Some(household) => index < self.households().len() && household@
                    == self.households()[index as int],
                None => index >= self.households().len(),
            },
    {
        if index < self.households.len() {
            Some(self.households[index].clone())
        } else {
            None
        }
    }

    /// The positions in the cache, ascending, of the households whose
    /// identity one of the households of `found` has.
    pub fn positions_of(&self, found: &Vec<Household>) -> (r: Vec<usize>)
        ensures
            positions_view(r@) == found_positions(self.households(), households_view(found@)),
    {
        positions_of_found(&self.households, found)
    }
}

/// Finds the first household of the list with the identity `id`.
pub fn find_position(households: &Vec<Household>, id: &HouseholdId) -> (r: Option<usize>)
    ensures
        match r {
            Some(at) => at == position_of(households_view(households@), *id) && at
                < households.len(),
            None => position_of(households_view(households@), *id) == households.len(),
        },
{
    let ghost all = households_view(households@);
    let mut i: usize = 0;
    assert(all.take(0) =~= Seq::empty());
    while i < households.len()
        invariant
            i <= households.len(),
            all == households_view(households@),
            position_of(all.take(i as int), *id) == i,
        decreases households.len() - i,
    {
        proof {
            assert(all.take(i + 1).drop_last() =~= all.take(i as int));
            assert(all.take(i + 1).last() == households[i as int]@);
        }
        if households[i].id == *id {
            proof {
                lemma_position_of_prefix(all, i + 1, *id);
            }
            return Some(i);
        }
        i += 1;
    }
    assert(all.take(households.len() as int) =~= all);
    None
}

/// Keys a listing by identity.
pub fn keyed_households(listing: &Vec<Household>) -> (r: Vec<Household>)
    ensures
        households_view(r@) == keyed(households_view(listing@)),
{
    let ghost all = households_view(listing@);
    let mut out: Vec<Household> = Vec::new();
    let mut i: usize = 0;
    assert(all.take(0) =~= Seq::empty());
    assert(households_view(out@) =~= Seq::empty());
    while i < listing.len()
        invariant
            i <= listing.len(),
            all == households_view(listing@),
            households_view(out@) == keyed(all.take(i as int)),
        decreases listing.len() - i,
    {
        let ghost before = households_view(out@);
        proof {
            assert(all.take(i + 1).drop_last() =~= all.take(i as int));
            assert(all.take(i + 1).last() == listing[i as int]@);
        }
        let household = listing[i].clone();
        match find_position(&out, &household.id) {
            Some(at) => {
                out.set(at, household);
                assert(households_view(out@) =~= before.update(at as int, listing[i as int]@));
            },
            None => {
                out.push(household);
                assert(households_view(out@) =~= before.push(listing[i as int]@));
            },
        }
        i += 1;
    }
    assert(all.take(listing.len() as int) =~= all);
    out
}

/// What `position_of` finds: a position up to the length; below the length
/// it is the first household with the identity, at the length none has it.
pub proof fn lemma_position_of(households: Seq<HouseholdView>, id: HouseholdId)
    ensures
        0 <= position_of(households, id) <= households.len(),
        position_of(households, id) < households.len() ==> households[position_of(
            households,
            id,
        )].id == id,
        forall|j: int|
            0 <= j < position_of(households, id) ==> (#[trigger] households[j]).id != id,
    decreases households.len(),
{
    if households.len() > 0 {
        lemma_position_of(households.drop_last(), id);
        assert forall|j: int| 0 <= j < position_of(households, id) implies (
        #[trigger] households[j]).id != id by {
            if j < households.len() - 1 {
                assert(households.drop_last()[j] == households[j]);
            }
        }
    }
}

/// A position found within a prefix is the position in the whole list.
pub proof fn lemma_position_of_prefix(households: Seq<HouseholdView>, n: int, id: HouseholdId)
    requires
        0 <= n <= households.len(),
        position_of(households.take(n), id) < n,
    ensures
        position_of(households, id) == position_of(households.take(n), id),
    decreases households.len() - n,
{
    if n < households.len() {
        assert(households.take(n + 1).drop_last() =~= households.take(n));
        lemma_position_of_prefix(households, n + 1, id);
    } else {
        assert(households.take(n) =~= households);
    }
}

/// Filing keeps the identities distinct.
pub proof fn lemma_filed_distinct(households: Seq<HouseholdView>, household: HouseholdView)
    requires
        distinct_ids(households),
    ensures
        distinct_ids(filed(households, household)),
{
    lemma_position_of(households, household.id);
    let at = position_of(households, household.id);
    let after = filed(households, household);
    assert forall|i: int, j: int| 0 <= i < j < after.len() implies (#[trigger] after[i]).id != (
    #[trigger] after[j]).id by {
        if at < households.len() {
            assert(after[i].id == households[i].id);
            assert(after[j].id == households[j].id);
        } else {
            if j < households.len() {
                assert(after[i] == households[i]);
                assert(after[j] == households[j]);
            } else {
                assert(after[i] == households[i]);
            }
        }
    }
}

/// A keyed listing has distinct identities.
pub proof fn lemma_keyed_distinct(listing: Seq<HouseholdView>)
    ensures
        distinct_ids(keyed(listing)),
    decreases listing.len(),
{
    if listing.len() > 0 {
        lemma_keyed_distinct(listing.drop_last());
        lemma_filed_distinct(keyed(listing.drop_last()), listing.last());
    }
}

/// Every household of a keyed listing is one of the listing.
pub proof fn law_keyed_from_listing(listing: Seq<HouseholdView>, i: int)
    requires
        0 <= i < keyed(listing).len(),
    ensures
        listing.contains(keyed(listing)[i]),
    decreases listing.len(),
{
    if listing.len() > 0 {
        let rest = keyed(listing.drop_last());
        lemma_position_of(rest, listing.last().id);
        let at = position_of(rest, listing.last().id);
        let last = listing.len() - 1;
        if (at < rest.len() && i == at) || (at == rest.len() && i == rest.len()) {
            assert(keyed(listing)[i] == listing[last]);
        } else {
            assert(keyed(listing)[i] == rest[i]);
            law_keyed_from_listing(listing.drop_last(), i);
            let k = choose|k: int|
                0 <= k < listing.drop_last().len() && listing.drop_last()[k] == rest[i];
            assert(listing[k] == rest[i]);
        }
    }
}

/// A listing whose identities are distinct is its own keyed listing: the
/// cache then shows the store's order.
pub proof fn law_keyed_of_distinct(listing: Seq<HouseholdView>)
    requires
        distinct_ids(listing),
    ensures
        keyed(listing) == listing,
    decreases listing.len(),
{
    if listing.len() > 0 {
        let rest = listing.drop_last();
        assert forall|i: int, j: int| 0 <= i < j < rest.len() implies (#[trigger] rest[i]).id != (
        #[trigger] rest[j]).id by {
            assert(rest[i] == listing[i]);
            assert(rest[j] == listing[j]);
        }
        law_keyed_of_distinct(rest);
        lemma_position_of(rest, listing.last().id);
        let at = position_of(rest, listing.last().id);
        if at < rest.len() {
            assert(rest[at] == listing[at]);
            assert(listing[at].id != listing[listing.len() - 1].id);
        }
        assert(keyed(listing) =~= listing);
    }
}

} // verus!
