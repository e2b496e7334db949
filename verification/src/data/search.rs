//! The positions that a search returns: those, in the full listing, of the
//! households that the store found.

use crate::data::models::{households_view, Household, HouseholdView};
use crate::data::cache::distinct_ids;
use crate::identity::HouseholdId;
use crate::text::occurs_in;
use vstd::prelude::*;

verus! {

/// Whether the list holds a household with the identity `id`.
pub open spec fn has_id(households: Seq<HouseholdView>, id: HouseholdId) -> bool {
    exists|j: int| 0 <= j < households.len() && (#[trigger] households[j]).id == id
}

/// The positions in `all`, ascending, of the households whose identity one
/// of the households of `found` has.
pub open spec fn found_positions(all: Seq<HouseholdView>, found: Seq<HouseholdView>) -> Seq<int>
    decreases all.len(),
{
    if all.len() == 0 {
        Seq::empty()
    } else {
        let before = found_positions(all.drop_last(), found);
        if has_id(found, all.last().id) {
            before.push(all.len() - 1)
        } else {
            before
        }
    }
}

/// The positions in `all`, ascending, of the households that a search for
/// `query` finds.
pub open spec fn matching_positions(all: Seq<HouseholdView>, query: Seq<char>) -> Seq<int>
    decreases all.len(),
{
    if all.len() == 0 {
        Seq::empty()
    } else {
        let before = matching_positions(all.drop_last(), query);
        if all.last().matches(query) {
            before.push(all.len() - 1)
        } else {
            before
        }
    }
}

/// The households of `all` that a search for `query` finds, in their order.
pub open spec fn matching_households(all: Seq<HouseholdView>, query: Seq<char>) -> Seq<
    HouseholdView,
>
    decreases all.len(),
{
    if all.len() == 0 {
        Seq::empty()
    } else {
        let before = matching_households(all.drop_last(), query);
        if all.last().matches(query) {
            before.push(all.last())
        } else {
            before
        }
    }
}

/// The positions a sequence of `usize` values stands for.
pub open spec fn positions_view(positions: Seq<usize>) -> Seq<int> {
    Seq::new(positions.len(), |i: int| positions[i] as int)
}

/// Tells whether the list holds a household with the identity `id`.
pub fn contains_id(households: &Vec<Household>, id: &HouseholdId) -> (r: bool)
    ensures
        r == has_id(households_view(households@), *id),
{
    let mut j: usize = 0;
    while j < households.len()
        invariant
            j <= households.len(),
            forall|k: int| 0 <= k < j ==> (#[trigger] households_view(households@)[k]).id != *id,
        decreases households.len() - j,
    {
        if households[j].id == *id {
            assert(households_view(households@)[j as int].id == *id);
            return true;
        }
        j += 1;
    }
    false
}

/// The positions in `all`, ascending, of the households whose identity one
/// of the households of `found` has.
pub fn positions_of_found(all: &Vec<Household>, found: &Vec<Household>) -> (r: Vec<usize>)
    ensures
        positions_view(r@) == found_positions(households_view(all@), households_view(found@)),
{
    let ghost listing = households_view(all@);
    let ghost hits = households_view(found@);
    let mut out: Vec<usize> = Vec::new();
    let mut i: usize = 0;
    assert(listing.take(0) =~= Seq::empty());
    assert(positions_view(out@) =~= Seq::empty());
    while i < all.len()
        invariant
            i <= all.len(),
            listing == households_view(all@),
            hits == households_view(found@),
            positions_view(out@) == found_positions(listing.take(i as int), hits),
        decreases all.len() - i,
    {
        let ghost before = positions_view(out@);
        proof {
            assert(listing.take(i + 1).drop_last() =~= listing.take(i as int));
            assert(listing.take(i + 1).last() == all[i as int]@);
        }
        if contains_id(found, &all[i].id) {
            out.push(i);
            assert(positions_view(out@) =~= before.push(i as int));
        }
        i += 1;
    }
    assert(listing.take(all.len() as int) =~= listing);
    out
}

/// A search finds what matches, in the order of the listing: where the
/// households of the listing `all` have distinct identities and the store
/// finds among them exactly those in which `query` occurs, the positions
/// that the manager returns are exactly the positions of the households in
/// which `query` occurs, ascending; there are as many as households found,
/// and at the position returned in each place stands the household found in
/// that place.
pub proof fn law_search_positions(all: Seq<HouseholdView>, query: Seq<char>)
    requires
        distinct_ids(all),
    ensures
        found_positions(all, matching_households(all, query)) == matching_positions(all, query),
        matching_positions(all, query).len() == matching_households(all, query).len(),
        forall|j: int|
            0 <= j < matching_positions(all, query).len() ==> {
                &&& 0 <= (#[trigger] matching_positions(all, query)[j]) < all.len()
                &&& all[matching_positions(all, query)[j]] == matching_households(all, query)[j]
            },
        forall|i: int, j: int|
            0 <= i < j < matching_positions(all, query).len() ==> (#[trigger] matching_positions(
                all,
                query,
            )[i]) < (#[trigger] matching_positions(all, query)[j]),
{
    lemma_positions_of_prefix(all, query, all.len() as int);
    assert(all.take(all.len() as int) =~= all);
    lemma_matching_positions(all, query);
}

/// Where the households found are, by their identities, exactly the
/// households of the listing `all` in which `query` occurs, the positions
/// that the manager returns are exactly the positions of the households in
/// which `query` occurs, ascending.
pub proof fn law_found_positions(
    all: Seq<HouseholdView>,
    found: Seq<HouseholdView>,
    query: Seq<char>,
)
    requires
        forall|i: int|
            0 <= i < all.len() ==> (has_id(found, (#[trigger] all[i]).id) <==> all[i].matches(
                query,
            )),
    ensures
        found_positions(all, found) == matching_positions(all, query),
    decreases all.len(),
{
    if all.len() > 0 {
        let rest = all.drop_last();
        assert forall|i: int| 0 <= i < rest.len() implies (has_id(found, (#[trigger] rest[i]).id)
            <==> rest[i].matches(query)) by {
            assert(rest[i] == all[i]);
        }
        law_found_positions(rest, found, query);
        assert(all.last() == all[all.len() - 1]);
    }
}

/// An empty query occurs in every text, so every household matches it: the
/// positions that match are all the positions of the listing.
pub proof fn law_empty_query_matches_all(all: Seq<HouseholdView>)
    ensures
        matching_positions(all, Seq::empty()) == Seq::new(all.len(), |i: int| i),
    decreases all.len(),
{
    if all.len() > 0 {
        let rest = all.drop_last();
        law_empty_query_matches_all(rest);
        let name = all.last().head_name;
        let nothing = Seq::<char>::empty();
        assert(name.subrange(0, 0int + nothing.len()) =~= nothing);
        assert(occurs_in(nothing, name));
        assert(matching_positions(all, Seq::empty()) =~= Seq::new(all.len(), |i: int| i));
    } else {
        assert(matching_positions(all, Seq::empty()) =~= Seq::new(all.len(), |i: int| i));
    }
}

/// The households that a search finds among `all` are households of `all`
/// that match, and every household of `all` that matches is among them.
pub proof fn lemma_matching_households(all: Seq<HouseholdView>, query: Seq<char>)
    ensures
        forall|j: int|
            0 <= j < matching_households(all, query).len() ==> {
                &&& (#[trigger] matching_households(all, query)[j]).matches(query)
                &&& all.contains(matching_households(all, query)[j])
            },
        forall|k: int|
            0 <= k < all.len() && (#[trigger] all[k]).matches(query) ==> matching_households(
                all,
                query,
            ).contains(all[k]),
    decreases all.len(),
{
    let found = matching_households(all, query);
    if all.len() > 0 {
        let rest = all.drop_last();
        let last = all.len() - 1;
        let found_rest = matching_households(rest, query);
        lemma_matching_households(rest, query);
        assert forall|j: int| 0 <= j < found.len() implies {
            &&& (#[trigger] found[j]).matches(query)
            &&& all.contains(found[j])
        } by {
            if j < found_rest.len() {
                assert(found[j] == found_rest[j]);
                let w = choose|w: int| 0 <= w < rest.len() && rest[w] == found_rest[j];
                assert(all[w] == found[j]);
            } else {
                assert(found[j] == all[last]);
            }
        }
        assert forall|k: int| 0 <= k < all.len() && (#[trigger] all[k]).matches(
            query,
        ) implies found.contains(all[k]) by {
            if k < last {
                assert(rest[k] == all[k]);
                assert(found_rest.contains(rest[k]));
                let w = choose|w: int| 0 <= w < found_rest.len() && found_rest[w] == rest[k];
                assert(found[w] == all[k]);
            } else {
                assert(found[found.len() - 1] == all[k]);
            }
        }
    }
}

/// Among households of distinct identities, the identity of a household is
/// found by a search exactly when the household matches.
pub proof fn lemma_found_iff_matches(all: Seq<HouseholdView>, query: Seq<char>, i: int)
    requires
        distinct_ids(all),
        0 <= i < all.len(),
    ensures
        has_id(matching_households(all, query), all[i].id) <==> all[i].matches(query),
{
    let found = matching_households(all, query);
    lemma_matching_households(all, query);
    if all[i].matches(query) {
        assert(found.contains(all[i]));
        let w = choose|w: int| 0 <= w < found.len() && found[w] == all[i];
        assert(found[w].id == all[i].id);
    }
    if has_id(found, all[i].id) {
        let j = choose|j: int| 0 <= j < found.len() && (#[trigger] found[j]).id == all[i].id;
        assert(all.contains(found[j]));
        let k = choose|k: int| 0 <= k < all.len() && all[k] == found[j];
        if k < i {
            assert(all[k].id != all[i].id);
        } else if i < k {
            assert(all[i].id != all[k].id);
        }
        assert(found[j].matches(query));
    }
}

/// The positions found among the first `n` households of `all` for the
/// households that a search finds in `all` are the positions that match.
pub proof fn lemma_positions_of_prefix(all: Seq<HouseholdView>, query: Seq<char>, n: int)
    requires
        distinct_ids(all),
        0 <= n <= all.len(),
    ensures
        found_positions(all.take(n), matching_households(all, query)) == matching_positions(
            all.take(n),
            query,
        ),
    decreases n,
{
    if n > 0 {
        lemma_positions_of_prefix(all, query, n - 1);
        assert(all.take(n).drop_last() =~= all.take(n - 1));
        assert(all.take(n).last() == all[n - 1]);
        lemma_found_iff_matches(all, query, n - 1);
    }
}

/// The positions that match, in a listing: as many as the households that
/// match, ascending, and at each of them stands the household that a search
/// finds in that place of its result.
pub proof fn lemma_matching_positions(all: Seq<HouseholdView>, query: Seq<char>)
    ensures
        matching_positions(all, query).len() == matching_households(all, query).len(),
        forall|j: int|
            0 <= j < matching_positions(all, query).len() ==> {
                &&& 0 <= (#[trigger] matching_positions(all, query)[j]) < all.len()
                &&& all[matching_positions(all, query)[j]] == matching_households(all, query)[j]
            },
        forall|i: int, j: int|
            0 <= i < j < matching_positions(all, query).len() ==> (#[trigger] matching_positions(
                all,
                query,
            )[i]) < (#[trigger] matching_positions(all, query)[j]),
    decreases all.len(),
{
    if all.len() > 0 {
        let rest = all.drop_last();
        lemma_matching_positions(rest, query);
        let positions = matching_positions(all, query);
        let before = matching_positions(rest, query);
        assert forall|j: int| 0 <= j < positions.len() implies {
            &&& 0 <= (#[trigger] positions[j]) < all.len()
            &&& all[positions[j]] == matching_households(all, query)[j]
        } by {
            if j < before.len() {
                assert(positions[j] == before[j]);
                assert(rest[before[j]] == all[before[j]]);
            }
        }
        assert forall|i: int, j: int| 0 <= i < j < positions.len() implies (
        #[trigger] positions[i]) < (#[trigger] positions[j]) by {
            assert(positions[i] == before[i]);
            if j < before.len() {
                assert(positions[j] == before[j]);
            }
        }
    }
}

} // verus!
