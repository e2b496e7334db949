//! What follows for the store and its manager where the database behaves
//! as the relations do: to a query it gives the rows or the number that
//! the relations hold. Of the order of the rows nothing is taken for
//! granted.

use crate::data::answers::{
    asks_for_members, household_rows_of, households_read, listing_read, member_rows_of,
    members_read, plan_run, plan_run_if_changed, rows_matching, search_read, since,
    statistics_read, Answer, Exchange, Issue,
};
use crate::data::cache::{distinct_ids, law_keyed_of_distinct, shown};
use crate::data::manager::{refreshed, HouseholdManager, HouseholdStatistics};
use crate::data::models::{members_total, HouseholdType, HouseholdView};
use crate::data::relations::{
    law_delete_then_gone, law_insert_of_present, law_insert_steps,
    law_insert_then_listed, law_member_count, law_update_of_absent, law_update_steps,
    law_update_then_listed, lemma_one_household_with_id, lemma_rows_not_under,
    lemma_apply_all_add, lemma_rows_under_add, lemma_rows_under_none,
    lemma_rows_under_stored, listed_members, rows_not_under, statements_of, stored_under,
    Relations, StoredMember,
};
use crate::data::samples::{sample_first, sample_second, sample_statements};
use crate::data::rows::{
    decode_household, decode_members, reads_back, HouseholdRowView, MemberRowView,
    StorageError,
};
use crate::data::search::{
    found_positions, has_id, law_found_positions, matching_positions, positions_view,
};
use crate::data::rows::{household_row, member_rows};
use crate::data::statements::{
    delete_statements, insert_statements, like_pattern, update_statements, QueryView,
    StatementView,
};
use crate::identity::{id_from_text, id_text, HouseholdId};
use crate::text::occurs_in;
use vstd::prelude::*;

verus! {

/// Whether `rows` are the rows `households` in some order, each once.
pub open spec fn arranges(rows: Seq<HouseholdRowView>, households: Seq<HouseholdRowView>) -> bool {
    &&& rows.len() == households.len()
    &&& forall|i: int| 0 <= i < rows.len() ==> households.contains(#[trigger] rows[i])
    &&& forall|k: int| 0 <= k < households.len() ==> rows.contains(#[trigger] households[k])
    &&& forall|i: int, j: int|
        0 <= i < j < rows.len() ==> (#[trigger] rows[i]).id != (#[trigger] rows[j]).id
}

/// Whether `rows` are what the database may propose of `households` for the
/// pattern `%query%`: rows of `households`, each once, and among them every
/// row in which `query` occurs.
pub open spec fn proposes(
    rows: Seq<HouseholdRowView>,
    households: Seq<HouseholdRowView>,
    query: Seq<char>,
) -> bool {
    &&& forall|i: int| 0 <= i < rows.len() ==> households.contains(#[trigger] rows[i])
    &&& forall|k: int|
        0 <= k < households.len() && (#[trigger] households[k]).matches(query) ==> rows.contains(
            households[k],
        )
    &&& forall|i: int, j: int|
        0 <= i < j < rows.len() ==> (#[trigger] rows[i]).id != (#[trigger] rows[j]).id
}

/// The number of the given household rows of the urban type.
pub open spec fn urban_rows(households: Seq<HouseholdRowView>) -> nat
    decreases households.len(),
{
    if households.len() == 0 {
        0
    } else if households.last().household_type == HouseholdType::Urban.label() {
        urban_rows(households.drop_last()) + 1
    } else {
        urban_rows(households.drop_last())
    }
}

impl Relations {
    /// Whether the exchange is one with a database that holds these
    /// relations: the answer is the rows or the number that they hold.
    pub open spec fn answers(self, exchange: Exchange) -> bool {
        match exchange.query {
            QueryView::AllHouseholds => exchange.answer is Rows && arranges(
                household_rows_of(exchange.answer->Rows_0),
                self.households,
            ),
            QueryView::HouseholdsLike(pattern) => exchange.answer is Rows && forall|
                query: Seq<char>,
            |
                pattern == #[trigger] like_pattern(query) ==> proposes(
                    household_rows_of(exchange.answer->Rows_0),
                    self.households,
                    query,
                ),
            QueryView::MembersOf(id) => exchange.answer is Rows && member_rows_of(
                exchange.answer->Rows_0,
            ) == self.members_of(id),
            QueryView::CountHouseholds => exchange.answer == Answer::Count(
                self.households.len() as int,
            ),
            QueryView::CountUrbanHouseholds => exchange.answer == Answer::Count(
                urban_rows(self.households) as int,
            ),
            QueryView::CountMembers => exchange.answer == Answer::Count(self.members.len() as int),
        }
    }

    /// Whether each of the exchanges is one with a database that holds
    /// these relations.
    pub open spec fn gives(self, asked: Seq<Exchange>) -> bool {
        forall|i: int| 0 <= i < asked.len() ==> self.answers(#[trigger] asked[i])
    }
}

/// Decoding keeps the number of rows.
pub proof fn lemma_decode_members_len(rows: Seq<MemberRowView>)
    ensures
        decode_members(rows) matches Ok(members) ==> members.len() == rows.len(),
    decreases rows.len(),
{
    if rows.len() > 0 {
        lemma_decode_members_len(rows.drop_last());
    }
}

/// What a reading makes of rows of the store: where the relations answer
/// the queries for the members, each household read is what a listing
/// makes of its row, and its identity is spelled by the row.
pub proof fn lemma_households_read(
    t: Relations,
    rows: Seq<HouseholdRowView>,
    asked: Seq<Exchange>,
    households: Seq<HouseholdView>,
    i: int,
    k: int,
)
    requires
        t.wf(),
        t.gives(asked),
        households_read(rows, asked, Ok(households)),
        0 <= i < rows.len(),
        0 <= k < t.households.len(),
        t.households[k] == rows[i],
    ensures
        t.read(k) == Ok::<HouseholdView, StorageError>(households[i]),
        id_text(households[i].id.value) == rows[i].id,
        households[i].head_name == rows[i].head_name,
        households[i].id_number == rows[i].id_number,
        households[i].address == rows[i].address,
        households[i].phone == rows[i].phone,
        households[i].members.len() == t.members_of(rows[i].id).len(),
{
    assert(asks_for_members(rows[i], asked[i]));
    assert(t.answers(asked[i]));
    let shell = decode_household(rows[i], Seq::empty())->Ok_0;
    assert(id_from_text(t.households[k].id) == Some(shell.id.value));
    assert(id_text(shell.id.value) == rows[i].id);
    assert(members_read(asked[i].answer) is Ok);
    lemma_decode_members_len(t.members_of(rows[i].id));
}

/// A listing shows the store: where a database that holds the relations
/// `t` is asked for the listing and every row can be read, the listing has
/// a household for every household row and what a listing makes of every
/// row is among its households; no two of them have one identity.
pub proof fn law_listing_shows_store(
    t: Relations,
    asked: Seq<Exchange>,
    households: Seq<HouseholdView>,
)
    requires
        t.wf(),
        t.gives(asked),
        listing_read(asked, Ok(households)),
    ensures
        households.len() == t.households.len(),
        forall|k: int|
            0 <= k < t.households.len() ==> #[trigger] t.read(k) is Ok && households.contains(
                t.read(k)->Ok_0,
            ),
        forall|i: int|
            0 <= i < households.len() ==> exists|k: int|
                0 <= k < t.households.len() && #[trigger] t.read(k) == Ok::<
                    HouseholdView,
                    StorageError,
                >(#[trigger] households[i]),
        distinct_ids(households),
        members_total(households) == t.members.len(),
{
    let rows = household_rows_of(asked[0].answer->Rows_0);
    let rest = asked.skip(1);
    assert(t.answers(asked[0]));
    assert forall|j: int| 0 <= j < rest.len() implies t.answers(#[trigger] rest[j]) by {
        assert(rest[j] == asked[j + 1]);
    }
    assert forall|k: int| 0 <= k < t.households.len() implies #[trigger] t.read(k) is Ok
        && households.contains(t.read(k)->Ok_0) by {
        assert(rows.contains(t.households[k]));
        let i = choose|i: int| 0 <= i < rows.len() && rows[i] == t.households[k];
        lemma_households_read(t, rows, rest, households, i, k);
        assert(households[i] == t.read(k)->Ok_0);
    }
    assert forall|i: int| 0 <= i < households.len() implies exists|k: int|
        0 <= k < t.households.len() && #[trigger] t.read(k) == Ok::<HouseholdView, StorageError>(
            #[trigger] households[i],
        ) by {
        assert(t.households.contains(rows[i]));
        let k = choose|k: int| 0 <= k < t.households.len() && t.households[k] == rows[i];
        lemma_households_read(t, rows, rest, households, i, k);
    }
    assert forall|i: int, j: int| 0 <= i < j < households.len() implies (
    #[trigger] households[i]).id != (#[trigger] households[j]).id by {
        assert(t.households.contains(rows[i]));
        let a = choose|a: int| 0 <= a < t.households.len() && t.households[a] == rows[i];
        assert(t.households.contains(rows[j]));
        let b = choose|b: int| 0 <= b < t.households.len() && t.households[b] == rows[j];
        lemma_households_read(t, rows, rest, households, i, a);
        lemma_households_read(t, rows, rest, households, j, b);
        assert(rows[i].id != rows[j].id);
    }
    // the members of the households read are the members of the store
    let arranged = Relations { households: rows, members: t.members };
    assert forall|m: int| 0 <= m < arranged.members.len() implies arranged.has_household(
        (#[trigger] arranged.members[m]).household_id,
    ) by {
        assert(t.has_household(t.members[m].household_id));
        let k = choose|k: int|
            0 <= k < t.households.len() && (#[trigger] t.households[k]).id
                == t.members[m].household_id;
        assert(rows.contains(t.households[k]));
        let i = choose|i: int| 0 <= i < rows.len() && rows[i] == t.households[k];
        assert(arranged.households[i].id == arranged.members[m].household_id);
    }
    assert forall|i: int| 0 <= i < rows.len() implies (id_from_text(
        (#[trigger] arranged.households[i]).id,
    ) matches Some(value) ==> id_text(value) == arranged.households[i].id) by {
        assert(t.households.contains(rows[i]));
        let k = choose|k: int| 0 <= k < t.households.len() && t.households[k] == rows[i];
        assert(t.households[k].id == rows[i].id);
    }
    law_member_count(arranged);
    lemma_members_total(t, rows, rest, households, rows.len() as int);
    assert(rows.take(rows.len() as int) =~= rows);
    assert(households.take(rows.len() as int) =~= households);
}

/// The members of the first `n` households read are as many as the member
/// rows listed under the first `n` rows.
pub proof fn lemma_members_total(
    t: Relations,
    rows: Seq<HouseholdRowView>,
    asked: Seq<Exchange>,
    households: Seq<HouseholdView>,
    n: int,
)
    requires
        t.wf(),
        t.gives(asked),
        households_read(rows, asked, Ok(households)),
        forall|i: int| 0 <= i < rows.len() ==> t.households.contains(#[trigger] rows[i]),
        0 <= n <= rows.len(),
    ensures
        members_total(households.take(n)) == listed_members(rows.take(n), t.members),
    decreases n,
{
    if n > 0 {
        lemma_members_total(t, rows, asked, households, n - 1);
        assert(households.take(n).drop_last() =~= households.take(n - 1));
        assert(rows.take(n).drop_last() =~= rows.take(n - 1));
        assert(households.take(n).last() == households[n - 1]);
        assert(rows.take(n).last() == rows[n - 1]);
        assert(t.households.contains(rows[n - 1]));
        let k = choose|k: int| 0 <= k < t.households.len() && t.households[k] == rows[n - 1];
        lemma_households_read(t, rows, asked, households, n - 1, k);
    }
}

/// A new household that was stored is in the listing: where the identity
/// of `h` is not in the store `t`, and a database that holds what the
/// insertion of `h` leaves is asked for the listing and every row can be
/// read, `h` is among the households listed, equal in every field and in
/// its members and their order.
pub proof fn law_insert_then_get_all(
    t: Relations,
    h: HouseholdView,
    asked: Seq<Exchange>,
    households: Seq<HouseholdView>,
)
    requires
        t.wf(),
        reads_back(h),
        !t.has_household(id_text(h.id.value)),
        t.apply_all(insert_statements(h)).gives(asked),
        listing_read(asked, Ok(households)),
    ensures
        households.contains(h),
{
    law_insert_then_listed(t, h);
    let after = t.apply_all(insert_statements(h));
    law_listing_shows_store(after, asked, households);
    assert(after.read(t.households.len() as int) is Ok);
}

/// A household that was replaced is in the listing as it was given: where
/// a row of the store `t` has the identity of `h`, and a database that
/// holds what the replacement by `h` leaves is asked for the listing and
/// every row can be read, `h` is among the households listed, and it is
/// the only one of its identity.
pub proof fn law_update_then_get_all(
    t: Relations,
    h: HouseholdView,
    asked: Seq<Exchange>,
    households: Seq<HouseholdView>,
)
    requires
        t.wf(),
        reads_back(h),
        t.has_household(id_text(h.id.value)),
        t.apply_all(update_statements(h)).gives(asked),
        listing_read(asked, Ok(households)),
    ensures
        households.contains(h),
        forall|i: int|
            0 <= i < households.len() && (#[trigger] households[i]).id == h.id ==> households[i]
                == h,
{
    let k = choose|k: int|
        0 <= k < t.households.len() && (#[trigger] t.households[k]).id == id_text(h.id.value);
    law_update_then_listed(t, h, k);
    let after = t.apply_all(update_statements(h));
    law_listing_shows_store(after, asked, households);
    assert(after.read(k) is Ok);
    let at = choose|at: int| 0 <= at < households.len() && households[at] == h;
    assert forall|i: int| 0 <= i < households.len() && (#[trigger] households[i]).id
        == h.id implies households[i] == h by {
        if i < at {
            assert(households[i].id != households[at].id);
        } else if at < i {
            assert(households[at].id != households[i].id);
        }
    }
}

/// A household that was removed is not in the listing: where a database
/// that holds what the removal of `id` leaves of the store `t` is asked for
/// the listing and every row can be read, no household listed has the
/// identity `id`, and no member row of the store belongs to it.
pub proof fn law_delete_then_get_all(
    t: Relations,
    id: HouseholdId,
    asked: Seq<Exchange>,
    households: Seq<HouseholdView>,
)
    requires
        t.wf(),
        t.apply_all(delete_statements(id)).gives(asked),
        listing_read(asked, Ok(households)),
    ensures
        forall|i: int| 0 <= i < households.len() ==> (#[trigger] households[i]).id != id,
        t.apply_all(delete_statements(id)).members_of(id_text(id.value)).len() == 0,
{
    law_delete_then_gone(t, id);
    let after = t.apply_all(delete_statements(id));
    law_listing_shows_store(after, asked, households);
    assert forall|i: int| 0 <= i < households.len() implies (#[trigger] households[i]).id
        != id by {
        let k = choose|k: int|
            0 <= k < after.households.len() && #[trigger] after.read(k) == Ok::<
                HouseholdView,
                StorageError,
            >(households[i]);
        assert(after.read(k) matches Ok(found) ==> found.id != id);
    }
    lemma_rows_under_none(after.members, id_text(id.value));
}

/// The rural rows are the rest: no more rows are urban than there are.
pub proof fn lemma_urban_rows_bound(households: Seq<HouseholdRowView>)
    ensures
        urban_rows(households) <= households.len(),
    decreases households.len(),
{
    if households.len() > 0 {
        lemma_urban_rows_bound(households.drop_last());
    }
}

/// The statistics count the store: where a database that holds the
/// relations `t`, which meet the invariants, is asked for the counts, the
/// statistics are there: the households are the household rows, the urban
/// ones the rows of the urban type, the rural ones the rest, and the
/// members are the member rows, as many as are listed under the
/// households.
pub proof fn law_statistics_of_store(
    t: Relations,
    counted: Seq<Exchange>,
    outcome: Result<HouseholdStatistics, StorageError>,
)
    requires
        t.wf(),
        t.households.len() <= usize::MAX,
        t.members.len() <= usize::MAX,
        t.gives(counted),
        statistics_read(counted, outcome),
    ensures
        outcome is Ok,
        outcome->Ok_0.total_households == t.households.len(),
        outcome->Ok_0.urban_households == urban_rows(t.households),
        outcome->Ok_0.rural_households == t.households.len() - urban_rows(t.households),
        outcome->Ok_0.total_members == t.members.len(),
        outcome->Ok_0.total_members == listed_members(t.households, t.members),
{
    assert(t.answers(counted[0]));
    assert(t.answers(counted.last()));
    if counted.len() >= 2 {
        assert(t.answers(counted[1]));
    }
    if counted.len() >= 3 {
        assert(t.answers(counted[2]));
    }
    lemma_urban_rows_bound(t.households);
    law_member_count(t);
}

/// The statistics count what is listed: where a database that holds the
/// relations `t`, which meet the invariants, is asked for the counts and
/// for the listing, and every row can be read, there are as many
/// households listed as counted, and their members are as many as the
/// members counted.
pub proof fn law_statistics_count_the_store(
    t: Relations,
    counted: Seq<Exchange>,
    outcome: Result<HouseholdStatistics, StorageError>,
    listed: Seq<Exchange>,
    households: Seq<HouseholdView>,
)
    requires
        t.wf(),
        t.households.len() <= usize::MAX,
        t.members.len() <= usize::MAX,
        t.gives(counted),
        statistics_read(counted, outcome),
        t.gives(listed),
        listing_read(listed, Ok(households)),
    ensures
        outcome is Ok,
        outcome->Ok_0.urban_households + outcome->Ok_0.rural_households
            == outcome->Ok_0.total_households,
        outcome->Ok_0.total_households == households.len(),
        outcome->Ok_0.total_members == members_total(households),
{
    law_statistics_of_store(t, counted, outcome);
    law_listing_shows_store(t, listed, households);
}

/// The statistics of the seeded store: where an empty store was seeded
/// with the two samples and is asked for the counts, they are two
/// households, one urban and one rural, and three members.
pub proof fn law_seeded_statistics(
    first: HouseholdId,
    second: HouseholdId,
    issued: Seq<Issue>,
    seeded: Result<(), StorageError>,
    counted: Seq<Exchange>,
    outcome: Result<HouseholdStatistics, StorageError>,
)
    requires
        first != second,
        reads_back(sample_first(first)),
        reads_back(sample_second(second)),
        plan_run(sample_statements(first, second), issued, seeded),
        Relations::empty().follows(issued),
        Relations::empty().after(issued).gives(counted),
        statistics_read(counted, outcome),
    ensures
        outcome is Ok,
        outcome->Ok_0.total_households == 2,
        outcome->Ok_0.urban_households == 1,
        outcome->Ok_0.rural_households == 1,
        outcome->Ok_0.total_members == 3,
{
    law_seeded_store(first, second, issued, seeded);
    law_statistics_of_store(Relations::empty().after(issued), counted, outcome);
}

/// A search finds what matches, end to end: where a database that holds
/// the relations `t`, which meet the invariants, is searched for `query`
/// and asked for the listing, and every row can be read, the positions
/// that the manager returns are exactly the positions, in the listing, of
/// the households in which `query` occurs, ascending.
pub proof fn law_search_then_positions(
    t: Relations,
    query: Seq<char>,
    searched: Seq<Exchange>,
    found: Seq<HouseholdView>,
    listed: Seq<Exchange>,
    all: Seq<HouseholdView>,
)
    requires
        t.wf(),
        t.gives(searched),
        search_read(query, searched, Ok(found)),
        t.gives(listed),
        listing_read(listed, Ok(all)),
    ensures
        found_positions(all, found) == matching_positions(all, query),
{
    law_listing_shows_store(t, listed, all);
    let proposed = household_rows_of(searched[0].answer->Rows_0);
    let rows = rows_matching(proposed, query);
    let keep = |row: HouseholdRowView| row.matches(query);
    let rest = searched.skip(1);
    let listing_rows = household_rows_of(listed[0].answer->Rows_0);
    let listing_rest = listed.skip(1);
    assert(t.answers(searched[0]));
    assert(searched[0].query == QueryView::HouseholdsLike(like_pattern(query)));
    assert(proposes(proposed, t.households, query));
    assert(t.answers(listed[0]));
    assert forall|j: int| 0 <= j < rest.len() implies t.answers(#[trigger] rest[j]) by {
        assert(rest[j] == searched[j + 1]);
    }
    assert forall|j: int| 0 <= j < listing_rest.len() implies t.answers(
        #[trigger] listing_rest[j],
    ) by {
        assert(listing_rest[j] == listed[j + 1]);
    }
    assert forall|i: int| 0 <= i < all.len() implies (has_id(found, (#[trigger] all[i]).id)
        <==> all[i].matches(query)) by {
        assert(t.households.contains(listing_rows[i]));
        let k = choose|k: int| 0 <= k < t.households.len() && t.households[k] == listing_rows[i];
        lemma_households_read(t, listing_rows, listing_rest, all, i, k);
        if all[i].matches(query) {
            assert(t.households[k].matches(query));
            assert(proposed.contains(t.households[k]));
            let p = choose|p: int| 0 <= p < proposed.len() && proposed[p] == t.households[k];
            proposed.lemma_filter_contains(keep, p);
            assert(rows.contains(proposed[p]));
            let f = choose|f: int| 0 <= f < rows.len() && rows[f] == t.households[k];
            lemma_households_read(t, rows, rest, found, f, k);
            assert(found[f].id == all[i].id);
        }
        if has_id(found, all[i].id) {
            let f = choose|f: int| 0 <= f < found.len() && (#[trigger] found[f]).id == all[i].id;
            lemma_filter_from(proposed, query, f);
            assert(t.households.contains(rows[f]));
            let w = choose|w: int| 0 <= w < t.households.len() && t.households[w] == rows[f];
            lemma_households_read(t, rows, rest, found, f, w);
            assert(rows[f].id == listing_rows[i].id);
            if w < k {
                assert(t.households[w].id != t.households[k].id);
            } else if k < w {
                assert(t.households[k].id != t.households[w].id);
            }
        }
    }
    law_found_positions(all, found, query);
}

/// A row that is kept by a search is one of the rows proposed.
pub proof fn lemma_filter_from(rows: Seq<HouseholdRowView>, query: Seq<char>, f: int)
    requires
        0 <= f < rows_matching(rows, query).len(),
    ensures
        rows.contains(rows_matching(rows, query)[f]),
        rows_matching(rows, query)[f].matches(query),
    decreases rows.len(),
{
    let keep = |row: HouseholdRowView| row.matches(query);
    reveal(Seq::filter);
    if rows.len() > 0 {
        let kept_rest = rows.drop_last().filter(keep);
        if f < kept_rest.len() {
            lemma_filter_from(rows.drop_last(), query, f);
            let w = choose|w: int|
                0 <= w < rows.drop_last().len() && rows.drop_last()[w] == kept_rest[f];
            assert(rows[w] == rows_matching(rows, query)[f]);
        } else {
            assert(rows[rows.len() - 1] == rows_matching(rows, query)[f]);
        }
    }
}

/// Where every row of the store can be read, a reading of rows of the
/// store, by a database that holds it, does not fail.
pub proof fn lemma_reading_succeeds(
    t: Relations,
    rows: Seq<HouseholdRowView>,
    asked: Seq<Exchange>,
    outcome: Result<Seq<HouseholdView>, StorageError>,
)
    requires
        t.wf(),
        forall|k: int| 0 <= k < t.households.len() ==> #[trigger] t.read(k) is Ok,
        forall|i: int| 0 <= i < rows.len() ==> t.households.contains(#[trigger] rows[i]),
        t.gives(asked),
        households_read(rows, asked, outcome),
    ensures
        outcome is Ok,
{
    if outcome is Err {
        if asked.len() > 0 && members_read(asked.last().answer) is Err {
            let i = asked.len() - 1;
            assert(asks_for_members(rows[i], asked[i]));
            assert(t.answers(asked[i]));
            assert(t.households.contains(rows[i]));
            let k = choose|k: int| 0 <= k < t.households.len() && t.households[k] == rows[i];
            assert(t.read(k) is Ok);
            let shell = decode_household(rows[i], Seq::empty())->Ok_0;
            assert(id_from_text(t.households[k].id) == Some(shell.id.value));
        } else {
            let i = asked.len() as int;
            assert(t.households.contains(rows[i]));
            let k = choose|k: int| 0 <= k < t.households.len() && t.households[k] == rows[i];
            assert(t.read(k) is Ok);
        }
    }
}

/// A search by the manager finds what matches: where a database holds the
/// relations `t`, which meet the invariants and of which every row can be
/// read, and a manager that meets its invariant searches it for a query
/// that is not empty, the search succeeds, the cache shows a household for
/// every household of the store, and the positions returned are exactly
/// the positions, in the cache, of the households in which the query
/// occurs, ascending. A cache that is not due was read from the same
/// relations: no statement was issued since.
pub proof fn law_manager_search(
    t: Relations,
    before: &HouseholdManager,
    query: Seq<char>,
    after: &HouseholdManager,
    outcome: Result<Vec<usize>, StorageError>,
)
    requires
        t.wf(),
        forall|k: int| 0 <= k < t.households.len() ==> #[trigger] t.read(k) is Ok,
        query.len() > 0,
        before.wf(),
        !before.cache_dirty() ==> t.gives(before.listed()),
        before.searched(query, after, outcome),
        t.gives(since(before.asked(), after.asked())),
    ensures
        outcome is Ok,
        after.cache().len() == t.households.len(),
        distinct_ids(after.cache()),
        forall|k: int|
            0 <= k < t.households.len() ==> after.cache().contains((#[trigger] t.read(k))->Ok_0),
        forall|i: int|
            0 <= i < after.cache().len() ==> exists|k: int|
                0 <= k < t.households.len() && #[trigger] t.read(k) == Ok::<
                    HouseholdView,
                    StorageError,
                >(#[trigger] after.cache()[i]),
        positions_view(outcome->Ok_0@) == matching_positions(after.cache(), query),
{
    let tail = since(before.asked(), after.asked());
    let base = before.asked().len() as int;
    if outcome is Err {
        let e = outcome->Err_0;
        assert(t.answers(tail[0]));
        let proposed = household_rows_of(tail[0].answer->Rows_0);
        assert(proposes(proposed, t.households, query));
        let rows = rows_matching(proposed, query);
        assert forall|i: int| 0 <= i < rows.len() implies t.households.contains(
            #[trigger] rows[i],
        ) by {
            lemma_filter_from(proposed, query, i);
            let p = choose|p: int| 0 <= p < proposed.len() && proposed[p] == rows[i];
            assert(t.households.contains(proposed[p]));
        }
        assert forall|j: int| 0 <= j < tail.skip(1).len() implies t.answers(
            #[trigger] tail.skip(1)[j],
        ) by {
            assert(tail.skip(1)[j] == tail[j + 1]);
        }
        lemma_reading_succeeds(t, rows, tail.skip(1), Err(e));
    } else {
        let positions = outcome->Ok_0;
        let (found, n) = choose|found: Seq<HouseholdView>, n: int|
            {
                &&& before.asked().len() <= n <= after.asked().len()
                &&& #[trigger] search_read(
                    query,
                    after.asked().subrange(before.asked().len() as int, n),
                    Ok(found),
                )
                &&& refreshed(after.asked().take(n), before.cache_dirty(), before.cache(), after)
                &&& positions_view(positions@) == found_positions(after.cache(), found)
            };
        let searched = after.asked().subrange(base, n);
        let middle = after.asked().take(n);
        assert forall|j: int| 0 <= j < searched.len() implies t.answers(
            #[trigger] searched[j],
        ) by {
            assert(searched[j] == tail[j]);
        }
        let listed = if before.cache_dirty() {
            since(middle, after.asked())
        } else {
            before.listed()
        };
        if before.cache_dirty() {
            assert forall|j: int| 0 <= j < listed.len() implies t.answers(
                #[trigger] listed[j],
            ) by {
                assert(listed[j] == tail[n - base + j]);
            }
        }
        let loaded = choose|loaded: Result<Seq<HouseholdView>, StorageError>|
            #[trigger] listing_read(listed, loaded) && after.cache() == shown(loaded);
        // the listing did not fail
        assert(t.answers(listed[0]));
        let rows = household_rows_of(listed[0].answer->Rows_0);
        assert forall|j: int| 0 <= j < listed.skip(1).len() implies t.answers(
            #[trigger] listed.skip(1)[j],
        ) by {
            assert(listed.skip(1)[j] == listed[j + 1]);
        }
        lemma_reading_succeeds(t, rows, listed.skip(1), loaded);
        let all = loaded->Ok_0;
        law_listing_shows_store(t, listed, all);
        law_keyed_of_distinct(all);
        law_search_then_positions(t, query, searched, found, listed, all);
    }
}

/// The statements of a run that went through are those of the plan.
pub proof fn lemma_whole_plan(plan: Seq<StatementView>, issued: Seq<Issue>)
    requires
        issued.len() == plan.len(),
        forall|i: int| 0 <= i < issued.len() ==> (#[trigger] issued[i]).statement == plan[i],
    ensures
        statements_of(issued) == plan,
{
    assert(statements_of(issued) =~= plan);
}

/// The statements of the first `n` issued are the first `n` of the plan.
pub proof fn lemma_plan_prefix(plan: Seq<StatementView>, issued: Seq<Issue>, n: int)
    requires
        0 <= n <= issued.len() <= plan.len(),
        forall|i: int| 0 <= i < issued.len() ==> (#[trigger] issued[i]).statement == plan[i],
    ensures
        statements_of(issued.take(n)) == plan.take(n),
{
    assert(statements_of(issued.take(n)) =~= plan.take(n));
}

/// An insertion succeeds exactly where the identity is new: where the
/// statements of the insertion of `h` are issued to a database that holds
/// the store `t`, the insertion fails exactly where a household of `t` has
/// the identity of `h`, and then leaves the store as it was; where it
/// succeeds the store holds what the whole plan leaves, one household
/// more, and the invariants stand.
pub proof fn law_insert_outcome(
    t: Relations,
    h: HouseholdView,
    issued: Seq<Issue>,
    outcome: Result<(), StorageError>,
)
    requires
        t.wf(),
        reads_back(h),
        plan_run(insert_statements(h), issued, outcome),
        t.follows(issued),
    ensures
        outcome is Err <==> t.has_household(id_text(h.id.value)),
        outcome is Err ==> t.after(issued) == t,
        t.after(issued).wf(),
        outcome is Ok ==> {
            &&& t.after(issued) == t.apply_all(insert_statements(h))
            &&& t.after(issued).households.len() == t.households.len() + 1
            &&& t.after(issued).wf()
        },
{
    let plan = insert_statements(h);
    assert(issued.take(0) =~= Seq::empty());
    assert(statements_of(Seq::<Issue>::empty()) =~= Seq::empty());
    if issued.len() > 0 {
        assert(t.after(issued.take(0)).does(issued[0]));
    }
    if t.has_household(id_text(h.id.value)) {
        if issued.len() > 1 {
            assert(issued[0].effect is Changed);
        }
        assert(issued.len() == 1);
        assert(issued.last() == issued[0]);
        lemma_plan_prefix(plan, issued, 1);
        assert(issued.take(1) =~= issued);
        law_insert_of_present(t, h);
    } else {
        if outcome is Err {
            let n = issued.len() - 1;
            assert(issued.last() == issued[n]);
            assert(t.after(issued.take(n)).does(issued[n]));
        }
        lemma_whole_plan(plan, issued);
        law_insert_then_listed(t, h);
    }
}

/// A replacement goes through, and replaces only what is there: where the
/// statements of the replacement by `h` are issued to a database that
/// holds the store `t`, the replacement succeeds; where no household of
/// `t` has the identity of `h` the store is left as it was; where one has,
/// the store holds what the whole plan leaves, and the invariants stand.
pub proof fn law_update_outcome(
    t: Relations,
    h: HouseholdView,
    issued: Seq<Issue>,
    outcome: Result<(), StorageError>,
)
    requires
        t.wf(),
        reads_back(h),
        plan_run_if_changed(update_statements(h), issued, outcome),
        t.follows(issued),
    ensures
        outcome is Ok,
        t.after(issued).wf(),
        !t.has_household(id_text(h.id.value)) ==> t.after(issued) == t,
        t.has_household(id_text(h.id.value)) ==> {
            &&& t.after(issued) == t.apply_all(update_statements(h))
            &&& t.after(issued).households.len() == t.households.len()
            &&& t.after(issued).wf()
        },
{
    let plan = update_statements(h);
    let text = id_text(h.id.value);
    assert(issued.take(0) =~= Seq::empty());
    assert(statements_of(Seq::<Issue>::empty()) =~= Seq::empty());
    assert(t.after(issued.take(0)).does(issued[0]));
    lemma_one_household_with_id(t.households, text);
    if outcome is Err {
        let n = issued.len() - 1;
        assert(issued.last() == issued[n]);
        assert(t.after(issued.take(n)).does(issued[n]));
    }
    if !t.has_household(text) {
        assert(issued.len() == 1);
        lemma_plan_prefix(plan, issued, 1);
        assert(issued.take(1) =~= issued);
        law_update_of_absent(t, h);
    } else {
        assert(issued.last() == issued[issued.len() - 1]);
        lemma_whole_plan(plan, issued);
        let k = choose|k: int|
            0 <= k < t.households.len() && (#[trigger] t.households[k]).id == text;
        law_update_then_listed(t, h, k);
    }
}

/// A removal goes through: where the statements of the removal of `id` are
/// issued to a database that holds the store `t`, the removal succeeds,
/// the store holds what the whole plan leaves, and the invariants stand.
pub proof fn law_delete_outcome(
    t: Relations,
    id: HouseholdId,
    issued: Seq<Issue>,
    outcome: Result<(), StorageError>,
)
    requires
        t.wf(),
        plan_run(delete_statements(id), issued, outcome),
        t.follows(issued),
    ensures
        outcome is Ok,
        t.after(issued) == t.apply_all(delete_statements(id)),
        t.after(issued).wf(),
{
    let plan = delete_statements(id);
    if outcome is Err {
        let n = issued.len() - 1;
        assert(issued.last() == issued[n]);
        assert(t.after(issued.take(n)).does(issued[n]));
    }
    lemma_whole_plan(plan, issued);
    law_delete_then_gone(t, id);
}

/// Replacing twice is replacing once: a second replacement by the same
/// household leaves the store as the first left it.
pub proof fn law_update_twice(t: Relations, h: HouseholdView, k: int)
    requires
        t.wf(),
        reads_back(h),
        0 <= k < t.households.len(),
        t.households[k].id == id_text(h.id.value),
    ensures
        t.apply_all(update_statements(h)).apply_all(update_statements(h)) == t.apply_all(
            update_statements(h),
        ),
{
    let plan = update_statements(h);
    let text = id_text(h.id.value);
    let rows = member_rows(h.members);
    let once = t.apply_all(plan);
    law_update_steps(t, h, k, plan.len() as int);
    assert(plan.take(plan.len() as int) =~= plan);
    assert(h.members.take(h.members.len() as int) =~= h.members);
    law_update_then_listed(t, h, k);
    law_update_steps(once, h, k, plan.len() as int);
    let kept = rows_not_under(t.members, text);
    lemma_rows_not_under(t.members, text, text);
    lemma_rows_not_under_add(kept, stored_under(text, rows), text);
    lemma_rows_not_under_kept(kept, text);
    lemma_rows_not_under_stored(text, rows);
    assert(kept + Seq::<StoredMember>::empty() =~= kept);
    assert(once.households.update(k, household_row(h)) =~= once.households);
}

/// What stays of two lists in a row is what stays of each.
pub proof fn lemma_rows_not_under_add(
    first: Seq<StoredMember>,
    second: Seq<StoredMember>,
    id: Seq<char>,
)
    ensures
        rows_not_under(first + second, id) == rows_not_under(first, id) + rows_not_under(
            second,
            id,
        ),
    decreases second.len(),
{
    if second.len() == 0 {
        assert(first + second =~= first);
        assert(rows_not_under(first, id) + rows_not_under(second, id) =~= rows_not_under(
            first,
            id,
        ));
    } else {
        assert((first + second).drop_last() =~= first + second.drop_last());
        assert((first + second).last() == second.last());
        lemma_rows_not_under_add(first, second.drop_last(), id);
        if second.last().household_id != id {
            assert((rows_not_under(first, id) + rows_not_under(second.drop_last(), id)).push(
                second.last(),
            ) =~= rows_not_under(first, id) + rows_not_under(second, id));
        }
    }
}

/// Of rows none of which belongs to the household, all stay.
pub proof fn lemma_rows_not_under_kept(
    members: Seq<StoredMember>,
    id: Seq<char>,
)
    requires
        forall|m: int| 0 <= m < members.len() ==> (#[trigger] members[m]).household_id != id,
    ensures
        rows_not_under(members, id) == members,
    decreases members.len(),
{
    if members.len() > 0 {
        assert forall|m: int| 0 <= m < members.drop_last().len() implies (
        #[trigger] members.drop_last()[m]).household_id != id by {
            assert(members.drop_last()[m] == members[m]);
        }
        lemma_rows_not_under_kept(members.drop_last(), id);
        assert(members.last() == members[members.len() - 1]);
        assert(members.drop_last().push(members.last()) =~= members);
    } else {
        assert(rows_not_under(members, id) =~= members);
    }
}

/// Of the rows stored under an identity none stays when its rows are
/// removed.
pub proof fn lemma_rows_not_under_stored(id: Seq<char>, rows: Seq<MemberRowView>)
    ensures
        rows_not_under(stored_under(id, rows), id).len() == 0,
    decreases rows.len(),
{
    let stored = stored_under(id, rows);
    if rows.len() > 0 {
        assert(stored.drop_last() =~= stored_under(id, rows.drop_last()));
        lemma_rows_not_under_stored(id, rows.drop_last());
    }
}

/// Households of different identities have different identity texts.
pub proof fn lemma_identity_texts_differ(a: HouseholdView, b: HouseholdView)
    requires
        reads_back(a),
        reads_back(b),
        a.id != b.id,
    ensures
        id_text(a.id.value) != id_text(b.id.value),
{
    assert(id_from_text(household_row(a).id) == Some(a.id.value));
    assert(id_from_text(household_row(b).id) == Some(b.id.value));
}

/// Seeding an empty store gives the two sample households: where the
/// statements that store the samples under two identities that differ are
/// issued to a database that holds nothing, the seeding succeeds; the
/// store then holds two household rows, one of them urban, and three
/// member rows; a listing reads the first sample from the first row and
/// the second from the second; and the invariants stand.
pub proof fn law_seeded_store(
    first: HouseholdId,
    second: HouseholdId,
    issued: Seq<Issue>,
    outcome: Result<(), StorageError>,
)
    requires
        first != second,
        reads_back(sample_first(first)),
        reads_back(sample_second(second)),
        plan_run(sample_statements(first, second), issued, outcome),
        Relations::empty().follows(issued),
    ensures
        outcome is Ok,
        Relations::empty().after(issued).wf(),
        Relations::empty().after(issued).households.len() == 2,
        Relations::empty().after(issued).members.len() == 3,
        urban_rows(Relations::empty().after(issued).households) == 1,
        Relations::empty().after(issued).read(0) == Ok::<HouseholdView, StorageError>(
            sample_first(first),
        ),
        Relations::empty().after(issued).read(1) == Ok::<HouseholdView, StorageError>(
            sample_second(second),
        ),
{
    let e = Relations::empty();
    let s1 = sample_first(first);
    let s2 = sample_second(second);
    let plan1 = insert_statements(s1);
    let plan2 = insert_statements(s2);
    let plan = sample_statements(first, second);
    let text1 = id_text(first.value);
    let text2 = id_text(second.value);
    assert(plan1.len() == 3);
    assert(plan2.len() == 2);
    assert(plan =~= plan1 + plan2);
    lemma_identity_texts_differ(s1, s2);
    // the first sample
    let cut = if issued.len() <= 3 {
        issued.len() as int
    } else {
        3
    };
    let issued1 = issued.take(cut);
    let outcome1: Result<(), StorageError> = if issued.len() <= 3 && outcome is Err {
        outcome
    } else {
        Ok(())
    };
    assert forall|i: int| 0 <= i < issued1.len() implies (#[trigger] issued1[i]).statement
        == plan1[i] by {
        assert(issued1[i] == issued[i]);
    }
    assert forall|i: int| 0 <= i < issued1.len() - 1 implies (#[trigger] issued1[i]).effect
        is Changed by {
        assert(issued1[i] == issued[i]);
    }
    assert forall|n: int| 0 <= n < issued1.len() implies e.after(issued1.take(n)).does(
        #[trigger] issued1[n],
    ) by {
        assert(issued1.take(n) =~= issued.take(n));
        assert(issued1[n] == issued[n]);
    }
    if issued.len() > 0 {
        if issued.len() <= 3 {
            assert(issued1 =~= issued);
        } else {
            assert(issued1.last() == issued[2]);
        }
    }
    law_insert_outcome(e, s1, issued1, outcome1);
    assert(outcome1 is Ok);
    assert(issued.len() > 3 || (issued.len() == 3 && outcome is Ok));
    assert(issued.len() > 3);
    let t1 = e.after(issued1);
    law_insert_then_listed(e, s1);
    law_insert_steps(e, s1, 3);
    assert(plan1.take(3) =~= plan1);
    assert(s1.members.take(2) =~= s1.members);
    assert(t1.households =~= seq![household_row(s1)]);
    // the second sample
    let issued2 = issued.skip(3);
    assert forall|i: int| 0 <= i < issued2.len() implies (#[trigger] issued2[i]).statement
        == plan2[i] by {
        assert(issued2[i] == issued[i + 3]);
        assert(plan[i + 3] == plan2[i]);
    }
    assert forall|i: int| 0 <= i < issued2.len() - 1 implies (#[trigger] issued2[i]).effect
        is Changed by {
        assert(issued2[i] == issued[i + 3]);
    }
    assert(issued2.last() == issued.last());
    assert forall|n: int| 0 <= n < issued2.len() implies t1.after(issued2.take(n)).does(
        #[trigger] issued2[n],
    ) by {
        assert(issued2[n] == issued[n + 3]);
        assert(issued.take(n + 3) =~= issued1 + issued2.take(n));
        assert(statements_of(issued.take(n + 3)) =~= statements_of(issued1) + statements_of(
            issued2.take(n),
        ));
        lemma_apply_all_add(e, statements_of(issued1), statements_of(issued2.take(n)));
        assert(e.after(issued.take(n + 3)).does(issued[n + 3]));
    }
    assert(!t1.has_household(text2)) by {
        if t1.has_household(text2) {
            let k = choose|k: int|
                0 <= k < t1.households.len() && (#[trigger] t1.households[k]).id == text2;
            assert(t1.households[k] == household_row(s1));
        }
    }
    law_insert_outcome(t1, s2, issued2, outcome);
    let t2 = t1.after(issued2);
    assert(issued =~= issued1 + issued2);
    assert(statements_of(issued) =~= statements_of(issued1) + statements_of(issued2));
    lemma_apply_all_add(e, statements_of(issued1), statements_of(issued2));
    assert(e.after(issued) == t2);
    law_insert_then_listed(t1, s2);
    law_insert_steps(t1, s2, 2);
    assert(plan2.take(2) =~= plan2);
    assert(s2.members.take(1) =~= s2.members);
    assert(t2.households =~= seq![household_row(s1), household_row(s2)]);
    // one urban row
    assert(urban_rows(t2.households) == 1) by {
        HouseholdType::Rural.lemma_label_round_trip();
        assert(t2.households.drop_last() =~= seq![household_row(s1)]);
        assert(t2.households.drop_last().drop_last() =~= Seq::empty());
        assert(urban_rows(Seq::empty()) == 0);
        assert(urban_rows(seq![household_row(s1)]) == 1);
    }
    // the first sample is read as before
    lemma_rows_under_add(t1.members, stored_under(text2, member_rows(s2.members)), text1);
    lemma_rows_under_stored(text2, member_rows(s2.members), text1);
    assert(t2.members_of(text1) =~= t1.members_of(text1));
}

/// Of the two samples a search for `张` finds the first alone.
pub proof fn law_sample_search(first: HouseholdId, second: HouseholdId)
    ensures
        sample_first(first).matches("张"@),
        !sample_second(second).matches("张"@),
{
    reveal_strlit("张");
    reveal_strlit("张三");
    reveal_strlit("王五");
    reveal_strlit("110101198506061236");
    reveal_strlit("北京市海淀区YYY街道YYY号");
    reveal_strlit("13900139000");
    let needle = "张"@;
    assert("张三"@.subrange(0, 0int + needle.len()) =~= needle);
    assert(occurs_in(needle, "张三"@));
    lemma_char_absent(needle, "王五"@);
    lemma_char_absent(needle, "110101198506061236"@);
    lemma_char_absent(needle, "北京市海淀区YYY街道YYY号"@);
    lemma_char_absent(needle, "13900139000"@);
}

/// A text of one character does not occur in a text that lacks the
/// character.
pub proof fn lemma_char_absent(needle: Seq<char>, hay: Seq<char>)
    requires
        needle.len() == 1,
        forall|i: int| 0 <= i < hay.len() ==> #[trigger] hay[i] != needle[0],
    ensures
        !occurs_in(needle, hay),
{
    if occurs_in(needle, hay) {
        let i = choose|i: int|
            0 <= i && i + needle.len() <= hay.len() && #[trigger] hay.subrange(
                i,
                i + needle.len(),
            ) == needle;
        assert(hay.subrange(i, i + needle.len())[0] == hay[i]);
    }
}

/// The first run, end to end: where an empty store was seeded with the two
/// samples and a manager that meets its invariant then searches it for
/// `张`, the search succeeds, the cache holds two households, and the one
/// position returned is that of the first sample, whose head is `张三`.
pub proof fn law_seeded_search(
    first: HouseholdId,
    second: HouseholdId,
    issued: Seq<Issue>,
    seeded: Result<(), StorageError>,
    before: &HouseholdManager,
    after: &HouseholdManager,
    outcome: Result<Vec<usize>, StorageError>,
)
    requires
        first != second,
        reads_back(sample_first(first)),
        reads_back(sample_second(second)),
        plan_run(sample_statements(first, second), issued, seeded),
        Relations::empty().follows(issued),
        before.wf(),
        !before.cache_dirty() ==> Relations::empty().after(issued).gives(before.listed()),
        before.searched("张"@, after, outcome),
        Relations::empty().after(issued).gives(since(before.asked(), after.asked())),
    ensures
        seeded is Ok,
        outcome is Ok,
        after.cache().len() == 2,
        positions_view(outcome->Ok_0@).len() == 1,
        0 <= positions_view(outcome->Ok_0@)[0] < 2,
        after.cache()[positions_view(outcome->Ok_0@)[0]] == sample_first(first),
{
    let t = Relations::empty().after(issued);
    let query = "张"@;
    let s1 = sample_first(first);
    let s2 = sample_second(second);
    reveal_strlit("张");
    law_seeded_store(first, second, issued, seeded);
    law_sample_search(first, second);
    assert forall|k: int| 0 <= k < t.households.len() implies #[trigger] t.read(k) is Ok by {
        if k == 0 {
        } else {
            assert(k == 1);
        }
    }
    law_manager_search(t, before, query, after, outcome);
    let cache = after.cache();
    assert(cache.contains(t.read(0)->Ok_0));
    assert(cache.contains(t.read(1)->Ok_0));
    let a = choose|a: int| 0 <= a < cache.len() && cache[a] == s1;
    let b = choose|b: int| 0 <= b < cache.len() && cache[b] == s2;
    assert(cache.drop_last().drop_last() =~= Seq::empty());
    assert(cache.drop_last().last() == cache[0]);
    assert(cache.last() == cache[1]);
    reveal_with_fuel(matching_positions, 3);
    if a == 0 {
        assert(b == 1);
    } else {
        assert(a == 1 && b == 0);
    }
}

} // verus!
