//! What the statements mean: the two relations as sequences of rows, the
//! change that each statement makes to them, and what follows for the
//! operations of the store.
//!
//! The database is taken to behave as the relations do here. A statement
//! that it refuses changes nothing; of the statements of this library it
//! refuses, for a reason that lies in the rows, only the insertion of a
//! household whose identity is already there.

use crate::data::answers::{Effect, Issue};
use crate::data::models::{HouseholdView, MemberView};
use crate::data::rows::{
    assemble_household, decode_household, decode_members, household_row, member_row,
    member_rows, reads_back, HouseholdRowView, MemberRowView, StorageError,
};
use crate::data::statements::{
    delete_statements, insert_statements, member_inserts, schema_statements,
    update_statements, StatementView,
};
use crate::identity::{id_from_text, id_text, HouseholdId};
use vstd::prelude::*;

verus! {

/// A row of the relation `members` with the identity of its household.
pub struct StoredMember {
    pub household_id: Seq<char>,
    pub row: MemberRowView,
}

/// The rows of the two relations, each in the order of its row numbers.
pub struct Relations {
    pub households: Seq<HouseholdRowView>,
    pub members: Seq<StoredMember>,
}

/// The rows of `members` that belong to the household `id`, in order.
pub open spec fn rows_under(members: Seq<StoredMember>, id: Seq<char>) -> Seq<MemberRowView>
    decreases members.len(),
{
    if members.len() == 0 {
        Seq::empty()
    } else if members.last().household_id == id {
        rows_under(members.drop_last(), id).push(members.last().row)
    } else {
        rows_under(members.drop_last(), id)
    }
}

/// The rows of `members` that do not belong to the household `id`.
pub open spec fn rows_not_under(members: Seq<StoredMember>, id: Seq<char>) -> Seq<StoredMember>
    decreases members.len(),
{
    if members.len() == 0 {
        Seq::empty()
    } else if members.last().household_id == id {
        rows_not_under(members.drop_last(), id)
    } else {
        rows_not_under(members.drop_last(), id).push(members.last())
    }
}

/// The rows of `households` without those of the identity `id`.
pub open spec fn households_without(households: Seq<HouseholdRowView>, id: Seq<char>) -> Seq<
    HouseholdRowView,
>
    decreases households.len(),
{
    if households.len() == 0 {
        Seq::empty()
    } else if households.last().id == id {
        households_without(households.drop_last(), id)
    } else {
        households_without(households.drop_last(), id).push(households.last())
    }
}

/// The rows of `households` with `row` in the place of each row of its
/// identity.
pub open spec fn households_with(households: Seq<HouseholdRowView>, row: HouseholdRowView) -> Seq<
    HouseholdRowView,
> {
    Seq::new(
        households.len(),
        |k: int|
            if households[k].id == row.id {
                row
            } else {
                households[k]
            },
    )
}

/// The given member rows as rows of the household `id`.
pub open spec fn stored_under(id: Seq<char>, rows: Seq<MemberRowView>) -> Seq<StoredMember> {
    Seq::new(rows.len(), |i: int| StoredMember { household_id: id, row: rows[i] })
}

/// The number of member rows that belong to one of the given households,
/// each household counted for itself.
pub open spec fn listed_members(households: Seq<HouseholdRowView>, members: Seq<StoredMember>) -> nat
    decreases households.len(),
{
    if households.len() == 0 {
        0
    } else {
        listed_members(households.drop_last(), members) + rows_under(
            members,
            households.last().id,
        ).len()
    }
}

/// The number of the given households that have the identity `id`.
pub open spec fn households_with_id(households: Seq<HouseholdRowView>, id: Seq<char>) -> nat
    decreases households.len(),
{
    if households.len() == 0 {
        0
    } else if households.last().id == id {
        households_with_id(households.drop_last(), id) + 1
    } else {
        households_with_id(households.drop_last(), id)
    }
}

/// The statements that were issued, without what the database did.
pub open spec fn statements_of(issued: Seq<Issue>) -> Seq<StatementView> {
    Seq::new(issued.len(), |i: int| issued[i].statement)
}

impl Relations {
    /// The relations of a store in which nothing was stored yet.
    pub open spec fn empty() -> Relations {
        Relations { households: Seq::empty(), members: Seq::empty() }
    }

    /// Whether a household row has the identity `id`.
    pub open spec fn has_household(self, id: Seq<char>) -> bool {
        exists|k: int| 0 <= k < self.households.len() && (#[trigger] self.households[k]).id == id
    }

    /// No two household rows have one identity: it is the primary key.
    pub open spec fn keys_distinct(self) -> bool {
        forall|i: int, j: int|
            0 <= i < j < self.households.len() ==> (#[trigger] self.households[i]).id != (
            #[trigger] self.households[j]).id
    }

    /// Every member row belongs to a household that is there.
    pub open spec fn no_orphans(self) -> bool {
        forall|m: int|
            0 <= m < self.members.len() ==> self.has_household(
                (#[trigger] self.members[m]).household_id,
            )
    }

    /// Every identity that can be read is spelled as this library spells
    /// it, so that one household has one text.
    pub open spec fn canonical(self) -> bool {
        forall|k: int|
            0 <= k < self.households.len() ==> (id_from_text(
                (#[trigger] self.households[k]).id,
            ) matches Some(value) ==> id_text(value) == self.households[k].id)
    }

    /// The invariants of the store: identities are unique and spelled in
    /// one way, and no member is without its household.
    pub open spec fn wf(self) -> bool {
        self.keys_distinct() && self.no_orphans() && self.canonical()
    }

    /// The member rows of the household `id`, in order.
    pub open spec fn members_of(self, id: Seq<char>) -> Seq<MemberRowView> {
        rows_under(self.members, id)
    }

    /// The relations after the database was handed `statement`.
    pub open spec fn apply(self, statement: StatementView) -> Relations {
        match statement {
            StatementView::CreateHouseholds => self,
            StatementView::CreateMembers => self,
            StatementView::InsertHousehold(row) => if self.has_household(row.id) {
                self
            } else {
                Relations { households: self.households.push(row), ..self }
            },
            StatementView::UpdateHousehold(row) => Relations {
                households: households_with(self.households, row),
                ..self
            },
            StatementView::DeleteMembers(id) => Relations {
                members: rows_not_under(self.members, id),
                ..self
            },
            StatementView::DeleteHousehold(id) => Relations {
                households: households_without(self.households, id),
                ..self
            },
            StatementView::InsertMember(id, row) => Relations {
                members: self.members.push(StoredMember { household_id: id, row }),
                ..self
            },
        }
    }

    /// The relations after the database was handed the statements of
    /// `plan`, in order.
    pub open spec fn apply_all(self, plan: Seq<StatementView>) -> Relations
        decreases plan.len(),
    {
        if plan.len() == 0 {
            self
        } else {
            self.apply_all(plan.drop_last()).apply(plan.last())
        }
    }

    /// Whether `issue` is a statement with what a database that holds these
    /// relations does with it: it refuses the insertion of a household whose
    /// identity is there, and inserts any other; it tells of a replaced row
    /// for each household row of the identity; it refuses nothing else.
    pub open spec fn does(self, issue: Issue) -> bool {
        match issue.statement {
            StatementView::InsertHousehold(row) => issue.effect == if self.has_household(
                row.id,
            ) {
                Effect::Refused
            } else {
                Effect::Changed(1)
            },
            StatementView::UpdateHousehold(row) => issue.effect == Effect::Changed(
                households_with_id(self.households, row.id) as int,
            ),
            _ => issue.effect is Changed,
        }
    }

    /// The relations after the database was handed the statements issued.
    pub open spec fn after(self, issued: Seq<Issue>) -> Relations {
        self.apply_all(statements_of(issued))
    }

    /// Whether the statements were issued, one after the other, to a
    /// database that held these relations at first.
    pub open spec fn follows(self, issued: Seq<Issue>) -> bool {
        forall|n: int|
            0 <= n < issued.len() ==> self.after(issued.take(n)).does(#[trigger] issued[n])
    }

    /// What a listing makes of the household row at the position `k`: the
    /// row is decoded, and the member rows stored under the text of its
    /// identity are its members.
    pub open spec fn read(self, k: int) -> Result<HouseholdView, StorageError> {
        match decode_household(self.households[k], Seq::empty()) {
            Err(e) => Err(e),
            Ok(shell) => assemble_household(
                self.households[k],
                self.members_of(id_text(shell.id.value)),
            ),
        }
    }
}

/// Handing over two plans in a row is handing over the one behind the other.
pub proof fn lemma_apply_all_add(t: Relations, first: Seq<StatementView>, second: Seq<StatementView>)
    ensures
        t.apply_all(first + second) == t.apply_all(first).apply_all(second),
    decreases second.len(),
{
    if second.len() == 0 {
        assert(first + second =~= first);
    } else {
        assert((first + second).drop_last() =~= first + second.drop_last());
        assert((first + second).last() == second.last());
        lemma_apply_all_add(t, first, second.drop_last());
    }
}

/// Handing over one statement.
pub proof fn lemma_apply_all_one(t: Relations, statement: StatementView)
    ensures
        t.apply_all(seq![statement]) == t.apply(statement),
{
    let plan = seq![statement];
    assert(plan.drop_last() =~= Seq::empty());
    assert(plan.last() == statement);
    assert(t.apply_all(plan.drop_last()) == t);
}

/// Adding the members of a household appends their rows under its identity
/// and leaves the households alone.
pub proof fn lemma_apply_member_inserts(t: Relations, id: HouseholdId, members: Seq<MemberView>)
    ensures
        t.apply_all(member_inserts(id, members)) == (Relations {
            households: t.households,
            members: t.members + stored_under(id_text(id.value), member_rows(members)),
        }),
    decreases members.len(),
{
    let plan = member_inserts(id, members);
    let text = id_text(id.value);
    if members.len() == 0 {
        assert(t.members + stored_under(text, member_rows(members)) =~= t.members);
    } else {
        let rest = members.drop_last();
        assert(plan.drop_last() =~= member_inserts(id, rest));
        assert(plan.last() == StatementView::InsertMember(text, member_row(members.last())));
        lemma_apply_member_inserts(t, id, rest);
        assert((t.members + stored_under(text, member_rows(rest))).push(
            StoredMember { household_id: text, row: member_row(members.last()) },
        ) =~= t.members + stored_under(text, member_rows(members)));
    }
}

/// The rows under an identity of two lists in a row.
pub proof fn lemma_rows_under_add(first: Seq<StoredMember>, second: Seq<StoredMember>, id: Seq<char>)
    ensures
        rows_under(first + second, id) == rows_under(first, id) + rows_under(second, id),
    decreases second.len(),
{
    if second.len() == 0 {
        assert(first + second =~= first);
        assert(rows_under(first, id) + rows_under(second, id) =~= rows_under(first, id));
    } else {
        assert((first + second).drop_last() =~= first + second.drop_last());
        assert((first + second).last() == second.last());
        lemma_rows_under_add(first, second.drop_last(), id);
        if second.last().household_id == id {
            assert((rows_under(first, id) + rows_under(second.drop_last(), id)).push(
                second.last().row,
            ) =~= rows_under(first, id) + rows_under(second, id));
        }
    }
}

/// Rows stored under one identity are found under it, and under no other.
pub proof fn lemma_rows_under_stored(id: Seq<char>, rows: Seq<MemberRowView>, other: Seq<char>)
    ensures
        rows_under(stored_under(id, rows), id) == rows,
        other != id ==> rows_under(stored_under(id, rows), other).len() == 0,
    decreases rows.len(),
{
    let stored = stored_under(id, rows);
    if rows.len() == 0 {
        assert(rows_under(stored, id) =~= rows);
    } else {
        assert(stored.drop_last() =~= stored_under(id, rows.drop_last()));
        assert(stored.last().row == rows.last());
        lemma_rows_under_stored(id, rows.drop_last(), other);
        assert(rows.drop_last().push(rows.last()) =~= rows);
    }
}

/// Where no row belongs to the household, none is found under it.
pub proof fn lemma_rows_under_none(members: Seq<StoredMember>, id: Seq<char>)
    requires
        forall|m: int| 0 <= m < members.len() ==> (#[trigger] members[m]).household_id != id,
    ensures
        rows_under(members, id).len() == 0,
    decreases members.len(),
{
    if members.len() > 0 {
        assert forall|m: int| 0 <= m < members.drop_last().len() implies (
        #[trigger] members.drop_last()[m]).household_id != id by {
            assert(members.drop_last()[m] == members[m]);
        }
        lemma_rows_under_none(members.drop_last(), id);
        assert(members.last() == members[members.len() - 1]);
    }
}

/// What stays when the rows of one household are removed: no row of that
/// household, every row that stays was there, and the rows of every other
/// household are untouched.
pub proof fn lemma_rows_not_under(members: Seq<StoredMember>, id: Seq<char>, other: Seq<char>)
    ensures
        forall|m: int|
            0 <= m < rows_not_under(members, id).len() ==> {
                &&& (#[trigger] rows_not_under(members, id)[m]).household_id != id
                &&& members.contains(rows_not_under(members, id)[m])
            },
        rows_under(rows_not_under(members, id), id).len() == 0,
        other != id ==> rows_under(rows_not_under(members, id), other) == rows_under(
            members,
            other,
        ),
    decreases members.len(),
{
    let kept = rows_not_under(members, id);
    if members.len() > 0 {
        let rest = members.drop_last();
        lemma_rows_not_under(rest, id, other);
        let kept_rest = rows_not_under(rest, id);
        assert forall|m: int| 0 <= m < kept.len() implies {
            &&& (#[trigger] kept[m]).household_id != id
            &&& members.contains(kept[m])
        } by {
            if m < kept_rest.len() {
                assert(kept[m] == kept_rest[m]);
                let w = choose|w: int| 0 <= w < rest.len() && rest[w] == kept_rest[m];
                assert(members[w] == kept[m]);
            } else {
                assert(kept[m] == members[members.len() - 1]);
            }
        }
        if members.last().household_id != id {
            assert(kept.drop_last() =~= kept_rest);
            assert(kept.last() == members.last());
        }
    }
}

/// What stays when the household rows of one identity are removed: no row
/// of that identity, and every other row, in order.
pub proof fn lemma_households_without(households: Seq<HouseholdRowView>, id: Seq<char>)
    ensures
        forall|k: int|
            0 <= k < households_without(households, id).len() ==> {
                &&& (#[trigger] households_without(households, id)[k]).id != id
                &&& households.contains(households_without(households, id)[k])
            },
        forall|k: int|
            0 <= k < households.len() && (#[trigger] households[k]).id != id
                ==> households_without(households, id).contains(households[k]),
        forall|i: int, j: int|
            0 <= i < j < households_without(households, id).len() ==> exists|a: int, b: int|
                0 <= a < b < households.len() && households[a] == #[trigger] households_without(
                    households,
                    id,
                )[i] && households[b] == #[trigger] households_without(households, id)[j],
    decreases households.len(),
{
    let kept = households_without(households, id);
    if households.len() > 0 {
        let rest = households.drop_last();
        let last = households.len() - 1;
        lemma_households_without(rest, id);
        let kept_rest = households_without(rest, id);
        assert forall|k: int| 0 <= k < kept.len() implies {
            &&& (#[trigger] kept[k]).id != id
            &&& households.contains(kept[k])
        } by {
            if k < kept_rest.len() {
                assert(kept[k] == kept_rest[k]);
                let w = choose|w: int| 0 <= w < rest.len() && rest[w] == kept_rest[k];
                assert(households[w] == kept[k]);
            } else {
                assert(kept[k] == households[last]);
            }
        }
        assert forall|k: int| 0 <= k < households.len() && (#[trigger] households[k]).id
            != id implies kept.contains(households[k]) by {
            if k < last {
                assert(rest[k] == households[k]);
                assert(kept_rest.contains(rest[k]));
                let w = choose|w: int| 0 <= w < kept_rest.len() && kept_rest[w] == rest[k];
                assert(kept[w] == households[k]);
            } else {
                assert(kept[kept.len() - 1] == households[k]);
            }
        }
        assert forall|i: int, j: int| 0 <= i < j < kept.len() implies exists|a: int, b: int|
            0 <= a < b < households.len() && households[a] == #[trigger] kept[i]
                && households[b] == #[trigger] kept[j] by {
            if j < kept_rest.len() {
                assert(kept[i] == kept_rest[i]);
                assert(kept[j] == kept_rest[j]);
                let (a, b) = choose|a: int, b: int|
                    0 <= a < b < rest.len() && rest[a] == kept_rest[i] && rest[b] == kept_rest[j];
                assert(households[a] == kept[i] && households[b] == kept[j]);
            } else {
                assert(kept[i] == kept_rest[i]);
                let a = choose|a: int| 0 <= a < rest.len() && rest[a] == kept_rest[i];
                assert(households[a] == kept[i] && households[last] == kept[j]);
            }
        }
    }
}

/// A prefix of the statements that add members adds a prefix of the
/// members.
pub proof fn lemma_member_inserts_take(id: HouseholdId, members: Seq<MemberView>, n: int)
    requires
        0 <= n <= members.len(),
    ensures
        member_inserts(id, members).take(n) == member_inserts(id, members.take(n)),
{
    assert(member_inserts(id, members).take(n) =~= member_inserts(id, members.take(n)));
}

/// Rows added under the identity of a household that is there leave the
/// invariants standing.
pub proof fn lemma_added_members_keep_wf(t: Relations, id: Seq<char>, rows: Seq<MemberRowView>)
    requires
        t.wf(),
        t.has_household(id),
    ensures
        (Relations { households: t.households, members: t.members + stored_under(id, rows) }).wf(),
{
    let after = Relations { households: t.households, members: t.members + stored_under(id, rows) };
    assert forall|m: int| 0 <= m < after.members.len() implies after.has_household(
        (#[trigger] after.members[m]).household_id,
    ) by {
        if m < t.members.len() {
            assert(after.members[m] == t.members[m]);
            let w = choose|k: int|
                0 <= k < t.households.len() && (#[trigger] t.households[k]).id
                    == t.members[m].household_id;
            assert(after.households[w].id == after.members[m].household_id);
        } else {
            let w = choose|k: int| 0 <= k < t.households.len() && (#[trigger] t.households[k]).id == id;
            assert(after.households[w].id == after.members[m].household_id);
        }
    }
}

/// The row that stores a household which reads back carries an identity
/// that reads back.
pub proof fn lemma_row_identity(h: HouseholdView)
    requires
        reads_back(h),
    ensures
        id_from_text(household_row(h).id) == Some(h.id.value),
        decode_household(household_row(h), Seq::empty()) is Ok,
        decode_household(household_row(h), Seq::empty())->Ok_0.id == h.id,
        decode_members(member_rows(h.members)) == Ok::<Seq<MemberView>, StorageError>(h.members),
{
}

/// A new household that was stored is listed as it was given: where the
/// identity of `h` is not in the store, the store after the statements of
/// its insertion holds its row behind the others, a listing reads `h` from
/// that row, equal in every field and in its members and their order, and
/// the invariants stand.
pub proof fn law_insert_then_listed(t: Relations, h: HouseholdView)
    requires
        t.wf(),
        reads_back(h),
        !t.has_household(id_text(h.id.value)),
    ensures
        ({
            let after = t.apply_all(insert_statements(h));
            &&& after.wf()
            &&& after.households == t.households.push(household_row(h))
            &&& after.read(t.households.len() as int) == Ok::<HouseholdView, StorageError>(h)
        }),
{
    law_insert_steps(t, h, insert_statements(h).len() as int);
    assert(insert_statements(h).take(insert_statements(h).len() as int) =~= insert_statements(h));
    assert(h.members.take(h.members.len() as int) =~= h.members);
    let after = t.apply_all(insert_statements(h));
    let text = id_text(h.id.value);
    let rows = member_rows(h.members);
    lemma_row_identity(h);
    lemma_rows_under_add(t.members, stored_under(text, rows), text);
    lemma_rows_under_stored(text, rows, text);
    assert forall|m: int| 0 <= m < t.members.len() implies (#[trigger] t.members[m]).household_id
        != text by {
        if t.members[m].household_id == text {
            assert(t.has_household(t.members[m].household_id));
        }
    }
    lemma_rows_under_none(t.members, text);
    assert(rows_under(t.members, text) + rows =~= rows);
    assert(after.households[t.households.len() as int] == household_row(h));
}

/// The store after the first `n` statements of the insertion of `h`, whose
/// identity is not in the store: nothing yet, or the row of `h` behind the
/// others and the rows of its first `n - 1` members behind the other
/// members. The invariants stand after each statement.
pub proof fn law_insert_steps(t: Relations, h: HouseholdView, n: int)
    requires
        t.wf(),
        reads_back(h),
        !t.has_household(id_text(h.id.value)),
        0 <= n <= insert_statements(h).len(),
    ensures
        t.apply_all(insert_statements(h).take(n)).wf(),
        n == 0 ==> t.apply_all(insert_statements(h).take(n)) == t,
        n > 0 ==> t.apply_all(insert_statements(h).take(n)) == (Relations {
            households: t.households.push(household_row(h)),
            members: t.members + stored_under(
                id_text(h.id.value),
                member_rows(h.members.take(n - 1)),
            ),
        }),
{
    let plan = insert_statements(h);
    let text = id_text(h.id.value);
    if n == 0 {
        assert(plan.take(0) =~= Seq::empty());
    } else {
        let first = seq![StatementView::InsertHousehold(household_row(h))];
        let rest = member_inserts(h.id, h.members);
        lemma_member_inserts_take(h.id, h.members, n - 1);
        assert(plan.take(n) =~= first + member_inserts(h.id, h.members.take(n - 1)));
        lemma_apply_all_add(t, first, member_inserts(h.id, h.members.take(n - 1)));
        lemma_apply_all_one(t, StatementView::InsertHousehold(household_row(h)));
        let with_row = Relations { households: t.households.push(household_row(h)), ..t };
        assert(t.apply(StatementView::InsertHousehold(household_row(h))) == with_row);
        lemma_apply_member_inserts(with_row, h.id, h.members.take(n - 1));
        lemma_row_identity(h);
        // the row keeps the invariants
        assert(with_row.households[t.households.len() as int] == household_row(h));
        assert forall|i: int, j: int| 0 <= i < j < with_row.households.len() implies (
        #[trigger] with_row.households[i]).id != (#[trigger] with_row.households[j]).id by {
            assert(with_row.households[i] == t.households[i]);
            if j < t.households.len() {
                assert(with_row.households[j] == t.households[j]);
            }
        }
        assert forall|m: int| 0 <= m < with_row.members.len() implies with_row.has_household(
            (#[trigger] with_row.members[m]).household_id,
        ) by {
            let w = choose|k: int|
                0 <= k < t.households.len() && (#[trigger] t.households[k]).id
                    == t.members[m].household_id;
            assert(with_row.households[w] == t.households[w]);
        }
        assert forall|k: int| 0 <= k < with_row.households.len() implies (id_from_text(
            (#[trigger] with_row.households[k]).id,
        ) matches Some(value) ==> id_text(value) == with_row.households[k].id) by {
            if k < t.households.len() {
                assert(with_row.households[k] == t.households[k]);
            }
        }
        assert(with_row.has_household(text));
        lemma_added_members_keep_wf(with_row, text, member_rows(h.members.take(n - 1)));
    }
}

/// Putting a row in the place of the rows of its identity, where the
/// identities are distinct, changes the one row that has it.
pub proof fn lemma_households_with(households: Seq<HouseholdRowView>, row: HouseholdRowView, k: int)
    requires
        0 <= k < households.len(),
        households[k].id == row.id,
        forall|i: int, j: int|
            0 <= i < j < households.len() ==> (#[trigger] households[i]).id != (
            #[trigger] households[j]).id,
    ensures
        households_with(households, row) == households.update(k, row),
{
    assert forall|i: int| 0 <= i < households.len() implies households_with(households, row)[i]
        == households.update(k, row)[i] by {
        if i != k && households[i].id == row.id {
            if i < k {
                assert(households[i].id != households[k].id);
            } else {
                assert(households[k].id != households[i].id);
            }
        }
    }
    assert(households_with(households, row) =~= households.update(k, row));
}

/// The store after the first `n` statements of the replacement by `h` of
/// the household at the row `k`: the row of `h` in its place, from the
/// second statement on none of the old members, and then the rows of the
/// first `n - 2` members of `h`. The invariants stand after each statement.
pub proof fn law_update_steps(t: Relations, h: HouseholdView, k: int, n: int)
    requires
        t.wf(),
        reads_back(h),
        0 <= k < t.households.len(),
        t.households[k].id == id_text(h.id.value),
        0 <= n <= update_statements(h).len(),
    ensures
        t.apply_all(update_statements(h).take(n)).wf(),
        n == 0 ==> t.apply_all(update_statements(h).take(n)) == t,
        n == 1 ==> t.apply_all(update_statements(h).take(n)) == (Relations {
            households: t.households.update(k, household_row(h)),
            members: t.members,
        }),
        n >= 2 ==> t.apply_all(update_statements(h).take(n)) == (Relations {
            households: t.households.update(k, household_row(h)),
            members: rows_not_under(t.members, id_text(h.id.value)) + stored_under(
                id_text(h.id.value),
                member_rows(h.members.take(n - 2)),
            ),
        }),
{
    let plan = update_statements(h);
    let text = id_text(h.id.value);
    let row = household_row(h);
    let update = StatementView::UpdateHousehold(row);
    let clear = StatementView::DeleteMembers(text);
    lemma_row_identity(h);
    lemma_households_with(t.households, row, k);
    let with_row = Relations { households: t.households.update(k, row), members: t.members };
    // the row in its place keeps the invariants
    assert forall|i: int, j: int| 0 <= i < j < with_row.households.len() implies (
    #[trigger] with_row.households[i]).id != (#[trigger] with_row.households[j]).id by {
        assert(with_row.households[i].id == t.households[i].id);
        assert(with_row.households[j].id == t.households[j].id);
    }
    assert forall|m: int| 0 <= m < with_row.members.len() implies with_row.has_household(
        (#[trigger] with_row.members[m]).household_id,
    ) by {
        let w = choose|w: int|
            0 <= w < t.households.len() && (#[trigger] t.households[w]).id
                == t.members[m].household_id;
        assert(with_row.households[w].id == t.households[w].id);
    }
    assert forall|i: int| 0 <= i < with_row.households.len() implies (id_from_text(
        (#[trigger] with_row.households[i]).id,
    ) matches Some(value) ==> id_text(value) == with_row.households[i].id) by {
        if i != k {
            assert(with_row.households[i] == t.households[i]);
        }
    }
    assert(with_row.households[k].id == text);
    assert(with_row.has_household(text));
    if n == 0 {
        assert(plan.take(0) =~= Seq::empty());
    } else if n == 1 {
        assert(plan.take(1) =~= seq![update]);
        lemma_apply_all_one(t, update);
    } else {
        let cleared = Relations { households: with_row.households, members: rows_not_under(t.members, text) };
        lemma_member_inserts_take(h.id, h.members, n - 2);
        assert(plan.take(n) =~= seq![update] + (seq![clear] + member_inserts(
            h.id,
            h.members.take(n - 2),
        )));
        lemma_apply_all_add(
            t,
            seq![update],
            seq![clear] + member_inserts(h.id, h.members.take(n - 2)),
        );
        lemma_apply_all_one(t, update);
        lemma_apply_all_add(with_row, seq![clear], member_inserts(h.id, h.members.take(n - 2)));
        lemma_apply_all_one(with_row, clear);
        assert(with_row.apply(clear) == cleared);
        lemma_apply_member_inserts(cleared, h.id, h.members.take(n - 2));
        // fewer members keep the invariants
        lemma_rows_not_under(t.members, text, text);
        assert forall|m: int| 0 <= m < cleared.members.len() implies cleared.has_household(
            (#[trigger] cleared.members[m]).household_id,
        ) by {
            let kept = cleared.members[m];
            assert(t.members.contains(kept));
            let at = choose|at: int| 0 <= at < t.members.len() && t.members[at] == kept;
            assert(with_row.has_household(with_row.members[at].household_id));
        }
        lemma_added_members_keep_wf(cleared, text, member_rows(h.members.take(n - 2)));
    }
}

/// A household that was replaced is listed as it was given: where the row
/// `k` of the store has the identity of `h`, the store after the statements
/// of the replacement holds the row of `h` in that place, the member rows
/// under the identity are those of the members of `h` and no others, a
/// listing reads `h` from the row, and the invariants stand.
pub proof fn law_update_then_listed(t: Relations, h: HouseholdView, k: int)
    requires
        t.wf(),
        reads_back(h),
        0 <= k < t.households.len(),
        t.households[k].id == id_text(h.id.value),
    ensures
        ({
            let after = t.apply_all(update_statements(h));
            &&& after.wf()
            &&& after.households == t.households.update(k, household_row(h))
            &&& after.members_of(id_text(h.id.value)) == member_rows(h.members)
            &&& after.read(k) == Ok::<HouseholdView, StorageError>(h)
        }),
{
    let plan = update_statements(h);
    let text = id_text(h.id.value);
    let rows = member_rows(h.members);
    law_update_steps(t, h, k, plan.len() as int);
    assert(plan.take(plan.len() as int) =~= plan);
    assert(h.members.take(h.members.len() as int) =~= h.members);
    lemma_row_identity(h);
    lemma_rows_not_under(t.members, text, text);
    lemma_rows_under_add(rows_not_under(t.members, text), stored_under(text, rows), text);
    lemma_rows_under_stored(text, rows, text);
    assert(rows_under(rows_not_under(t.members, text), text) + rows =~= rows);
}

/// Where no household of the store has the identity of `h`, the first
/// statement of its replacement changes nothing.
pub proof fn law_update_of_absent(t: Relations, h: HouseholdView)
    requires
        !t.has_household(id_text(h.id.value)),
    ensures
        t.apply_all(update_statements(h).take(1)) == t,
{
    let row = household_row(h);
    let update = StatementView::UpdateHousehold(row);
    assert(update_statements(h).take(1) =~= seq![update]);
    lemma_apply_all_one(t, update);
    assert forall|i: int| 0 <= i < t.households.len() implies households_with(t.households, row)[i]
        == t.households[i] by {
        if t.households[i].id == row.id {
            assert(t.has_household(id_text(h.id.value)));
        }
    }
    assert(households_with(t.households, row) =~= t.households);
}

/// Where a household of the store has the identity of `h`, the database
/// refuses the insertion of `h`, and nothing changes.
pub proof fn law_insert_of_present(t: Relations, h: HouseholdView)
    requires
        t.has_household(id_text(h.id.value)),
    ensures
        t.apply_all(insert_statements(h).take(1)) == t,
{
    let insert = StatementView::InsertHousehold(household_row(h));
    assert(insert_statements(h).take(1) =~= seq![insert]);
    lemma_apply_all_one(t, insert);
}

/// The store after the first `n` statements of the removal of a household:
/// first its members are gone, then its row. The invariants stand after
/// each statement.
pub proof fn law_delete_steps(t: Relations, id: HouseholdId, n: int)
    requires
        t.wf(),
        0 <= n <= 2,
    ensures
        t.apply_all(delete_statements(id).take(n)).wf(),
        n == 0 ==> t.apply_all(delete_statements(id).take(n)) == t,
        n == 1 ==> t.apply_all(delete_statements(id).take(n)) == (Relations {
            households: t.households,
            members: rows_not_under(t.members, id_text(id.value)),
        }),
        n == 2 ==> t.apply_all(delete_statements(id).take(n)) == (Relations {
            households: households_without(t.households, id_text(id.value)),
            members: rows_not_under(t.members, id_text(id.value)),
        }),
{
    let plan = delete_statements(id);
    let text = id_text(id.value);
    let clear = StatementView::DeleteMembers(text);
    let drop = StatementView::DeleteHousehold(text);
    let cleared = Relations { households: t.households, members: rows_not_under(t.members, text) };
    let gone = Relations {
        households: households_without(t.households, text),
        members: rows_not_under(t.members, text),
    };
    lemma_rows_not_under(t.members, text, text);
    lemma_households_without(t.households, text);
    assert forall|m: int| 0 <= m < cleared.members.len() implies cleared.has_household(
        (#[trigger] cleared.members[m]).household_id,
    ) && gone.has_household(cleared.members[m].household_id) by {
        let kept = cleared.members[m];
        assert(t.members.contains(kept));
        let at = choose|at: int| 0 <= at < t.members.len() && t.members[at] == kept;
        assert(t.has_household(t.members[at].household_id));
        let w = choose|w: int|
            0 <= w < t.households.len() && (#[trigger] t.households[w]).id == kept.household_id;
        assert(cleared.households[w].id == kept.household_id);
        assert(kept.household_id != text);
        assert(gone.households.contains(t.households[w]));
        let g = choose|g: int| 0 <= g < gone.households.len() && gone.households[g] == t.households[w];
        assert(gone.households[g].id == kept.household_id);
    }
    assert forall|i: int, j: int| 0 <= i < j < gone.households.len() implies (
    #[trigger] gone.households[i]).id != (#[trigger] gone.households[j]).id by {
        let (a, b) = choose|a: int, b: int|
            0 <= a < b < t.households.len() && t.households[a] == gone.households[i]
                && t.households[b] == gone.households[j];
        assert(t.households[a].id != t.households[b].id);
    }
    assert forall|i: int| 0 <= i < gone.households.len() implies (id_from_text(
        (#[trigger] gone.households[i]).id,
    ) matches Some(value) ==> id_text(value) == gone.households[i].id) by {
        assert(t.households.contains(gone.households[i]));
        let a = choose|a: int| 0 <= a < t.households.len() && t.households[a] == gone.households[i];
        assert(t.households[a].id == gone.households[i].id);
    }
    if n == 0 {
        assert(plan.take(0) =~= Seq::empty());
    } else if n == 1 {
        assert(plan.take(1) =~= seq![clear]);
        lemma_apply_all_one(t, clear);
    } else {
        assert(plan.take(2) =~= seq![clear] + seq![drop]);
        lemma_apply_all_add(t, seq![clear], seq![drop]);
        lemma_apply_all_one(t, clear);
        lemma_apply_all_one(cleared, drop);
    }
}

/// A household that was removed is gone with its members: after the
/// statements of the removal no household row has the identity, no member
/// row belongs to it, no listing reads a household of that identity, and
/// the invariants stand.
pub proof fn law_delete_then_gone(t: Relations, id: HouseholdId)
    requires
        t.wf(),
    ensures
        ({
            let after = t.apply_all(delete_statements(id));
            &&& after.wf()
            &&& !after.has_household(id_text(id.value))
            &&& forall|m: int|
                0 <= m < after.members.len() ==> (#[trigger] after.members[m]).household_id
                    != id_text(id.value)
            &&& forall|k: int|
                0 <= k < after.households.len() ==> (#[trigger] after.read(k) matches Ok(found)
                    ==> found.id != id)
        }),
{
    let plan = delete_statements(id);
    let text = id_text(id.value);
    law_delete_steps(t, id, 2);
    assert(plan.take(2) =~= plan);
    let after = t.apply_all(plan);
    lemma_rows_not_under(t.members, text, text);
    lemma_households_without(t.households, text);
    assert forall|k: int| 0 <= k < after.households.len() implies (#[trigger] after.read(
        k,
    ) matches Ok(found) ==> found.id != id) by {
        if let Ok(found) = after.read(k) {
            if found.id == id {
                assert(id_from_text(after.households[k].id) == Some(id.value));
                assert(after.households[k].id == text);
            }
        }
    }
}

/// Adding a member row adds, to the count of the member rows listed under
/// the households, one for each household of its identity.
pub proof fn lemma_listed_members_push(
    households: Seq<HouseholdRowView>,
    members: Seq<StoredMember>,
    member: StoredMember,
)
    ensures
        listed_members(households, members.push(member)) == listed_members(households, members)
            + households_with_id(households, member.household_id),
    decreases households.len(),
{
    if households.len() > 0 {
        lemma_listed_members_push(households.drop_last(), members, member);
        assert(members.push(member).drop_last() =~= members);
        assert(members.push(member).last() == member);
    }
}

/// Where the identities are distinct, an identity that is there is there
/// once.
pub proof fn lemma_one_household_with_id(households: Seq<HouseholdRowView>, id: Seq<char>)
    requires
        forall|i: int, j: int|
            0 <= i < j < households.len() ==> (#[trigger] households[i]).id != (
            #[trigger] households[j]).id,
    ensures
        households_with_id(households, id) <= 1,
        households_with_id(households, id) == 1 <==> exists|k: int|
            0 <= k < households.len() && (#[trigger] households[k]).id == id,
    decreases households.len(),
{
    if households.len() > 0 {
        let rest = households.drop_last();
        let last = households.len() - 1;
        assert forall|i: int, j: int| 0 <= i < j < rest.len() implies (#[trigger] rest[i]).id != (
        #[trigger] rest[j]).id by {
            assert(rest[i] == households[i]);
            assert(rest[j] == households[j]);
        }
        lemma_one_household_with_id(rest, id);
        if households.last().id == id {
            if exists|k: int| 0 <= k < rest.len() && (#[trigger] rest[k]).id == id {
                let k = choose|k: int| 0 <= k < rest.len() && (#[trigger] rest[k]).id == id;
                assert(households[k].id != households[last].id);
            }
            assert(households[last].id == id);
        } else {
            if exists|k: int| 0 <= k < households.len() && (#[trigger] households[k]).id == id {
                let k = choose|k: int|
                    0 <= k < households.len() && (#[trigger] households[k]).id == id;
                assert(rest[k].id == id);
            }
            if exists|k: int| 0 <= k < rest.len() && (#[trigger] rest[k]).id == id {
                let k = choose|k: int| 0 <= k < rest.len() && (#[trigger] rest[k]).id == id;
                assert(households[k].id == id);
            }
        }
    }
}

/// No member row is counted where there is none.
pub proof fn lemma_listed_members_none(households: Seq<HouseholdRowView>)
    ensures
        listed_members(households, Seq::empty()) == 0,
    decreases households.len(),
{
    if households.len() > 0 {
        lemma_listed_members_none(households.drop_last());
    }
}

/// The members of the store are the members of its households: where the
/// invariants stand, the number of member rows is the sum, over the
/// household rows, of the numbers of member rows of each.
pub proof fn law_member_count(t: Relations)
    requires
        t.wf(),
    ensures
        t.members.len() == listed_members(t.households, t.members),
    decreases t.members.len(),
{
    if t.members.len() == 0 {
        assert(t.members =~= Seq::empty());
        lemma_listed_members_none(t.households);
    } else {
        let rest = Relations { households: t.households, members: t.members.drop_last() };
        let last = t.members.last();
        assert forall|m: int| 0 <= m < rest.members.len() implies rest.has_household(
            (#[trigger] rest.members[m]).household_id,
        ) by {
            assert(rest.members[m] == t.members[m]);
            assert(t.has_household(t.members[m].household_id));
            let w = choose|w: int|
                0 <= w < t.households.len() && (#[trigger] t.households[w]).id
                    == t.members[m].household_id;
            assert(rest.households[w].id == rest.members[m].household_id);
        }
        law_member_count(rest);
        lemma_listed_members_push(t.households, rest.members, last);
        assert(rest.members.push(last) =~= t.members);
        lemma_one_household_with_id(t.households, last.household_id);
        assert(last == t.members[t.members.len() - 1]);
        assert(t.has_household(last.household_id));
    }
}

/// A store in which nothing was stored meets the invariants, and creating
/// the relations changes nothing.
pub proof fn law_empty_store()
    ensures
        Relations::empty().wf(),
        forall|t: Relations| #[trigger] t.apply_all(schema_statements()) == t,
{
    assert forall|t: Relations| #[trigger] t.apply_all(schema_statements()) == t by {
        let plan = schema_statements();
        assert(plan =~= seq![StatementView::CreateHouseholds] + seq![
            StatementView::CreateMembers,
        ]);
        lemma_apply_all_add(
            t,
            seq![StatementView::CreateHouseholds],
            seq![StatementView::CreateMembers],
        );
        lemma_apply_all_one(t, StatementView::CreateHouseholds);
        lemma_apply_all_one(t, StatementView::CreateMembers);
    }
}

} // verus!
