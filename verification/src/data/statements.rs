//! The statements through which the store is changed, the lists of them
//! that make up each operation, and the queries through which it is read.

use crate::data::models::{Household, HouseholdView, MemberView};
use crate::data::rows::{
    decode_members, household_row, member_row, member_rows, reads_back, HouseholdRow,
    HouseholdRowView, MemberRow, MemberRowView, StorageError,
};
use crate::identity::{id_text, HouseholdId};
use vstd::prelude::*;
use vstd::string::StringExecFns;

verus! {

/// One statement that changes the store.
#[derive(Debug)]
pub enum Statement {
    /// Creates the relation `households` unless it exists.
    CreateHouseholds,
    /// Creates the relation `members` unless it exists.
    CreateMembers,
    /// Adds a row to `households`.
    InsertHousehold(HouseholdRow),
    /// Overwrites the row of `households` that has the row's identity.
    UpdateHousehold(HouseholdRow),
    /// Removes the rows of `members` that belong to the household.
    DeleteMembers(String),
    /// Removes the row of `households` that has the identity.
    DeleteHousehold(String),
    /// Adds a row to `members` for the household of the given identity.
    InsertMember(String, MemberRow),
}

/// What a `Statement` stands for.
pub enum StatementView {
    CreateHouseholds,
    CreateMembers,
    InsertHousehold(HouseholdRowView),
    UpdateHousehold(HouseholdRowView),
    DeleteMembers(Seq<char>),
    DeleteHousehold(Seq<char>),
    InsertMember(Seq<char>, MemberRowView),
}

impl View for Statement {
    type V = StatementView;

    open spec fn view(&self) -> StatementView {
        match self {
            Statement::CreateHouseholds => StatementView::CreateHouseholds,
            Statement::CreateMembers => StatementView::CreateMembers,
            Statement::InsertHousehold(row) => StatementView::InsertHousehold(row@),
            Statement::UpdateHousehold(row) => StatementView::UpdateHousehold(row@),
            Statement::DeleteMembers(id) => StatementView::DeleteMembers(id@),
            Statement::DeleteHousehold(id) => StatementView::DeleteHousehold(id@),
            Statement::InsertMember(id, row) => StatementView::InsertMember(id@, row@),
        }
    }
}

/// The statements a sequence of `Statement` values stands for.
pub open spec fn statements_view(statements: Seq<Statement>) -> Seq<StatementView> {
    Seq::new(statements.len(), |i: int| statements[i]@)
}

/// The texts a sequence of `String` values stands for.
pub open spec fn texts_view(texts: Seq<String>) -> Seq<Seq<char>> {
    Seq::new(texts.len(), |i: int| texts[i]@)
}

impl StatementView {
    /// The SQL text of the statement, with `?1`, `?2`, ... for its values.
    pub open spec fn sql(self) -> Seq<char> {
        match self {
            StatementView::CreateHouseholds =>
                "CREATE TABLE IF NOT EXISTS households (id TEXT PRIMARY KEY, head_name TEXT NOT NULL, id_number TEXT NOT NULL, address TEXT NOT NULL, phone TEXT, household_type TEXT NOT NULL, registration_date TEXT NOT NULL)"@,
            StatementView::CreateMembers =>
                "CREATE TABLE IF NOT EXISTS members (id INTEGER PRIMARY KEY AUTOINCREMENT, household_id TEXT NOT NULL, name TEXT NOT NULL, id_number TEXT NOT NULL, relationship TEXT NOT NULL, birth_date TEXT NOT NULL, gender TEXT NOT NULL, education TEXT NOT NULL, occupation TEXT, FOREIGN KEY (household_id) REFERENCES households (id))"@,
            StatementView::InsertHousehold(_) =>
                "INSERT INTO households (id, head_name, id_number, address, phone, household_type, registration_date) VALUES (?1, ?2, ?3, ?4, ?5, ?6, ?7)"@,
            StatementView::UpdateHousehold(_) =>
                "UPDATE households SET head_name = ?1, id_number = ?2, address = ?3, phone = ?4, household_type = ?5, registration_date = ?6 WHERE id = ?7"@,
            StatementView::DeleteMembers(_) => "DELETE FROM members WHERE household_id = ?1"@,
            StatementView::DeleteHousehold(_) => "DELETE FROM households WHERE id = ?1"@,
            StatementView::InsertMember(_, _) =>
                "INSERT INTO members (household_id, name, id_number, relationship, birth_date, gender, education, occupation) VALUES (?1, ?2, ?3, ?4, ?5, ?6, ?7, ?8)"@,
        }
    }

    /// The values of the statement, in the order of `?1`, `?2`, ... in its
    /// SQL text.
    pub open spec fn params(self) -> Seq<Seq<char>> {
        match self {
            StatementView::CreateHouseholds => Seq::empty(),
            StatementView::CreateMembers => Seq::empty(),
            StatementView::InsertHousehold(row) => seq![
                row.id,
                row.head_name,
                row.id_number,
                row.address,
                row.phone,
                row.household_type,
                row.registration_date,
            ],
            StatementView::UpdateHousehold(row) => seq![
                row.head_name,
                row.id_number,
                row.address,
                row.phone,
                row.household_type,
                row.registration_date,
                row.id,
            ],
            StatementView::DeleteMembers(id) => seq![id],
            StatementView::DeleteHousehold(id) => seq![id],
            StatementView::InsertMember(id, row) => seq![
                id,
                row.name,
                row.id_number,
                row.relationship,
                row.birth_date,
                row.gender,
                row.education,
                row.occupation,
            ],
        }
    }
}

impl Statement {
    pub fn sql(&self) -> (r: &'static str)
        ensures
            r@ == self@.sql(),
    {
        match self {
            Statement::CreateHouseholds =>
                "CREATE TABLE IF NOT EXISTS households (id TEXT PRIMARY KEY, head_name TEXT NOT NULL, id_number TEXT NOT NULL, address TEXT NOT NULL, phone TEXT, household_type TEXT NOT NULL, registration_date TEXT NOT NULL)",
            Statement::CreateMembers =>
                "CREATE TABLE IF NOT EXISTS members (id INTEGER PRIMARY KEY AUTOINCREMENT, household_id TEXT NOT NULL, name TEXT NOT NULL, id_number TEXT NOT NULL, relationship TEXT NOT NULL, birth_date TEXT NOT NULL, gender TEXT NOT NULL, education TEXT NOT NULL, occupation TEXT, FOREIGN KEY (household_id) REFERENCES households (id))",
            Statement::InsertHousehold(_) =>
                "INSERT INTO households (id, head_name, id_number, address, phone, household_type, registration_date) VALUES (?1, ?2, ?3, ?4, ?5, ?6, ?7)",
            Statement::UpdateHousehold(_) =>
                "UPDATE households SET head_name = ?1, id_number = ?2, address = ?3, phone = ?4, household_type = ?5, registration_date = ?6 WHERE id = ?7",
            Statement::DeleteMembers(_) => "DELETE FROM members WHERE household_id = ?1",
            Statement::DeleteHousehold(_) => "DELETE FROM households WHERE id = ?1",
            Statement::InsertMember(_, _) =>
                "INSERT INTO members (household_id, name, id_number, relationship, birth_date, gender, education, occupation) VALUES (?1, ?2, ?3, ?4, ?5, ?6, ?7, ?8)",
        }
    }

    pub fn params(&self) -> (r: Vec<String>)
        ensures
            texts_view(r@) == self@.params(),
    {
        let mut out: Vec<String> = Vec::new();
        match self {
            Statement::CreateHouseholds => {},
            Statement::CreateMembers => {},
            Statement::InsertHousehold(row) => {
                out.push(row.id.clone());
                out.push(row.head_name.clone());
                out.push(row.id_number.clone());
                out.push(row.address.clone());
                out.push(row.phone.clone());
                out.push(row.household_type.clone());
                out.push(row.registration_date.clone());
            },
            Statement::UpdateHousehold(row) => {
                out.push(row.head_name.clone());
                out.push(row.id_number.clone());
                out.push(row.address.clone());
                out.push(row.phone.clone());
                out.push(row.household_type.clone());
                out.push(row.registration_date.clone());
                out.push(row.id.clone());
            },
            Statement::DeleteMembers(id) => {
                out.push(id.clone());
            },
            Statement::DeleteHousehold(id) => {
                out.push(id.clone());
            },
            Statement::InsertMember(id, row) => {
                out.push(id.clone());
                out.push(row.name.clone());
                out.push(row.id_number.clone());
                out.push(row.relationship.clone());
                out.push(row.birth_date.clone());
                out.push(row.gender.clone());
                out.push(row.education.clone());
                out.push(row.occupation.clone());
            },
        }
        assert(texts_view(out@) =~= self@.params());
        out
    }
}

/// One query that reads the store.
#[derive(Debug)]
pub enum Query {
    /// Every row of `households`, the latest registration first.
    AllHouseholds,
    /// The rows of `households` of which the head's name, the identity
    /// number, the address or the phone is like the pattern, the latest
    /// registration first.
    HouseholdsLike(String),
    /// The rows of `members` that belong to the household, in the order of
    /// their row numbers.
    MembersOf(String),
    /// The number of rows of `households`.
    CountHouseholds,
    /// The number of rows of `households` of the urban type.
    CountUrbanHouseholds,
    /// The number of rows of `members`.
    CountMembers,
}

/// What a `Query` stands for.
pub enum QueryView {
    AllHouseholds,
    HouseholdsLike(Seq<char>),
    MembersOf(Seq<char>),
    CountHouseholds,
    CountUrbanHouseholds,
    CountMembers,
}

impl View for Query {
    type V = QueryView;

    open spec fn view(&self) -> QueryView {
        match self {
            Query::AllHouseholds => QueryView::AllHouseholds,
            Query::HouseholdsLike(pattern) => QueryView::HouseholdsLike(pattern@),
            Query::MembersOf(id) => QueryView::MembersOf(id@),
            Query::CountHouseholds => QueryView::CountHouseholds,
            Query::CountUrbanHouseholds => QueryView::CountUrbanHouseholds,
            Query::CountMembers => QueryView::CountMembers,
        }
    }
}

impl QueryView {
    /// The SQL text of the query, with `?1` for its value.
    pub open spec fn sql(self) -> Seq<char> {
        match self {
            QueryView::AllHouseholds =>
                "SELECT id, head_name, id_number, address, phone, household_type, registration_date FROM households ORDER BY registration_date DESC"@,
            QueryView::HouseholdsLike(_) =>
                "SELECT id, head_name, id_number, address, phone, household_type, registration_date FROM households WHERE head_name LIKE ?1 OR id_number LIKE ?1 OR address LIKE ?1 OR phone LIKE ?1 ORDER BY registration_date DESC"@,
            QueryView::MembersOf(_) =>
                "SELECT name, id_number, relationship, birth_date, gender, education, occupation FROM members WHERE household_id = ?1 ORDER BY id"@,
            QueryView::CountHouseholds => "SELECT COUNT(*) FROM households"@,
            QueryView::CountUrbanHouseholds =>
                "SELECT COUNT(*) FROM households WHERE household_type = '城镇户口'"@,
            QueryView::CountMembers => "SELECT COUNT(*) FROM members"@,
        }
    }

    /// The values of the query: none, or the one for `?1`.
    pub open spec fn params(self) -> Seq<Seq<char>> {
        match self {
            QueryView::HouseholdsLike(pattern) => seq![pattern],
            QueryView::MembersOf(id) => seq![id],
            _ => Seq::empty(),
        }
    }
}

impl Query {
    pub fn sql(&self) -> (r: &'static str)
        ensures
            r@ == self@.sql(),
    {
        match self {
            Query::AllHouseholds =>
                "SELECT id, head_name, id_number, address, phone, household_type, registration_date FROM households ORDER BY registration_date DESC",
            Query::HouseholdsLike(_) =>
                "SELECT id, head_name, id_number, address, phone, household_type, registration_date FROM households WHERE head_name LIKE ?1 OR id_number LIKE ?1 OR address LIKE ?1 OR phone LIKE ?1 ORDER BY registration_date DESC",
            Query::MembersOf(_) =>
                "SELECT name, id_number, relationship, birth_date, gender, education, occupation FROM members WHERE household_id = ?1 ORDER BY id",
            Query::CountHouseholds => "SELECT COUNT(*) FROM households",
            Query::CountUrbanHouseholds =>
                "SELECT COUNT(*) FROM households WHERE household_type = '城镇户口'",
            Query::CountMembers => "SELECT COUNT(*) FROM members",
        }
    }

    pub fn params(&self) -> (r: Vec<String>)
        ensures
            texts_view(r@) == self@.params(),
    {
        let mut out: Vec<String> = Vec::new();
        match self {
            Query::HouseholdsLike(pattern) => {
                out.push(pattern.clone());
            },
            Query::MembersOf(id) => {
                out.push(id.clone());
            },
            _ => {},
        }
        assert(texts_view(out@) =~= self@.params());
        out
    }
}

/// The pattern under which the database looks for `query` anywhere in a
/// column.
pub open spec fn like_pattern(query: Seq<char>) -> Seq<char> {
    "%"@ + query + "%"@
}

/// The query that proposes the households in which `query` may occur.
pub fn search_query(query: &str) -> (r: Query)
    ensures
        r@ == QueryView::HouseholdsLike(like_pattern(query@)),
{
    Query::HouseholdsLike(String::from_str("%").concat(query).concat("%"))
}

/// The query for the members of the household `id`.
pub fn members_query(id: &HouseholdId) -> (r: Query)
    ensures
        r@ == QueryView::MembersOf(id_text(id.value)),
{
    Query::MembersOf(id.to_string())
}

/// The statements that create the two relations: `households` first.
pub open spec fn schema_statements() -> Seq<StatementView> {
    seq![StatementView::CreateHouseholds, StatementView::CreateMembers]
}

/// The statements that add the given members to the household `id`, one for
/// each member, in their order.
pub open spec fn member_inserts(id: HouseholdId, members: Seq<MemberView>) -> Seq<StatementView> {
    Seq::new(
        members.len(),
        |i: int| StatementView::InsertMember(id_text(id.value), member_row(members[i])),
    )
}

/// The statements that store a new household: its row, then its members.
pub open spec fn insert_statements(household: HouseholdView) -> Seq<StatementView> {
    seq![StatementView::InsertHousehold(household_row(household))] + member_inserts(
        household.id,
        household.members,
    )
}

/// The statements that replace a stored household: its row is overwritten,
/// its old members are removed, its new members are added.
pub open spec fn update_statements(household: HouseholdView) -> Seq<StatementView> {
    seq![
        StatementView::UpdateHousehold(household_row(household)),
        StatementView::DeleteMembers(id_text(household.id.value)),
    ] + member_inserts(household.id, household.members)
}

/// The statements that remove a household: its members first, then its row.
pub open spec fn delete_statements(id: HouseholdId) -> Seq<StatementView> {
    seq![
        StatementView::DeleteMembers(id_text(id.value)),
        StatementView::DeleteHousehold(id_text(id.value)),
    ]
}

/// Appends to `plan` the statements that add the members of `household`.
/// The rows that they write stand for these members again.
fn push_member_inserts(plan: &mut Vec<Statement>, household: &Household)
    ensures
        statements_view(final(plan)@) == statements_view(old(plan)@) + member_inserts(
            household.id,
            household@.members,
        ),
        decode_members(member_rows(household@.members)) == Ok::<Seq<MemberView>, StorageError>(
            household@.members,
        ),
{
    let ghost before = statements_view(plan@);
    let ghost all = member_inserts(household.id, household@.members);
    let ghost members = household@.members;
    let ghost rows = member_rows(household@.members);
    let mut i: usize = 0;
    assert(statements_view(plan@) =~= before + all.take(0));
    assert(rows.take(0) =~= Seq::empty());
    assert(members.take(0) =~= Seq::empty());
    while i < household.members.len()
        invariant
            i <= household.members.len(),
            all == member_inserts(household.id, household@.members),
            members == household@.members,
            rows == member_rows(members),
            all.len() == household.members.len(),
            statements_view(plan@) == before + all.take(i as int),
            decode_members(rows.take(i as int)) == Ok::<Seq<MemberView>, StorageError>(
                members.take(i as int),
            ),
        decreases household.members.len() - i,
    {
        let id = household.id.to_string();
        let row = MemberRow::encode(&household.members[i]);
        let ghost grown = statements_view(plan@);
        plan.push(Statement::InsertMember(id, row));
        proof {
            assert(members[i as int] == household.members[i as int]@);
            assert(statements_view(plan@) =~= grown.push(all[i as int]));
            assert(all.take(i + 1) =~= all.take(i as int).push(all[i as int]));
            assert(before + all.take(i + 1) =~= (before + all.take(i as int)).push(all[i as int]));
            assert(rows.take(i + 1).drop_last() =~= rows.take(i as int));
            assert(rows.take(i + 1).last() == member_row(members[i as int]));
            assert(members.take(i + 1) =~= members.take(i as int).push(members[i as int]));
        }
        i += 1;
    }
    assert(all.take(household.members.len() as int) =~= all);
    assert(rows.take(household.members.len() as int) =~= rows);
    assert(members.take(household.members.len() as int) =~= members);
}

/// The statements that create the two relations.
pub fn schema_plan() -> (r: Vec<Statement>)
    ensures
        statements_view(r@) == schema_statements(),
{
    let mut plan: Vec<Statement> = Vec::new();
    plan.push(Statement::CreateHouseholds);
    plan.push(Statement::CreateMembers);
    assert(statements_view(plan@) =~= schema_statements());
    plan
}

/// The statements that store `household` as a new household. The rows that
/// they write stand for `household` again.
pub fn insert_plan(household: &Household) -> (r: Vec<Statement>)
    ensures
        statements_view(r@) == insert_statements(household@),
        reads_back(household@),
{
    let mut plan: Vec<Statement> = Vec::new();
    plan.push(Statement::InsertHousehold(HouseholdRow::encode(household)));
    assert(statements_view(plan@) =~= seq![
        StatementView::InsertHousehold(household_row(household@)),
    ]);
    push_member_inserts(&mut plan, household);
    plan
}

/// The statements that replace the stored household of the same identity
/// by `household`. The rows that they write stand for `household` again.
pub fn update_plan(household: &Household) -> (r: Vec<Statement>)
    ensures
        statements_view(r@) == update_statements(household@),
        reads_back(household@),
{
    let mut plan: Vec<Statement> = Vec::new();
    plan.push(Statement::UpdateHousehold(HouseholdRow::encode(household)));
    plan.push(Statement::DeleteMembers(household.id.to_string()));
    assert(statements_view(plan@) =~= seq![
        StatementView::UpdateHousehold(household_row(household@)),
        StatementView::DeleteMembers(id_text(household.id.value)),
    ]);
    push_member_inserts(&mut plan, household);
    plan
}

/// The statements that remove the household `id` with its members.
pub fn delete_plan(id: &HouseholdId) -> (r: Vec<Statement>)
    ensures
        statements_view(r@) == delete_statements(*id),
{
    let mut plan: Vec<Statement> = Vec::new();
    plan.push(Statement::DeleteMembers(id.to_string()));
    plan.push(Statement::DeleteHousehold(id.to_string()));
    assert(statements_view(plan@) =~= delete_statements(*id));
    plan
}

} // verus!
