//! The store: a SQLite database that keeps the two relations.

use crate::data::answers::{
    asks_for_members, emptiness_read, grew, household_row_of, household_rows_of,
    households_read, listing_read, member_row_of, member_rows_of, members_read, rows_matching,
    issued_more, issued_since, ran, ran_if_changed, search_read, since, statistics_read,
    table_view, Answer, Effect, Exchange, Failure, Issue,
};
use crate::data::manager::HouseholdStatistics;
use crate::data::models::{
    households_view, members_view, Household, HouseholdView, Member, MemberView,
};
use crate::data::rows::{
    decode_household, decode_member_rows, household_rows_view, member_rows_view, reads_back,
    HouseholdRow, HouseholdRowView, MemberRow, StorageError,
};
use crate::data::statements::{
    delete_plan, delete_statements, insert_plan, insert_statements, members_query, schema_plan,
    schema_statements, search_query, statements_view, update_plan, update_statements, Query,
    QueryView, Statement,
};
use crate::identity::{id_text, HouseholdId};
use vstd::prelude::*;

verus! {

/// Declares `rusqlite::Connection`, a connection to a SQLite database, as
/// a type of which nothing is known.
#[verifier::external_type_specification]
#[verifier::external_body]
pub struct ExConnection(rusqlite::Connection);

/// Declares `rusqlite::Error`, the error of every call into `rusqlite`, as
/// a type of which nothing is known.
#[verifier::external_type_specification]
#[verifier::external_body]
pub struct ExSqliteError(rusqlite::Error);

/// The number of columns that the queries for rows select.
pub const ROW_WIDTH: usize = 7;

/// Calls `rusqlite::Connection::open`. Whether the database can be opened
/// depends on the file system, so the contract claims nothing.
#[verifier::external_body]
fn open_connection(path: &str) -> (r: Result<rusqlite::Connection, rusqlite::Error>) {
    rusqlite::Connection::open(path)
}

/// Calls `rusqlite::Connection::execute` with the values bound as text, in
/// their order. What the statement does is the database's affair: the
/// contract claims nothing of the outcome.
#[verifier::external_body]
fn execute(conn: &rusqlite::Connection, sql: &str, params: &Vec<String>) -> (r: Result<
    usize,
    rusqlite::Error,
>) {
    conn.execute(sql, rusqlite::params_from_iter(params.iter()))
}

/// Calls `rusqlite::Connection::prepare` and `Statement::query_map`, and
/// reads the first `width` columns of every row as text with `Row::get`.
/// Which rows come back is the database's affair: the contract claims only
/// that each row has `width` columns.
#[verifier::external_body]
fn query_rows(conn: &rusqlite::Connection, sql: &str, params: &Vec<String>, width: usize) -> (r:
    Result<Vec<Vec<String>>, rusqlite::Error>)
    ensures
        r matches Ok(rows) ==> forall|i: int| 0 <= i < rows.len() ==> (#[trigger] rows[i]).len()
            == width,
{
    let mut statement = conn.prepare(sql)?;
    let rows = statement.query_map(
        rusqlite::params_from_iter(params.iter()),
        |row| (0..width).map(|column| row.get::<usize, String>(column)).collect(),
    )?;
    rows.collect()
}

/// Calls `rusqlite::Connection::query_row` and reads the first column of the
/// first row as an integer. The contract claims nothing of the number.
#[verifier::external_body]
fn query_count(conn: &rusqlite::Connection, sql: &str) -> (r: Result<i64, rusqlite::Error>) {
    conn.query_row(sql, [], |row| row.get(0))
}

/// Calls `to_string` on a `rusqlite::Error`. The contract claims nothing of
/// the text.
#[verifier::external_body]
fn describe(error: &rusqlite::Error) -> (r: String) {
    error.to_string()
}

/// What a reading returned, as the households that it stands for.
pub open spec fn outcome_view(outcome: Result<Vec<Household>, StorageError>) -> Result<
    Seq<HouseholdView>,
    StorageError,
> {
    match outcome {
        Ok(households) => Ok(households_view(households@)),
        Err(e) => Err(e),
    }
}

/// Exchanges that grew twice grew, by the two growths in a row.
pub proof fn lemma_grew_twice(before: Seq<Exchange>, middle: Seq<Exchange>, after: Seq<Exchange>)
    requires
        grew(before, middle),
        grew(middle, after),
    ensures
        grew(before, after),
        since(before, after) == since(before, middle) + since(middle, after),
{
    assert(after.take(before.len() as int) =~= middle.take(before.len() as int));
    assert(since(before, after) =~= since(before, middle) + since(middle, after));
}

/// One more exchange is a growth by that exchange.
pub proof fn lemma_grew_by_one(before: Seq<Exchange>, exchange: Exchange)
    ensures
        grew(before, before.push(exchange)),
        since(before, before.push(exchange)) == seq![exchange],
{
    assert(before.push(exchange).take(before.len() as int) =~= before);
    assert(since(before, before.push(exchange)) =~= seq![exchange]);
}

/// The store. It remembers, for the proofs only, every statement that it
/// has handed to the database and every query that it has asked, with the
/// answer.
pub struct Database {
    conn: rusqlite::Connection,
    issued: Ghost<Seq<Issue>>,
    asked: Ghost<Seq<Exchange>>,
    location: Ghost<Seq<char>>,
}

impl Database {
    /// The statements handed to the database so far, each with what the
    /// database did, oldest first.
    pub closed spec fn issued(&self) -> Seq<Issue> {
        self.issued@
    }

    /// The place of the database that the store was opened at.
    pub closed spec fn location(&self) -> Seq<char> {
        self.location@
    }

    /// The queries that the database was asked so far, each with its
    /// answer, oldest first.
    pub closed spec fn asked(&self) -> Seq<Exchange> {
        self.asked@
    }

    /// Opens the database at `db_path`, creating it where there is none, and
    /// creates the two relations unless they exist. It fails where the
    /// database cannot be opened or refuses to create a relation.
    pub fn new(db_path: &str) -> (r: Result<Database, StorageError>)
        ensures
            match r {
                Ok(db) => {
                    &&& db.location() == db_path@
                    &&& ran(Seq::empty(), schema_statements(), db.issued(), Ok(()))
                    &&& db.asked().len() == 0
                },
                Err(e) => e is Backend,
            },
    {
        let conn = match open_connection(db_path) {
            Ok(conn) => conn,
            Err(e) => {
                return Err(StorageError::Backend(describe(&e)));
            },
        };
        let mut db = Database {
            conn,
            issued: Ghost(Seq::empty()),
            asked: Ghost(Seq::empty()),
            location: Ghost(db_path@),
        };
        match db.init_tables() {
            Ok(_) => Ok(db),
            Err(e) => Err(e),
        }
    }

    fn init_tables(&mut self) -> (r: Result<(), StorageError>)
        ensures
            ran(old(self).issued(), schema_statements(), final(self).issued(), r),
            final(self).asked() == old(self).asked(),
            final(self).location() == old(self).location(),
    {
        let plan = schema_plan();
        self.run_all(&plan)
    }

    /// Hands one statement to the database and returns the number of rows
    /// that the database says it changed.
    fn run(&mut self, statement: &Statement) -> (r: Result<usize, StorageError>)
        ensures
            final(self).issued().len() == old(self).issued().len() + 1,
            final(self).issued() == old(self).issued().push(final(self).issued().last()),
            final(self).issued().last().statement == statement@,
            match r {
                Ok(changed) => final(self).issued().last().effect == Effect::Changed(
                    changed as int,
                ),
                Err(e) => final(self).issued().last().effect == Effect::Refused && e is Backend,
            },
            final(self).asked() == old(self).asked(),
            final(self).location() == old(self).location(),
    {
        let params = statement.params();
        let outcome = execute(&self.conn, statement.sql(), &params);
        match outcome {
            Ok(changed) => {
                proof {
                    self.issued@ = self.issued@.push(
                        Issue { statement: statement@, effect: Effect::Changed(changed as int) },
                    );
                }
                Ok(changed)
            },
            Err(e) => {
                proof {
                    self.issued@ = self.issued@.push(
                        Issue { statement: statement@, effect: Effect::Refused },
                    );
                }
                Err(StorageError::Backend(describe(&e)))
            },
        }
    }

    /// Hands the statements of `plan` from the position `start` on to the
    /// database, in order, and stops at the first that it refuses.
    fn run_from(&mut self, plan: &Vec<Statement>, start: usize) -> (r: Result<(), StorageError>)
        requires
            start <= plan.len(),
        ensures
            ran(
                old(self).issued(),
                statements_view(plan@).skip(start as int),
                final(self).issued(),
                r,
            ),
            final(self).asked() == old(self).asked(),
            final(self).location() == old(self).location(),
    {
        let ghost before = self.issued();
        let ghost rest = statements_view(plan@).skip(start as int);
        let mut i: usize = start;
        proof {
            assert(self.issued().take(before.len() as int) =~= before);
        }
        while i < plan.len()
            invariant
                start <= i <= plan.len(),
                rest == statements_view(plan@).skip(start as int),
                before == old(self).issued(),
                issued_more(before, self.issued()),
                issued_since(before, self.issued()).len() == i - start,
                forall|j: int|
                    0 <= j < i - start ==> {
                        &&& (#[trigger] issued_since(before, self.issued())[j]).statement
                            == rest[j]
                        &&& issued_since(before, self.issued())[j].effect is Changed
                    },
                self.asked() == old(self).asked(),
                self.location() == old(self).location(),
            decreases plan.len() - i,
        {
            let ghost so_far = self.issued();
            let ghost tail = issued_since(before, so_far);
            let outcome = self.run(&plan[i]);
            proof {
                let longer = issued_since(before, self.issued());
                assert(self.issued().take(before.len() as int) =~= so_far.take(
                    before.len() as int,
                ));
                assert(longer =~= tail.push(self.issued().last()));
                assert forall|j: int| 0 <= j < i - start implies longer[j] == tail[j] by {}
                assert(rest[i - start] == plan[i as int]@);
            }
            match outcome {
                Ok(_) => {},
                Err(e) => {
                    return Err(e);
                },
            }
            i += 1;
        }
        proof {
            let tail = issued_since(before, self.issued());
            if tail.len() > 0 {
                assert(tail.last() == tail[tail.len() - 1]);
            }
        }
        Ok(())
    }

    /// Hands the statements of `plan` to the database, in order, and stops
    /// at the first that it refuses.
    fn run_all(&mut self, plan: &Vec<Statement>) -> (r: Result<(), StorageError>)
        ensures
            ran(old(self).issued(), statements_view(plan@), final(self).issued(), r),
            final(self).asked() == old(self).asked(),
            final(self).location() == old(self).location(),
    {
        assert(statements_view(plan@).skip(0) =~= statements_view(plan@));
        self.run_from(plan, 0)
    }

    /// Tells whether the store holds no household: whether the database
    /// answers 0 to the query for the number of households.
    pub fn is_empty(&mut self) -> (r: Result<bool, StorageError>)
        ensures
            final(self).issued() == old(self).issued(),
            final(self).location() == old(self).location(),
            grew(old(self).asked(), final(self).asked()),
            emptiness_read(since(old(self).asked(), final(self).asked()), r),
    {
        let ghost before = self.asked();
        let outcome = self.ask_count(&Query::CountHouseholds);
        proof {
            lemma_grew_by_one(before, self.asked().last());
            assert(self.asked() =~= before.push(self.asked().last()));
        }
        match outcome {
            Ok(count) => Ok(count == 0),
            Err(e) => Err(e),
        }
    }

    /// Stores `household` as a new household: its row, then a row for each
    /// member, in their order. It stops at the first statement that the
    /// database refuses and returns its report; what was written before
    /// stays written. It fails only so.
    pub fn insert_household(&mut self, household: &Household) -> (r: Result<(), StorageError>)
        ensures
            ran(old(self).issued(), insert_statements(household@), final(self).issued(), r),
            reads_back(household@),
            final(self).asked() == old(self).asked(),
            final(self).location() == old(self).location(),
    {
        let plan = insert_plan(household);
        self.run_all(&plan)
    }

    /// Replaces the stored household that has the identity of `household`:
    /// overwrites its row, removes its members, then adds the new members.
    /// Where the database tells that the first statement changed no row,
    /// there is no such household: nothing more is issued, and the
    /// replacement succeeds. It fails only where the database refuses a
    /// statement, with its report.
    pub fn update_household(&mut self, household: &Household) -> (r: Result<(), StorageError>)
        ensures
            ran_if_changed(
                old(self).issued(),
                update_statements(household@),
                final(self).issued(),
                r,
            ),
            reads_back(household@),
            final(self).asked() == old(self).asked(),
            final(self).location() == old(self).location(),
    {
        let plan = update_plan(household);
        let ghost before = self.issued();
        let ghost all = statements_view(plan@);
        assert(all.len() == plan.len());
        assert(update_statements(household@).len() >= 2);
        let first = self.run(&plan[0]);
        let ghost middle = self.issued();
        proof {
            assert(middle.take(before.len() as int) =~= before);
            assert(issued_since(before, middle) =~= seq![middle.last()]);
        }
        let changed = match first {
            Ok(changed) => changed,
            Err(e) => {
                return Err(e);
            },
        };
        if changed == 0 {
            return Ok(());
        }
        let outcome = self.run_from(&plan, 1);
        proof {
            let tail = issued_since(before, self.issued());
            let rest = issued_since(middle, self.issued());
            assert(self.issued().take(before.len() as int) =~= middle.take(
                before.len() as int,
            ));
            assert(tail =~= seq![middle.last()] + rest);
            assert forall|i: int| 0 <= i < tail.len() implies (#[trigger] tail[i]).statement
                == all[i] by {
                if i > 0 {
                    assert(tail[i] == rest[i - 1]);
                    assert(all.skip(1)[i - 1] == all[i]);
                }
            }
            assert forall|i: int| 0 <= i < tail.len() - 1 implies (#[trigger] tail[i]).effect
                is Changed by {
                if i > 0 {
                    assert(tail[i] == rest[i - 1]);
                }
            }
            if rest.len() > 0 {
                assert(tail.last() == rest.last());
            }
        }
        outcome
    }

    /// Removes the household `household_id`: its members first, then its
    /// row. Where there is no such household both statements touch nothing.
    /// It fails only where the database refuses a statement, with its
    /// report.
    pub fn delete_household(&mut self, household_id: &HouseholdId) -> (r: Result<
        (),
        StorageError,
    >)
        ensures
            ran(old(self).issued(), delete_statements(*household_id), final(self).issued(), r),
            final(self).asked() == old(self).asked(),
            final(self).location() == old(self).location(),
    {
        let plan = delete_plan(household_id);
        self.run_all(&plan)
    }

    /// Every household of the store with its members, in the order in which
    /// the database returns the rows when asked for the latest registration
    /// first: the households that the rows stand for, each with the members
    /// that the database returns for its identity.
    pub fn get_all_households(&mut self) -> (r: Result<Vec<Household>, StorageError>)
        ensures
            final(self).issued() == old(self).issued(),
            final(self).location() == old(self).location(),
            grew(old(self).asked(), final(self).asked()),
            listing_read(since(old(self).asked(), final(self).asked()), outcome_view(r)),
    {
        let ghost before = self.asked();
        let rows = match self.household_rows(&Query::AllHouseholds) {
            Ok(rows) => rows,
            Err(e) => {
                proof {
                    lemma_grew_by_one(before, self.asked().last());
                    assert(self.asked() =~= before.push(self.asked().last()));
                }
                return Err(e);
            },
        };
        let ghost middle = self.asked();
        let outcome = self.assemble(&rows);
        proof {
            lemma_grew_by_one(before, middle.last());
            assert(middle =~= before.push(middle.last()));
            lemma_grew_twice(before, middle, self.asked());
            let tail = since(before, self.asked());
            assert(tail[0] == middle.last());
            assert(tail.skip(1) =~= since(middle, self.asked()));
        }
        outcome
    }

    /// The households in which `query` occurs, compared exactly, in the
    /// head's name, the identity number, the address or the phone: the
    /// database proposes rows for the pattern `%query%`, and of those the
    /// rows in which `query` does occur are read, in the database's order.
    pub fn search_households(&mut self, query: &str) -> (r: Result<Vec<Household>, StorageError>)
        ensures
            final(self).issued() == old(self).issued(),
            final(self).location() == old(self).location(),
            grew(old(self).asked(), final(self).asked()),
            search_read(query@, since(old(self).asked(), final(self).asked()), outcome_view(r)),
    {
        let ghost before = self.asked();
        let proposed = match self.household_rows(&search_query(query)) {
            Ok(rows) => rows,
            Err(e) => {
                proof {
                    lemma_grew_by_one(before, self.asked().last());
                    assert(self.asked() =~= before.push(self.asked().last()));
                }
                return Err(e);
            },
        };
        let ghost middle = self.asked();
        let rows = matching_rows(&proposed, query);
        let outcome = self.assemble(&rows);
        proof {
            lemma_grew_by_one(before, middle.last());
            assert(middle =~= before.push(middle.last()));
            lemma_grew_twice(before, middle, self.asked());
            let tail = since(before, self.asked());
            assert(tail[0] == middle.last());
            assert(tail.skip(1) =~= since(middle, self.asked()));
        }
        outcome
    }

    /// The counts of the store: the numbers that the database answers to
    /// the queries for the households, the urban households and the
    /// members. The rural households are the households that are not urban.
    pub fn get_statistics(&mut self) -> (r: Result<HouseholdStatistics, StorageError>)
        ensures
            final(self).issued() == old(self).issued(),
            final(self).location() == old(self).location(),
            grew(old(self).asked(), final(self).asked()),
            statistics_read(since(old(self).asked(), final(self).asked()), r),
            r matches Ok(statistics) ==> statistics.urban_households
                + statistics.rural_households == statistics.total_households,
    {
        let ghost before = self.asked();
        let total = match self.ask_count(&Query::CountHouseholds) {
            Ok(count) => count,
            Err(e) => {
                proof {
                    lemma_grew_by_one(before, self.asked().last());
                    assert(self.asked() =~= before.push(self.asked().last()));
                }
                return Err(e);
            },
        };
        let ghost first = self.asked().last();
        let urban = match self.ask_count(&Query::CountUrbanHouseholds) {
            Ok(count) => count,
            Err(e) => {
                proof {
                    let second = self.asked().last();
                    assert(self.asked() =~= before + seq![first, second]);
                    assert(since(before, self.asked()) =~= seq![first, second]);
                    assert(self.asked().take(before.len() as int) =~= before);
                }
                return Err(e);
            },
        };
        let ghost second = self.asked().last();
        let outcome = self.ask_count(&Query::CountMembers);
        proof {
            let third = self.asked().last();
            assert(self.asked() =~= before + seq![first, second, third]);
            assert(since(before, self.asked()) =~= seq![first, second, third]);
            assert(self.asked().take(before.len() as int) =~= before);
        }
        let members = match outcome {
            Ok(count) => count,
            Err(e) => {
                return Err(e);
            },
        };
        match HouseholdStatistics::from_counts(total, urban, members) {
            Some(statistics) => Ok(statistics),
            None => Err(StorageError::InconsistentCounts),
        }
    }

    /// Asks the database for a number.
    fn ask_count(&mut self, query: &Query) -> (r: Result<i64, StorageError>)
        ensures
            final(self).issued() == old(self).issued(),
            final(self).location() == old(self).location(),
            final(self).asked().len() == old(self).asked().len() + 1,
            final(self).asked() == old(self).asked().push(final(self).asked().last()),
            final(self).asked().last().query == query@,
            match r {
                Ok(count) => final(self).asked().last().answer == Answer::Count(count as int),
                Err(e) => final(self).asked().last().answer == Answer::Refused && e is Backend,
            },
    {
        let outcome = query_count(&self.conn, query.sql());
        match outcome {
            Ok(count) => {
                proof {
                    self.asked@ = self.asked@.push(
                        Exchange { query: query@, answer: Answer::Count(count as int) },
                    );
                }
                Ok(count)
            },
            Err(e) => {
                proof {
                    self.asked@ = self.asked@.push(
                        Exchange { query: query@, answer: Answer::Refused },
                    );
                }
                Err(StorageError::Backend(describe(&e)))
            },
        }
    }

    /// Asks the database for rows of text.
    fn ask_rows(&mut self, query: &Query) -> (r: Result<Vec<Vec<String>>, StorageError>)
        ensures
            final(self).issued() == old(self).issued(),
            final(self).location() == old(self).location(),
            final(self).asked().len() == old(self).asked().len() + 1,
            final(self).asked() == old(self).asked().push(final(self).asked().last()),
            final(self).asked().last().query == query@,
            match r {
                Ok(rows) => {
                    &&& final(self).asked().last().answer == Answer::Rows(table_view(rows@))
                    &&& forall|i: int|
                        0 <= i < rows.len() ==> (#[trigger] rows[i]).len() == ROW_WIDTH
                },
                Err(e) => final(self).asked().last().answer == Answer::Refused && e is Backend,
            },
    {
        let params = query.params();
        let outcome = query_rows(&self.conn, query.sql(), &params, ROW_WIDTH);
        match outcome {
            Ok(rows) => {
                proof {
                    self.asked@ = self.asked@.push(
                        Exchange { query: query@, answer: Answer::Rows(table_view(rows@)) },
                    );
                }
                Ok(rows)
            },
            Err(e) => {
                proof {
                    self.asked@ = self.asked@.push(
                        Exchange { query: query@, answer: Answer::Refused },
                    );
                }
                Err(StorageError::Backend(describe(&e)))
            },
        }
    }

    /// Asks the database for household rows.
    fn household_rows(&mut self, query: &Query) -> (r: Result<Vec<HouseholdRow>, StorageError>)
        ensures
            final(self).issued() == old(self).issued(),
            final(self).location() == old(self).location(),
            final(self).asked().len() == old(self).asked().len() + 1,
            final(self).asked() == old(self).asked().push(final(self).asked().last()),
            final(self).asked().last().query == query@,
            match r {
                Ok(rows) => {
                    &&& final(self).asked().last().answer is Rows
                    &&& household_rows_view(rows@) == household_rows_of(
                        final(self).asked().last().answer->Rows_0,
                    )
                },
                Err(e) => final(self).asked().last().answer == Answer::Refused && e is Backend,
            },
    {
        let raw = self.ask_rows(query)?;
        let ghost table = table_view(raw@);
        let mut rows: Vec<HouseholdRow> = Vec::new();
        let mut i: usize = 0;
        while i < raw.len()
            invariant
                i <= raw.len(),
                rows.len() == i,
                table == table_view(raw@),
                forall|j: int| 0 <= j < raw.len() ==> (#[trigger] raw[j]).len() == ROW_WIDTH,
                forall|j: int| 0 <= j < i ==> (#[trigger] rows[j])@ == household_row_of(table[j]),
            decreases raw.len() - i,
        {
            let columns = &raw[i];
            rows.push(
                HouseholdRow {
                    id: columns[0].clone(),
                    head_name: columns[1].clone(),
                    id_number: columns[2].clone(),
                    address: columns[3].clone(),
                    phone: columns[4].clone(),
                    household_type: columns[5].clone(),
                    registration_date: columns[6].clone(),
                },
            );
            i += 1;
        }
        assert(household_rows_view(rows@) =~= household_rows_of(table));
        Ok(rows)
    }

    /// Asks the database for the member rows of one household, in the order
    /// of their row numbers, and decodes them.
    fn get_members_by_household_id(&mut self, household_id: &HouseholdId) -> (r: Result<
        Vec<Member>,
        StorageError,
    >)
        ensures
            final(self).issued() == old(self).issued(),
            final(self).location() == old(self).location(),
            final(self).asked().len() == old(self).asked().len() + 1,
            final(self).asked() == old(self).asked().push(final(self).asked().last()),
            final(self).asked().last().query == QueryView::MembersOf(
                id_text(household_id.value),
            ),
            match r {
                Ok(members) => members_read(final(self).asked().last().answer) == Ok::<
                    Seq<MemberView>,
                    Failure,
                >(members_view(members@)),
                Err(e) => members_read(final(self).asked().last().answer) is Err && e.tells(
                    members_read(final(self).asked().last().answer)->Err_0,
                ),
            },
    {
        let raw = self.ask_rows(&members_query(household_id))?;
        let ghost table = table_view(raw@);
        let mut rows: Vec<MemberRow> = Vec::new();
        let mut i: usize = 0;
        while i < raw.len()
            invariant
                i <= raw.len(),
                rows.len() == i,
                table == table_view(raw@),
                forall|j: int| 0 <= j < raw.len() ==> (#[trigger] raw[j]).len() == ROW_WIDTH,
                forall|j: int| 0 <= j < i ==> (#[trigger] rows[j])@ == member_row_of(table[j]),
            decreases raw.len() - i,
        {
            let columns = &raw[i];
            rows.push(
                MemberRow {
                    name: columns[0].clone(),
                    id_number: columns[1].clone(),
                    relationship: columns[2].clone(),
                    birth_date: columns[3].clone(),
                    gender: columns[4].clone(),
                    education: columns[5].clone(),
                    occupation: columns[6].clone(),
                },
            );
            i += 1;
        }
        assert(member_rows_view(rows@) =~= member_rows_of(table));
        decode_member_rows(&rows)
    }

    /// Reads the households of `rows`: decodes each row and asks for its
    /// members, row by row; the first error ends it.
    fn assemble(&mut self, rows: &Vec<HouseholdRow>) -> (r: Result<Vec<Household>, StorageError>)
        ensures
            final(self).issued() == old(self).issued(),
            final(self).location() == old(self).location(),
            grew(old(self).asked(), final(self).asked()),
            households_read(
                household_rows_view(rows@),
                since(old(self).asked(), final(self).asked()),
                outcome_view(r),
            ),
    {
        let ghost before = self.asked();
        let ghost all = household_rows_view(rows@);
        let mut out: Vec<Household> = Vec::new();
        let mut i: usize = 0;
        proof {
            assert(self.asked().take(before.len() as int) =~= before);
        }
        while i < rows.len()
            invariant
                i <= rows.len(),
                out.len() == i,
                before == old(self).asked(),
                all == household_rows_view(rows@),
                self.issued() == old(self).issued(),
                self.location() == old(self).location(),
                grew(before, self.asked()),
                since(before, self.asked()).len() == i,
                forall|j: int|
                    0 <= j < i ==> {
                        &&& asks_for_members(all[j], #[trigger] since(before, self.asked())[j])
                        &&& members_read(since(before, self.asked())[j].answer) is Ok
                        &&& decode_household(
                            all[j],
                            members_read(since(before, self.asked())[j].answer)->Ok_0,
                        ) == Ok::<HouseholdView, StorageError>(out[j]@)
                    },
            decreases rows.len() - i,
        {
            let ghost so_far = self.asked();
            let ghost tail = since(before, so_far);
            assert(all[i as int] == rows[i as int]@);
            let mut household = match rows[i].decode(Vec::new()) {
                Ok(shell) => shell,
                Err(e) => {
                    proof {
                        assert(members_view(Seq::<Member>::empty()) =~= Seq::empty());
                        if tail.len() > 0 {
                            assert(members_read(tail[tail.len() - 1].answer) is Ok);
                        }
                    }
                    return Err(e);
                },
            };
            proof {
                assert(members_view(Seq::<Member>::empty()) =~= Seq::empty());
            }
            let fetched = self.get_members_by_household_id(&household.id);
            proof {
                let exchange = self.asked().last();
                lemma_grew_by_one(so_far, exchange);
                lemma_grew_twice(before, so_far, self.asked());
                let longer = since(before, self.asked());
                assert(longer =~= tail.push(exchange));
                assert forall|j: int| 0 <= j < i implies longer[j] == tail[j] by {}
                assert(asks_for_members(all[i as int], longer[i as int]));
            }
            let members = match fetched {
                Ok(members) => members,
                Err(e) => {
                    return Err(e);
                },
            };
            household.members = members;
            out.push(household);
            i += 1;
        }
        proof {
            assert(households_view(out@).len() == all.len());
            assert forall|j: int| 0 <= j < all.len() implies {
                &&& members_read(since(before, self.asked())[j].answer) is Ok
                &&& decode_household(
                    all[j],
                    members_read(since(before, self.asked())[j].answer)->Ok_0,
                ) == Ok::<HouseholdView, StorageError>(#[trigger] households_view(out@)[j])
            } by {
                assert(households_view(out@)[j] == out[j]@);
            }
        }
        Ok(out)
    }
}

/// Keeps the rows in which `query` occurs in one of the searched fields.
pub fn matching_rows(rows: &Vec<HouseholdRow>, query: &str) -> (r: Vec<HouseholdRow>)
    ensures
        household_rows_view(r@) == rows_matching(household_rows_view(rows@), query@),
{
    let ghost all = household_rows_view(rows@);
    let ghost keep = |row: HouseholdRowView| row.matches(query@);
    let mut out: Vec<HouseholdRow> = Vec::new();
    let mut i: usize = 0;
    assert(all.take(0) =~= Seq::empty());
    assert(household_rows_view(out@) =~= Seq::empty());
    proof {
        reveal(Seq::filter);
    }
    assert(Seq::<HouseholdRowView>::empty().filter(keep) =~= Seq::empty());
    while i < rows.len()
        invariant
            i <= rows.len(),
            all == household_rows_view(rows@),
            keep == |row: HouseholdRowView| row.matches(query@),
            household_rows_view(out@) == all.take(i as int).filter(keep),
        decreases rows.len() - i,
    {
        let ghost before = household_rows_view(out@);
        proof {
            reveal(Seq::filter);
            assert(all.take(i + 1).drop_last() =~= all.take(i as int));
            assert(all.take(i + 1).last() == rows[i as int]@);
        }
        if rows[i].matches(query) {
            out.push(rows[i].clone_row());
            assert(household_rows_view(out@) =~= before.push(rows[i as int]@));
        }
        i += 1;
    }
    assert(all.take(rows.len() as int) =~= all);
    out
}

} // verus!
