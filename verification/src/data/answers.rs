//! What the database answers to the queries, and what the store makes of
//! the answers.

use crate::data::manager::HouseholdStatistics;
use crate::data::models::{HouseholdView, MemberView};
use crate::data::rows::{
    decode_household, decode_members, HouseholdRowView, MemberRowView, StorageError,
};
use crate::data::statements::{like_pattern, texts_view, QueryView, StatementView};
use crate::identity::id_text;
use vstd::prelude::*;

verus! {

/// What the database did with a statement.
pub enum Effect {
    /// It ran the statement, and tells that so many rows were changed.
    Changed(int),
    /// It reported an error, and changed nothing.
    Refused,
}

/// A statement that was handed to the database, with what it did.
pub struct Issue {
    pub statement: StatementView,
    pub effect: Effect,
}

/// Whether `outcome` is what handing the statements of `plan` to the
/// database, in order, gave, where `issued` is what was handed over and
/// what the database did: the run ends with the first statement that the
/// database refuses, and fails exactly then, with the database's report;
/// else every statement was handed over.
pub open spec fn plan_run(
    plan: Seq<StatementView>,
    issued: Seq<Issue>,
    outcome: Result<(), StorageError>,
) -> bool {
    &&& issued.len() <= plan.len()
    &&& forall|i: int| 0 <= i < issued.len() ==> (#[trigger] issued[i]).statement == plan[i]
    &&& forall|i: int| 0 <= i < issued.len() - 1 ==> (#[trigger] issued[i]).effect is Changed
    &&& match outcome {
        Ok(_) => issued.len() == plan.len() && (issued.len() > 0 ==> issued.last().effect
            is Changed),
        Err(e) => issued.len() > 0 && issued.last().effect is Refused && e is Backend,
    }
}

/// As `plan_run`, for a plan whose first statement finds out whether there
/// is anything to change: where the database tells that the first
/// statement changed no row, the run ends there and succeeds.
pub open spec fn plan_run_if_changed(
    plan: Seq<StatementView>,
    issued: Seq<Issue>,
    outcome: Result<(), StorageError>,
) -> bool {
    &&& 0 < issued.len() <= plan.len()
    &&& forall|i: int| 0 <= i < issued.len() ==> (#[trigger] issued[i]).statement == plan[i]
    &&& forall|i: int| 0 <= i < issued.len() - 1 ==> (#[trigger] issued[i]).effect is Changed
    &&& issued.len() > 1 ==> issued[0].effect != Effect::Changed(0)
    &&& match outcome {
        Ok(_) => issued.last().effect is Changed && if issued[0].effect == Effect::Changed(0) {
            issued.len() == 1
        } else {
            issued.len() == plan.len()
        },
        Err(e) => issued.last().effect is Refused && e is Backend,
    }
}

/// Whether `after` is `before` with further statements behind it.
pub open spec fn issued_more(before: Seq<Issue>, after: Seq<Issue>) -> bool {
    before.len() <= after.len() && after.take(before.len() as int) == before
}

/// The statements of `after` that are behind those of `before`.
pub open spec fn issued_since(before: Seq<Issue>, after: Seq<Issue>) -> Seq<Issue> {
    after.skip(before.len() as int)
}

/// Whether the plan was run between `before` and `after`, with `outcome`.
pub open spec fn ran(
    before: Seq<Issue>,
    plan: Seq<StatementView>,
    after: Seq<Issue>,
    outcome: Result<(), StorageError>,
) -> bool {
    issued_more(before, after) && plan_run(plan, issued_since(before, after), outcome)
}

/// Whether the plan of a replacement was run between `before` and `after`,
/// with `outcome`.
pub open spec fn ran_if_changed(
    before: Seq<Issue>,
    plan: Seq<StatementView>,
    after: Seq<Issue>,
    outcome: Result<(), StorageError>,
) -> bool {
    issued_more(before, after) && plan_run_if_changed(
        plan,
        issued_since(before, after),
        outcome,
    )
}

/// A run that failed within the first of two plans failed within the two
/// in a row.
pub proof fn lemma_ran_first(
    before: Seq<Issue>,
    plan1: Seq<StatementView>,
    plan2: Seq<StatementView>,
    after: Seq<Issue>,
    outcome: Result<(), StorageError>,
)
    requires
        ran(before, plan1, after, outcome),
        outcome is Err,
    ensures
        ran(before, plan1 + plan2, after, outcome),
{
}

/// A run of a second plan behind a completed first is a run of the two in
/// a row.
pub proof fn lemma_ran_second(
    before: Seq<Issue>,
    plan1: Seq<StatementView>,
    plan2: Seq<StatementView>,
    middle: Seq<Issue>,
    after: Seq<Issue>,
    outcome: Result<(), StorageError>,
)
    requires
        ran(before, plan1, middle, Ok(())),
        ran(middle, plan2, after, outcome),
    ensures
        ran(before, plan1 + plan2, after, outcome),
{
    let first = issued_since(before, middle);
    let second = issued_since(middle, after);
    let both = issued_since(before, after);
    assert(after.take(before.len() as int) =~= middle.take(before.len() as int));
    assert(both =~= first + second);
    assert forall|i: int| 0 <= i < both.len() implies (#[trigger] both[i]).statement == (plan1
        + plan2)[i] by {
        if i < first.len() {
            assert(both[i] == first[i]);
        } else {
            assert(both[i] == second[i - first.len()]);
        }
    }
    assert forall|i: int| 0 <= i < both.len() - 1 implies (#[trigger] both[i]).effect
        is Changed by {
        if i < first.len() {
            assert(both[i] == first[i]);
            if i == first.len() - 1 {
                assert(first.last() == first[i]);
            }
        } else {
            assert(both[i] == second[i - first.len()]);
        }
    }
    if second.len() > 0 {
        assert(both.last() == second.last());
    } else if first.len() > 0 {
        assert(both.last() == first.last());
    }
}

/// What the database gave back for a query.
pub enum Answer {
    /// Rows, each as its columns of text.
    Rows(Seq<Seq<Seq<char>>>),
    /// A number.
    Count(int),
    /// Nothing: it reported an error.
    Refused,
}

/// A query that the database was asked, with its answer.
pub struct Exchange {
    pub query: QueryView,
    pub answer: Answer,
}

/// Why nothing could be made of an answer.
pub enum Failure {
    /// The database reported an error.
    Refused,
    /// A row cannot be decoded, for the reason given.
    Undecodable(StorageError),
}

impl StorageError {
    /// Whether the error is the one that tells of `failure`: a report of
    /// the database for a query that it refused, else the reason itself.
    pub open spec fn tells(self, failure: Failure) -> bool {
        match failure {
            Failure::Refused => self is Backend,
            Failure::Undecodable(reason) => self == reason,
        }
    }
}

/// Whether `after` is `before` with further exchanges behind it.
pub open spec fn grew(before: Seq<Exchange>, after: Seq<Exchange>) -> bool {
    before.len() <= after.len() && after.take(before.len() as int) == before
}

/// The exchanges of `after` that are behind those of `before`.
pub open spec fn since(before: Seq<Exchange>, after: Seq<Exchange>) -> Seq<Exchange> {
    after.skip(before.len() as int)
}

/// The rows that a sequence of rows of `String` columns stands for.
pub open spec fn table_view(rows: Seq<Vec<String>>) -> Seq<Seq<Seq<char>>> {
    Seq::new(rows.len(), |i: int| texts_view(rows[i]@))
}

/// The household row of seven columns, in the order of the queries.
pub open spec fn household_row_of(columns: Seq<Seq<char>>) -> HouseholdRowView {
    HouseholdRowView {
        id: columns[0],
        head_name: columns[1],
        id_number: columns[2],
        address: columns[3],
        phone: columns[4],
        household_type: columns[5],
        registration_date: columns[6],
    }
}

/// The member row of seven columns, in the order of the query.
pub open spec fn member_row_of(columns: Seq<Seq<char>>) -> MemberRowView {
    MemberRowView {
        name: columns[0],
        id_number: columns[1],
        relationship: columns[2],
        birth_date: columns[3],
        gender: columns[4],
        education: columns[5],
        occupation: columns[6],
    }
}

/// The household rows of a table.
pub open spec fn household_rows_of(table: Seq<Seq<Seq<char>>>) -> Seq<HouseholdRowView> {
    Seq::new(table.len(), |i: int| household_row_of(table[i]))
}

/// The member rows of a table.
pub open spec fn member_rows_of(table: Seq<Seq<Seq<char>>>) -> Seq<MemberRowView> {
    Seq::new(table.len(), |i: int| member_row_of(table[i]))
}

/// The members that an answer to the query for the members of a household
/// gives: those that its rows stand for.
pub open spec fn members_read(answer: Answer) -> Result<Seq<MemberView>, Failure> {
    match answer {
        Answer::Rows(table) => match decode_members(member_rows_of(table)) {
            Ok(members) => Ok(members),
            Err(reason) => Err(Failure::Undecodable(reason)),
        },
        _ => Err(Failure::Refused),
    }
}

/// Whether `exchange` asks for the members of the household of `row`: the
/// row can be decoded, and the query names the identity that it carries.
pub open spec fn asks_for_members(row: HouseholdRowView, exchange: Exchange) -> bool {
    decode_household(row, Seq::empty()) matches Ok(shell) && exchange.query
        == QueryView::MembersOf(id_text(shell.id.value))
}

/// Whether `outcome` is what reading the households of `rows` gives where
/// the exchanges about their members were `asked`. Row by row, the row is
/// decoded, the database is asked for its members, and their rows are
/// decoded; the first of these that fails ends the reading with its error.
/// Where none fails there is a household for each row, in order.
pub open spec fn households_read(
    rows: Seq<HouseholdRowView>,
    asked: Seq<Exchange>,
    outcome: Result<Seq<HouseholdView>, StorageError>,
) -> bool {
    &&& asked.len() <= rows.len()
    &&& forall|i: int| 0 <= i < asked.len() ==> asks_for_members(rows[i], #[trigger] asked[i])
    &&& forall|i: int|
        0 <= i < asked.len() - 1 ==> members_read((#[trigger] asked[i]).answer) is Ok
    &&& match outcome {
        Ok(households) => {
            &&& asked.len() == rows.len()
            &&& households.len() == rows.len()
            &&& forall|i: int|
                0 <= i < rows.len() ==> {
                    &&& members_read(asked[i].answer) is Ok
                    &&& decode_household(rows[i], members_read(asked[i].answer)->Ok_0) == Ok::<
                        HouseholdView,
                        StorageError,
                    >(#[trigger] households[i])
                }
        },
        Err(e) => if asked.len() > 0 && members_read(asked.last().answer) is Err {
            e.tells(members_read(asked.last().answer)->Err_0)
        } else {
            &&& asked.len() < rows.len()
            &&& decode_household(rows[asked.len() as int], Seq::empty()) == Err::<
                HouseholdView,
                StorageError,
            >(e)
        },
    }
}

/// Whether `outcome` is what the exchanges `asked` give for a reading that
/// begins with `first`, the query for household rows, of whose answer the
/// rows `kept` are read.
pub open spec fn rows_read(
    first: QueryView,
    kept: spec_fn(Seq<HouseholdRowView>) -> Seq<HouseholdRowView>,
    asked: Seq<Exchange>,
    outcome: Result<Seq<HouseholdView>, StorageError>,
) -> bool {
    &&& asked.len() >= 1
    &&& asked[0].query == first
    &&& match asked[0].answer {
        Answer::Rows(table) => households_read(
            kept(household_rows_of(table)),
            asked.skip(1),
            outcome,
        ),
        _ => asked.len() == 1 && outcome is Err && outcome->Err_0 is Backend,
    }
}

/// The rows among `rows` that a search for `query` finds, in their order.
pub open spec fn rows_matching(rows: Seq<HouseholdRowView>, query: Seq<char>) -> Seq<
    HouseholdRowView,
> {
    rows.filter(|row: HouseholdRowView| row.matches(query))
}

/// Whether `outcome` is what the exchanges `asked` give for the listing of
/// the store: the database is asked for every household row, and the
/// households of all its rows are read.
pub open spec fn listing_read(
    asked: Seq<Exchange>,
    outcome: Result<Seq<HouseholdView>, StorageError>,
) -> bool {
    rows_read(QueryView::AllHouseholds, |rows: Seq<HouseholdRowView>| rows, asked, outcome)
}

/// Whether `outcome` is what the exchanges `asked` give for a search for
/// `query`: the database is asked for the household rows that are like
/// `%query%`, and the households are read of those of its rows in which
/// `query` occurs.
pub open spec fn search_read(
    query: Seq<char>,
    asked: Seq<Exchange>,
    outcome: Result<Seq<HouseholdView>, StorageError>,
) -> bool {
    rows_read(
        QueryView::HouseholdsLike(like_pattern(query)),
        |rows: Seq<HouseholdRowView>| rows_matching(rows, query),
        asked,
        outcome,
    )
}

/// Whether `outcome` is what the exchanges `asked` give for the question
/// whether the store is empty: the database is asked for the number of
/// households, and the store is empty where that is 0.
pub open spec fn emptiness_read(asked: Seq<Exchange>, outcome: Result<bool, StorageError>) -> bool {
    &&& asked.len() == 1
    &&& asked[0].query == QueryView::CountHouseholds
    &&& match asked[0].answer {
        Answer::Count(n) => outcome == Ok::<bool, StorageError>(n == 0),
        _ => outcome is Err && outcome->Err_0 is Backend,
    }
}

/// The query for the count at the position `i` of the three that the
/// statistics take: households, urban households, members.
pub open spec fn count_query(i: int) -> QueryView {
    if i == 0 {
        QueryView::CountHouseholds
    } else if i == 1 {
        QueryView::CountUrbanHouseholds
    } else {
        QueryView::CountMembers
    }
}

/// Whether `outcome` is what the exchanges `asked` give for the statistics:
/// the database is asked for the three counts in turn, up to the first
/// that it refuses; three numbers that can be counts of one state give the
/// statistics, with the households that are not urban for the rural ones.
pub open spec fn statistics_read(
    asked: Seq<Exchange>,
    outcome: Result<HouseholdStatistics, StorageError>,
) -> bool {
    &&& 1 <= asked.len() <= 3
    &&& forall|i: int| 0 <= i < asked.len() ==> (#[trigger] asked[i]).query == count_query(i)
    &&& forall|i: int| 0 <= i < asked.len() - 1 ==> (#[trigger] asked[i]).answer is Count
    &&& if asked.last().answer is Count {
        &&& asked.len() == 3
        &&& match outcome {
            Ok(statistics) => {
                &&& HouseholdStatistics::counts_ok(
                    asked[0].answer->Count_0,
                    asked[1].answer->Count_0,
                    asked[2].answer->Count_0,
                )
                &&& statistics.total_households == asked[0].answer->Count_0
                &&& statistics.urban_households == asked[1].answer->Count_0
                &&& statistics.rural_households == asked[0].answer->Count_0
                    - asked[1].answer->Count_0
                &&& statistics.total_members == asked[2].answer->Count_0
            },
            Err(e) => {
                &&& !HouseholdStatistics::counts_ok(
                    asked[0].answer->Count_0,
                    asked[1].answer->Count_0,
                    asked[2].answer->Count_0,
                )
                &&& e is InconsistentCounts
            },
        }
    } else {
        outcome is Err && outcome->Err_0 is Backend
    }
}

/// Every household that a search reads is one in which the query occurs.
pub proof fn law_search_reads_matches(
    query: Seq<char>,
    asked: Seq<Exchange>,
    households: Seq<HouseholdView>,
)
    requires
        search_read(query, asked, Ok(households)),
    ensures
        forall|i: int| 0 <= i < households.len() ==> (#[trigger] households[i]).matches(query),
{
    let table = asked[0].answer->Rows_0;
    let rows = rows_matching(household_rows_of(table), query);
    let keep = |row: HouseholdRowView| row.matches(query);
    assert forall|i: int| 0 <= i < households.len() implies (#[trigger] households[i]).matches(
        query,
    ) by {
        household_rows_of(table).lemma_filter_pred(keep, i);
        assert(rows[i].matches(query));
        assert(asked.skip(1)[i] == asked[i + 1]);
    }
}

} // verus!
