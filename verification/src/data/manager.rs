//! The manager: the one entry point to the store, with a cache in front.

use crate::data::answers::{
    emptiness_read, grew, lemma_ran_first, lemma_ran_second, listing_read, ran,
    ran_if_changed, search_read, since, statistics_read, Exchange, Issue,
};
use crate::data::cache::{distinct_ids, shown, HouseholdCache};
use crate::data::database::{lemma_grew_twice, outcome_view, Database};
use crate::data::models::{households_view, Household, HouseholdView};
use crate::data::rows::{reads_back, StorageError};
use crate::data::samples::{
    sample_first, sample_households, sample_second, sample_statements,
};
use crate::data::search::{found_positions, positions_view};
use crate::data::statements::{
    delete_statements, insert_plan, insert_statements, schema_statements, update_statements,
};
use crate::identity::HouseholdId;
use vstd::prelude::*;

verus! {

/// The counts of the store.
#[derive(Debug)]
pub struct HouseholdStatistics {
    pub total_households: usize,
    pub urban_households: usize,
    pub rural_households: usize,
    pub total_members: usize,
}

impl HouseholdStatistics {
    /// Whether the three numbers can be counts of one state of the store,
    /// and fit the machine's word.
    pub open spec fn counts_ok(total: int, urban: int, members: int) -> bool {
        &&& 0 <= urban <= total <= usize::MAX
        &&& 0 <= members <= usize::MAX
    }

    /// The statistics for the given counts of households, of urban
    /// households and of members: the rural households are the rest. There
    /// are none where the numbers cannot be such counts.
    pub fn from_counts(total: i64, urban: i64, members: i64) -> (r: Option<HouseholdStatistics>)
        ensures
            r is Some <==> HouseholdStatistics::counts_ok(total as int, urban as int, members as int),
            r matches Some(s) ==> {
                &&& s.total_households == total
                &&& s.urban_households == urban
                &&& s.rural_households == total - urban
                &&& s.total_members == members
            },
    {
        if urban < 0 || urban > total || members < 0 {
            return None;
        }
        if total as u64 > usize::MAX as u64 || members as u64 > usize::MAX as u64 {
            return None;
        }
        Some(
            HouseholdStatistics {
                total_households: total as usize,
                urban_households: urban as usize,
                rural_households: (total - urban) as usize,
                total_members: members as usize,
            },
        )
    }
}

/// The manager of the households: it keeps the store and a cache of its
/// listing, which it reads anew after every change.
pub struct HouseholdManager {
    database: Database,
    cache: HouseholdCache,
    fresh: Ghost<(Seq<Exchange>, Seq<Issue>)>,
}

/// Whether `after` is a manager whose cache is fresh, having had the cache
/// `cache`, marked as `dirty` tells, when the exchanges with the database
/// were `asked`. A cache that was fresh is untouched, and nothing was
/// asked. One that was due shows what a listing of the store gave: the
/// listing keyed by identity, or nothing where the listing failed.
pub open spec fn refreshed(
    asked: Seq<Exchange>,
    dirty: bool,
    cache: Seq<HouseholdView>,
    after: &HouseholdManager,
) -> bool {
    &&& !after.cache_dirty()
    &&& distinct_ids(after.cache())
    &&& grew(asked, after.asked())
    &&& if dirty {
        exists|loaded: Result<Seq<HouseholdView>, StorageError>|
            #[trigger] listing_read(since(asked, after.asked()), loaded) && after.cache()
                == shown(loaded)
    } else {
        after.asked() == asked && after.cache() == cache
    }
}

impl HouseholdManager {
    /// The households of the cache, in their positions.
    pub closed spec fn cache(&self) -> Seq<HouseholdView> {
        self.cache.households()
    }

    /// Whether the store may have changed since the cache was read.
    pub closed spec fn cache_dirty(&self) -> bool {
        self.cache.dirty()
    }

    /// The statements handed to the database so far, each with what the
    /// database did.
    pub closed spec fn issued(&self) -> Seq<Issue> {
        self.database.issued()
    }

    /// The place of the database that the store was opened at.
    pub closed spec fn location(&self) -> Seq<char> {
        self.database.location()
    }

    /// The exchanges of the listing from which the cache was last read.
    pub closed spec fn listed(&self) -> Seq<Exchange> {
        self.fresh@.0
    }

    /// The statements that had been issued when the cache was last read.
    pub closed spec fn listed_at(&self) -> Seq<Issue> {
        self.fresh@.1
    }

    /// The invariant of the manager: a cache that is not due shows what
    /// the last listing of the store gave, and no statement was issued
    /// since. Opening establishes it, and every operation keeps it.
    pub open spec fn wf(&self) -> bool {
        !self.cache_dirty() ==> {
            &&& self.listed_at() == self.issued()
            &&& exists|loaded: Result<Seq<HouseholdView>, StorageError>|
                #[trigger] listing_read(self.listed(), loaded) && self.cache() == shown(loaded)
        }
    }

    /// The place at which `new` opens the store: the file
    /// `household_management.db` of the working directory.
    pub open spec fn fixed_location() -> Seq<char> {
        "household_management.db"@
    }

    /// The queries that the database was asked so far, with its answers.
    pub closed spec fn asked(&self) -> Seq<Exchange> {
        self.database.asked()
    }

    /// The invariant stands where nothing that it speaks of has changed.
    proof fn lemma_wf_kept(before: &HouseholdManager, after: &HouseholdManager)
        requires
            after.listed() == before.listed(),
            after.listed_at() == before.listed_at(),
            after.cache() == before.cache(),
            after.issued() == before.issued(),
            after.cache_dirty() == before.cache_dirty(),
        ensures
            before.wf() ==> after.wf(),
    {
        if before.wf() && !after.cache_dirty() {
            let loaded = choose|loaded: Result<Seq<HouseholdView>, StorageError>|
                #[trigger] listing_read(before.listed(), loaded) && before.cache() == shown(
                    loaded,
                );
            assert(listing_read(after.listed(), loaded) && after.cache() == shown(loaded));
        }
    }

    /// Whether `after` is `self` once its cache is fresh: nothing was
    /// written, and the cache was read anew if it was due.
    pub open spec fn refreshed_to(&self, after: &HouseholdManager) -> bool {
        &&& after.issued() == self.issued()
        &&& after.location() == self.location()
        &&& self.wf() ==> after.wf()
        &&& refreshed(self.asked(), self.cache_dirty(), self.cache(), after)
    }

    /// Whether `after` is `self` after a change of the store: the cache is
    /// marked as due and shows what it showed, and nothing was asked.
    pub open spec fn invalidated_to(&self, after: &HouseholdManager) -> bool {
        &&& after.location() == self.location()
        &&& after.cache_dirty()
        &&& after.cache() == self.cache()
        &&& after.asked() == self.asked()
    }

    /// Whether `after` and `outcome` are what a search for `query` makes of
    /// `self`. For an empty query the cache is read anew if it is due, and
    /// the positions are all the positions of the cache. For any other the
    /// store is searched first: its error ends the search with the cache as
    /// it was; else the cache is read anew if it is due, and the positions
    /// are those, in the cache, of the households whose identity one of
    /// the households found has.
    pub open spec fn searched(
        &self,
        query: Seq<char>,
        after: &HouseholdManager,
        outcome: Result<Vec<usize>, StorageError>,
    ) -> bool {
        &&& after.issued() == self.issued()
        &&& after.location() == self.location()
        &&& self.wf() ==> after.wf()
        &&& grew(self.asked(), after.asked())
        &&& match outcome {
            Ok(positions) => if query.len() == 0 {
                &&& refreshed(self.asked(), self.cache_dirty(), self.cache(), after)
                &&& positions_view(positions@) == Seq::new(after.cache().len(), |i: int| i)
            } else {
                exists|found: Seq<HouseholdView>, n: int|
                    {
                        &&& self.asked().len() <= n <= after.asked().len()
                        &&& #[trigger] search_read(
                            query,
                            after.asked().subrange(self.asked().len() as int, n),
                            Ok(found),
                        )
                        &&& refreshed(
                            after.asked().take(n),
                            self.cache_dirty(),
                            self.cache(),
                            after,
                        )
                        &&& positions_view(positions@) == found_positions(after.cache(), found)
                    }
            },
            Err(e) => {
                &&& query.len() > 0
                &&& search_read(query, since(self.asked(), after.asked()), Err(e))
                &&& after.cache() == self.cache()
                &&& after.cache_dirty() == self.cache_dirty()
            },
        }
    }

    /// Opens the store at `db_path` with an empty cache that is due to be
    /// read.
    pub fn open(db_path: &str) -> (r: Result<HouseholdManager, StorageError>)
        ensures
            match r {
                Ok(manager) => {
                    &&& manager.location() == db_path@
                    &&& ran(Seq::empty(), schema_statements(), manager.issued(), Ok(()))
                    &&& manager.asked().len() == 0
                    &&& manager.cache_dirty()
                    &&& manager.cache().len() == 0
                    &&& manager.wf()
                },
                Err(e) => e is Backend,
            },
    {
        let database = Database::new(db_path)?;
        Ok(
            HouseholdManager {
                database,
                cache: HouseholdCache::new(),
                fresh: Ghost((Seq::empty(), Seq::empty())),
            },
        )
    }

    /// Opens the store at its fixed place, the file `household_management.db`
    /// of the working directory.
    pub fn new() -> (r: Result<HouseholdManager, StorageError>)
        ensures
            match r {
                Ok(manager) => {
                    &&& manager.location() == HouseholdManager::fixed_location()
                    &&& ran(Seq::empty(), schema_statements(), manager.issued(), Ok(()))
                    &&& manager.asked().len() == 0
                    &&& manager.cache_dirty()
                    &&& manager.cache().len() == 0
                    &&& manager.wf()
                },
                Err(e) => e is Backend,
            },
    {
        HouseholdManager::open("household_management.db")
    }

    /// Tells whether the store holds no household, by asking the store; the
    /// cache is neither read nor changed.
    pub fn is_empty(&mut self) -> (r: Result<bool, StorageError>)
        ensures
            final(self).issued() == old(self).issued(),
            grew(old(self).asked(), final(self).asked()),
            emptiness_read(since(old(self).asked(), final(self).asked()), r),
            final(self).location() == old(self).location(),
            final(self).cache() == old(self).cache(),
            final(self).cache_dirty() == old(self).cache_dirty(),
            old(self).wf() ==> final(self).wf(),
    {
        let r = self.database.is_empty();
        proof {
            HouseholdManager::lemma_wf_kept(old(self), self);
        }
        r
    }

    /// Stores the two sample households under two fresh identities that
    /// differ, the first before the second, and marks the cache as due. It
    /// fails only where the database refuses a statement, with its report.
    pub fn add_sample_data(&mut self) -> (r: Result<(), StorageError>)
        ensures
            exists|first: HouseholdId, second: HouseholdId|
                {
                    &&& first != second
                    &&& reads_back(sample_first(first))
                    &&& reads_back(sample_second(second))
                    &&& ran(
                        old(self).issued(),
                        #[trigger] sample_statements(first, second),
                        final(self).issued(),
                        r,
                    )
                },
            old(self).invalidated_to(final(self)),
    {
        let first = HouseholdId::new_v4();
        let second = HouseholdId::distinct_from(&first);
        let (sample1, sample2) = sample_households(first, second);
        let ghost before = self.database.issued();
        let ghost plan1 = insert_statements(sample1@);
        let ghost plan2 = insert_statements(sample2@);
        self.cache.invalidate();
        let stored = self.database.insert_household(&sample1);
        let ghost middle = self.database.issued();
        if stored.is_err() {
            let _ = insert_plan(&sample2);
            proof {
                lemma_ran_first(before, plan1, plan2, middle, stored);
                assert(ran(before, sample_statements(first, second), middle, stored));
            }
            return stored;
        }
        let outcome = self.database.insert_household(&sample2);
        proof {
            lemma_ran_second(before, plan1, plan2, middle, self.database.issued(), outcome);
            assert(ran(
                before,
                sample_statements(first, second),
                self.database.issued(),
                outcome,
            ));
        }
        outcome
    }

    /// Reads the cache anew from the store if it is due. A store that fails
    /// leaves the cache empty, and fresh.
    fn refresh_cache(&mut self)
        ensures
            old(self).refreshed_to(final(self)),
    {
        if self.cache.is_dirty() {
            let loaded = self.database.get_all_households();
            let ghost got = outcome_view(loaded);
            proof {
                assert(listing_read(since(old(self).asked(), self.database.asked()), got));
                self.fresh@ = (
                    since(old(self).asked(), self.database.asked()),
                    self.database.issued(),
                );
            }
            self.cache.fill(loaded);
            proof {
                assert(listing_read(self.listed(), got) && self.cache() == shown(got));
            }
        } else {
            proof {
                use_type_invariant(&self.cache);
                assert(self.asked().take(self.asked().len() as int) =~= self.asked());
                HouseholdManager::lemma_wf_kept(old(self), self);
            }
        }
    }

    /// The households of the cache, in their positions, the cache read anew
    /// first if it is due. It does not fail.
    pub fn get_households(&mut self) -> (r: Result<Vec<Household>, StorageError>)
        ensures
            old(self).refreshed_to(final(self)),
            r matches Ok(households) && households_view(households@) == final(self).cache(),
    {
        self.refresh_cache();
        Ok(self.cache.to_vec())
    }

    /// The household at the position `index` of the cache, the cache read
    /// anew first if it is due; none where the cache is no longer than
    /// `index`. It does not fail.
    pub fn get_household(&mut self, index: usize) -> (r: Result<Option<Household>, StorageError>)
        ensures
            old(self).refreshed_to(final(self)),
            r matches Ok(found) && match found {
                Some(household) => index < final(self).cache().len()
                    && household@ == final(self).cache()[index as int],
                None => index >= final(self).cache().len(),
            },
    {
        self.refresh_cache();
        Ok(self.cache.get(index))
    }

    /// Stores `household` as a new household and marks the cache as due,
    /// whether or not the store reports an error.
    pub fn add_household(&mut self, household: Household) -> (r: Result<(), StorageError>)
        ensures
            ran(old(self).issued(), insert_statements(household@), final(self).issued(), r),
            reads_back(household@),
            old(self).invalidated_to(final(self)),
    {
        self.cache.invalidate();
        self.database.insert_household(&household)
    }

    /// Replaces the stored household that has the identity of `household`
    /// and marks the cache as due, whether or not the store reports an
    /// error.
    pub fn update_household(&mut self, household: Household) -> (r: Result<(), StorageError>)
        ensures
            ran_if_changed(
                old(self).issued(),
                update_statements(household@),
                final(self).issued(),
                r,
            ),
            reads_back(household@),
            old(self).invalidated_to(final(self)),
    {
        self.cache.invalidate();
        self.database.update_household(&household)
    }

    /// Removes the household `household_id` with its members and marks the
    /// cache as due, whether or not the store reports an error.
    pub fn remove_household(&mut self, household_id: &HouseholdId) -> (r: Result<
        (),
        StorageError,
    >)
        ensures
            ran(old(self).issued(), delete_statements(*household_id), final(self).issued(), r),
            old(self).invalidated_to(final(self)),
    {
        self.cache.invalidate();
        self.database.delete_household(household_id)
    }

    /// The positions, in the full listing of the cache, of the households
    /// that a search finds. An empty `query` finds every position, and the
    /// store is not searched. For any other the store is searched first,
    /// and its error is returned with the cache untouched; else the cache
    /// is read anew if it is due, and the positions are those of the
    /// households whose identity the store found.
    pub fn search(&mut self, query: &str) -> (r: Result<Vec<usize>, StorageError>)
        ensures
            old(self).searched(query@, final(self), r),
    {
        if query.is_empty() {
            self.refresh_cache();
            let count = self.cache.len();
            let mut positions: Vec<usize> = Vec::new();
            let mut i: usize = 0;
            while i < count
                invariant
                    i <= count,
                    positions.len() == i,
                    forall|j: int| 0 <= j < i ==> positions[j] == j,
                decreases count - i,
            {
                positions.push(i);
                i += 1;
            }
            assert(positions_view(positions@) =~= Seq::new(count as nat, |i: int| i));
            Ok(positions)
        } else {
            let ghost before = self.asked();
            let found = match self.database.search_households(query) {
                Ok(found) => found,
                Err(e) => {
                    proof {
                        HouseholdManager::lemma_wf_kept(old(self), self);
                    }
                    return Err(e);
                },
            };
            proof {
                HouseholdManager::lemma_wf_kept(old(self), self);
            }
            let ghost middle = self.asked();
            self.refresh_cache();
            let positions = self.cache.positions_of(&found);
            proof {
                let n = middle.len() as int;
                lemma_grew_twice(before, middle, self.asked());
                assert(self.asked().take(n) =~= middle);
                assert(self.asked().subrange(before.len() as int, n) =~= since(before, middle));
                assert(search_read(
                    query@,
                    self.asked().subrange(before.len() as int, n),
                    Ok(households_view(found@)),
                ));
            }
            Ok(positions)
        }
    }

    /// The number of households in the cache, the cache read anew first if
    /// it is due. It does not fail.
    pub fn count(&mut self) -> (r: Result<usize, StorageError>)
        ensures
            old(self).refreshed_to(final(self)),
            r matches Ok(count) && count == final(self).cache().len(),
    {
        self.refresh_cache();
        Ok(self.cache.len())
    }

    /// The counts of the store, by what the database answers; the cache is
    /// neither read nor changed.
    pub fn get_statistics(&mut self) -> (r: Result<HouseholdStatistics, StorageError>)
        ensures
            final(self).issued() == old(self).issued(),
            grew(old(self).asked(), final(self).asked()),
            statistics_read(since(old(self).asked(), final(self).asked()), r),
            r matches Ok(statistics) ==> statistics.urban_households
                + statistics.rural_households == statistics.total_households,
            final(self).location() == old(self).location(),
            final(self).cache() == old(self).cache(),
            final(self).cache_dirty() == old(self).cache_dirty(),
            old(self).wf() ==> final(self).wf(),
    {
        let r = self.database.get_statistics();
        proof {
            HouseholdManager::lemma_wf_kept(old(self), self);
        }
        r
    }
}

} // verus!
