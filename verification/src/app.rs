//! The state of the application behind its windows: the manager, and what
//! the user has selected, typed and been told.

use crate::data::manager::HouseholdManager;
use crate::data::search::positions_view;
use crate::data::models::{households_view, Household, HouseholdForm, HouseholdFormView};
use crate::data::rows::{reads_back, StorageError};
use crate::data::answers::{ran, ran_if_changed};
use crate::data::statements::{delete_statements, insert_statements, update_statements};
use crate::identity::HouseholdId;
use vstd::prelude::*;

verus! {

/// What the windows show besides the records.
#[derive(Debug)]
pub struct UiState {
    pub selected_household: Option<usize>,
    pub show_add_dialog: bool,
    pub show_edit_dialog: bool,
    pub show_error_dialog: bool,
    pub error_message: String,
    pub edit_form: HouseholdForm,
    pub search_query: String,
    pub filtered_households: Vec<usize>,
}

impl Default for UiState {
    /// Nothing selected, nothing shown, nothing typed, nothing listed.
    fn default() -> (r: UiState)
        ensures
            r.selected_household is None,
            !r.show_add_dialog,
            !r.show_edit_dialog,
            !r.show_error_dialog,
            r.error_message@.len() == 0,
            r.edit_form@ == HouseholdFormView::empty(),
            r.search_query@.len() == 0,
            r.filtered_households@.len() == 0,
    {
        UiState {
            selected_household: None,
            show_add_dialog: false,
            show_edit_dialog: false,
            show_error_dialog: false,
            error_message: String::new(),
            edit_form: HouseholdForm::default(),
            search_query: String::new(),
            filtered_households: Vec::new(),
        }
    }
}

/// The application: the manager of the households and the state of the
/// windows.
pub struct HouseholdApp {
    pub household_manager: HouseholdManager,
    pub ui_state: UiState,
}

impl HouseholdApp {
    /// Whether `after` is `self` with nothing changed but the list of the
    /// positions that are shown.
    pub open spec fn same_but_filtered(&self, after: &HouseholdApp) -> bool {
        &&& after.ui_state.selected_household == self.ui_state.selected_household
        &&& after.ui_state.show_add_dialog == self.ui_state.show_add_dialog
        &&& after.ui_state.show_edit_dialog == self.ui_state.show_edit_dialog
        &&& after.ui_state.show_error_dialog == self.ui_state.show_error_dialog
        &&& after.ui_state.error_message == self.ui_state.error_message
        &&& after.ui_state.edit_form == self.ui_state.edit_form
        &&& after.ui_state.search_query == self.ui_state.search_query
    }

    /// Whether `after` is `before` with the positions that are shown taken
    /// anew from a search for the query that is typed; a search that fails
    /// leaves the positions as they were.
    pub open spec fn filtered_anew(
        before: &HouseholdApp,
        after: &HouseholdApp,
        outcome: Result<(), StorageError>,
    ) -> bool {
        &&& before.same_but_filtered(after)
        &&& match outcome {
            Ok(_) => before.household_manager.searched(
                before.ui_state.search_query@,
                &after.household_manager,
                Ok(after.ui_state.filtered_households),
            ),
            Err(e) => before.household_manager.searched(
                before.ui_state.search_query@,
                &after.household_manager,
                Err(e),
            ) && after.ui_state.filtered_households == before.ui_state.filtered_households,
        }
    }

    /// Opens the store at `db_path`; a store that holds no household gets
    /// the sample households. The positions that are shown are those of a
    /// search for the empty query: all of them.
    pub fn open(db_path: &str) -> (r: Result<HouseholdApp, StorageError>)
        ensures
            r matches Ok(app) ==> {
                &&& app.household_manager.location() == db_path@
                &&& app.household_manager.wf()
                &&& !app.household_manager.cache_dirty()
                &&& app.ui_state.search_query@.len() == 0
                &&& app.ui_state.selected_household is None
                &&& positions_view(app.ui_state.filtered_households@) == Seq::new(
                    app.household_manager.cache().len(),
                    |i: int| i,
                )
            },
    {
        let mut app = HouseholdApp {
            household_manager: HouseholdManager::open(db_path)?,
            ui_state: UiState::default(),
        };
        if app.household_manager.is_empty()? {
            app.household_manager.add_sample_data()?;
        }
        app.update_filtered_households()?;
        Ok(app)
    }

    /// Opens the store at its fixed place, as `open` does.
    pub fn new() -> (r: Result<HouseholdApp, StorageError>)
        ensures
            r matches Ok(app) ==> {
                &&& app.household_manager.location() == HouseholdManager::fixed_location()
                &&& app.household_manager.wf()
                &&& !app.household_manager.cache_dirty()
                &&& app.ui_state.search_query@.len() == 0
                &&& app.ui_state.selected_household is None
                &&& positions_view(app.ui_state.filtered_households@) == Seq::new(
                    app.household_manager.cache().len(),
                    |i: int| i,
                )
            },
    {
        HouseholdApp::open("household_management.db")
    }

    /// Takes the positions that are shown anew from a search for the query
    /// that is typed.
    pub fn update_filtered_households(&mut self) -> (r: Result<(), StorageError>)
        ensures
            HouseholdApp::filtered_anew(old(self), final(self), r),
    {
        match self.household_manager.search(self.ui_state.search_query.as_str()) {
            Ok(positions) => {
                self.ui_state.filtered_households = positions;
                Ok(())
            },
            Err(e) => Err(e),
        }
    }

    /// The households of the listing, in their positions.
    pub fn get_households(&mut self) -> (r: Result<Vec<Household>, StorageError>)
        ensures
            old(self).household_manager.refreshed_to(&final(self).household_manager),
            final(self).ui_state == old(self).ui_state,
            r matches Ok(households) && households_view(households@)
                == final(self).household_manager.cache(),
    {
        self.household_manager.get_households()
    }

    /// The household at the position `index` of the listing, if there is
    /// one.
    pub fn get_household(&mut self, index: usize) -> (r: Result<Option<Household>, StorageError>)
        ensures
            old(self).household_manager.refreshed_to(&final(self).household_manager),
            final(self).ui_state == old(self).ui_state,
            r matches Ok(found) && match found {
                Some(household) => index < final(self).household_manager.cache().len()
                    && household@ == final(self).household_manager.cache()[index as int],
                None => index >= final(self).household_manager.cache().len(),
            },
    {
        self.household_manager.get_household(index)
    }

    /// Stores `household` as a new household, then takes the positions that
    /// are shown anew. The error of the store comes first; after it the
    /// positions are as they were.
    pub fn add_household(&mut self, household: Household) -> (r: Result<(), StorageError>)
        ensures
            old(self).same_but_filtered(final(self)),
            reads_back(household@),
            r is Ok ==> ran(
                old(self).household_manager.issued(),
                insert_statements(household@),
                final(self).household_manager.issued(),
                Ok(()),
            ) && !final(self).household_manager.cache_dirty(),
    {
        self.household_manager.add_household(household)?;
        self.update_filtered_households()?;
        Ok(())
    }

    /// Replaces the stored household that has the identity of `household`,
    /// then takes the positions that are shown anew.
    pub fn update_household(&mut self, household: Household) -> (r: Result<(), StorageError>)
        ensures
            old(self).same_but_filtered(final(self)),
            reads_back(household@),
            r is Ok ==> ran_if_changed(
                old(self).household_manager.issued(),
                update_statements(household@),
                final(self).household_manager.issued(),
                Ok(()),
            ) && !final(self).household_manager.cache_dirty(),
    {
        self.household_manager.update_household(household)?;
        self.update_filtered_households()?;
        Ok(())
    }

    /// Removes the household `household_id`, then takes the positions that
    /// are shown anew.
    pub fn remove_household(&mut self, household_id: &HouseholdId) -> (r: Result<
        (),
        StorageError,
    >)
        ensures
            old(self).same_but_filtered(final(self)),
            r is Ok ==> ran(
                old(self).household_manager.issued(),
                delete_statements(*household_id),
                final(self).household_manager.issued(),
                Ok(()),
            ) && !final(self).household_manager.cache_dirty(),
    {
        self.household_manager.remove_household(household_id)?;
        self.update_filtered_households()?;
        Ok(())
    }
}

} // verus!
