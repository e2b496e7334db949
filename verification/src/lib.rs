//! Household registry: the record store, the cached manager in front of it,
//! and the rules that gate what may be stored.
//!
//! - `data::models`: households, members and the forms that edit them.
//! - `data::validation`: the rules a form must meet.
//! - `data::rows`, `data::statements`: the records as text rows, and the
//!   statements and queries that the store hands to the database.
//! - `data::database`, `data::answers`: the store over SQLite, and what it
//!   makes of the database's answers.
//! - `data::cache`, `data::search`, `data::manager`: the manager with its
//!   cache, and the positions that a search returns.
//! - `data::relations`, `data::laws`: the two relations as the statements
//!   change them, and what follows for the store and the manager.
//! - `calendar`, `identity`, `text`: dates, identities and texts.
//! - `utils`: texts for display and export.
//! - `app`: the state of the application behind its windows.

pub mod app;
pub mod calendar;
pub mod data;
pub mod identity;
pub mod text;
pub mod utils;

pub use app::HouseholdApp;
pub use app::UiState;
pub use data::models::Education;
pub use data::models::Gender;
pub use data::models::Household;
pub use data::models::HouseholdForm;
pub use data::models::HouseholdType;
pub use data::models::Member;
pub use data::models::MemberForm;
pub use data::models::Relationship;
