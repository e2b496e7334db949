//! The data layer: records, the rules for forms, the store and its manager.

pub mod answers;
pub mod cache;
pub mod database;
pub mod laws;
pub mod manager;
pub mod models;
pub mod relations;
pub mod rows;
pub mod samples;
pub mod search;
pub mod statements;
pub mod validation;
