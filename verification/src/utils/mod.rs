//! Helpers for showing records: texts, dates and reports.

pub mod date;
pub mod export;
pub mod format;
