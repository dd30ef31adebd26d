//! A weekly roster of student records: attendance, grades, exercise marks,
//! groups and teaching assistants.
//!
//! The roster of a week is derived from the roster of the week before: its
//! rows are sorted, given a group and an assistant, merged with what is
//! already recorded for the week and enriched from the submissions that were
//! handed in. All of it is computed on plain values; reading requests,
//! fetching submissions and writing to storage are left to the caller.

pub mod allocator;
pub mod directory;
pub mod laws;
pub mod ordering;
pub mod reconcile;
pub mod request;
pub mod row;
pub mod staff;
pub mod submission;
pub mod table;
pub mod text;
