//! What a request is answered with: who may ask, which weeks can be asked
//! for, how rows are added and deleted, and the words of each answer.

use crate::row::{views, RowData};
use crate::table::{first_target_from, upsert_all, week_rows, without, Table};
use crate::text::same_text;
use vstd::prelude::*;

verus! {

/// Why a request fails.
#[derive(Clone, Copy, Debug, PartialEq, Eq, Structural)]
pub enum RosterError {
    /// The token is missing or is not the configured one.
    Unauthorized,
    /// The payload is empty or malformed.
    Validation,
    /// The submission source could not be reached.
    UpstreamFetch,
    /// The roster could not be written to storage.
    Persistence,
    /// The week is negative.
    InvalidWeek,
}

impl RosterError {
    /// The HTTP status that reports this error.
    pub fn status_code(&self) -> (code: u16)
        ensures
            code == match *self {
                RosterError::Unauthorized => 401u16,
                RosterError::Validation => 400u16,
                RosterError::UpstreamFetch => 502u16,
                RosterError::Persistence => 500u16,
                RosterError::InvalidWeek => 400u16,
            },
    {
        match self {
            RosterError::Unauthorized => 401,
            RosterError::Validation => 400,
            RosterError::UpstreamFetch => 502,
            RosterError::Persistence => 500,
            RosterError::InvalidWeek => 400,
        }
    }

    /// The message that reports this error.
    pub fn message(&self) -> (text: &'static str)
        ensures
            text@ == match *self {
                RosterError::Unauthorized => "Unauthorized: missing or invalid token"@,
                RosterError::Validation => "No student data provided"@,
                RosterError::UpstreamFetch => "Submission source unreachable"@,
                RosterError::Persistence => "Failed to write to storage"@,
                RosterError::InvalidWeek => "Invalid week number"@,
            },
    {
        match self {
            RosterError::Unauthorized => "Unauthorized: missing or invalid token",
            RosterError::Validation => "No student data provided",
            RosterError::UpstreamFetch => "Submission source unreachable",
            RosterError::Persistence => "Failed to write to storage",
            RosterError::InvalidWeek => "Invalid week number",
        }
    }
}

/// Whether the presented token is the expected one: it must be present and
/// equal to it, character for character.
pub fn authorized(presented: &Option<String>, expected: &String) -> (ok: bool)
    ensures
        ok == match *presented {
            Some(token) => token@ == expected@,
            None => false,
        },
{
    match presented {
        Some(token) => same_text(token, expected),
        None => false,
    }
}

/// How a request for the data of a week is answered.
#[derive(Clone, Copy, Debug, PartialEq, Eq, Structural)]
pub enum WeekPlan {
    /// The rows recorded for week 0 are returned as they are.
    Passthrough,
    /// The week is reconciled and the derived rows are returned.
    Reconcile,
    /// The week is refused.
    Refuse,
}

/// Decides how a request for `week` is answered: week 0 is passed through,
/// a week from 1 on is reconciled, a negative week is refused.
pub fn plan_week(week: i32) -> (plan: WeekPlan)
    ensures
        plan == if week == 0 {
            WeekPlan::Passthrough
        } else if week >= 1 {
            WeekPlan::Reconcile
        } else {
            WeekPlan::Refuse
        },
{
    if week == 0 {
        WeekPlan::Passthrough
    } else if week >= 1 {
        WeekPlan::Reconcile
    } else {
        WeekPlan::Refuse
    }
}

/// Checks the week of a reconciliation: a negative week is invalid.
pub fn check_week(week: i32) -> (r: Result<(), RosterError>)
    ensures
        week >= 0 <==> r is Ok,
        week < 0 ==> r == Err::<(), RosterError>(RosterError::InvalidWeek),
{
    if week < 0 {
        Err(RosterError::InvalidWeek)
    } else {
        Ok(())
    }
}

/// The rows recorded for week 0, in the roster's order and unchanged.
pub fn week_zero_rows(table: &Table) -> (rows: Vec<RowData>)
    ensures
        views(rows@) == week_rows(table@, 0),
{
    table.rows_for_week(0)
}

/// Adds the submitted rows to the roster: each is inserted or updated, in
/// order. An empty submission is refused and leaves the roster as it is.
pub fn add_rows(table: &mut Table, rows: &Vec<RowData>) -> (r: Result<(), RosterError>)
    ensures
        rows@.len() > 0 <==> r is Ok,
        rows@.len() == 0 ==> r == Err::<(), RosterError>(RosterError::Validation) && final(table)@
            == old(table)@,
        rows@.len() > 0 ==> final(table)@ == upsert_all(old(table)@, views(rows@)),
        crate::table::unique_keys(old(table)@) ==> crate::table::unique_keys(final(table)@),
{
    if rows.len() == 0 {
        return Err(RosterError::Validation);
    }
    table.insert_or_update_all(rows);
    Ok(())
}

/// What a deletion did.
#[derive(Clone, Copy, Debug, PartialEq, Eq, Structural)]
pub enum Deletion {
    /// The matching row was removed; the roster has to be written to
    /// storage.
    Removed,
    /// No row matched; nothing changed.
    NothingToDelete,
}

impl Deletion {
    /// The message that reports the outcome. Both outcomes are successes.
    pub fn message(&self) -> (text: &'static str)
        ensures
            text@ == match *self {
                Deletion::Removed => "Weekly data deleted successfully"@,
                Deletion::NothingToDelete => "No matching data found to delete"@,
            },
    {
        match self {
            Deletion::Removed => "Weekly data deleted successfully",
            Deletion::NothingToDelete => "No matching data found to delete",
        }
    }

    /// Whether the roster has to be written to storage.
    pub fn needs_flush(&self) -> (r: bool)
        ensures
            r == (*self == Deletion::Removed),
    {
        match self {
            Deletion::Removed => true,
            Deletion::NothingToDelete => false,
        }
    }
}

/// Deletes the row that has the name, the mail and the week of `wanted`:
/// the first such row is removed. Without one the roster stays as it is.
pub fn delete_row(table: &mut Table, wanted: &RowData) -> (outcome: Deletion)
    ensures
        final(table)@ == without(old(table)@, wanted@),
        outcome == if first_target_from(old(table)@, wanted@, 0) < old(table)@.len() {
            Deletion::Removed
        } else {
            Deletion::NothingToDelete
        },
        outcome == Deletion::NothingToDelete ==> final(table)@ == old(table)@,
        outcome == Deletion::Removed ==> final(table)@.len() + 1 == old(table)@.len(),
        crate::table::unique_keys(old(table)@) ==> crate::table::unique_keys(final(table)@),
{
    if table.remove_matching(wanted) {
        Deletion::Removed
    } else {
        Deletion::NothingToDelete
    }
}

/// The message that confirms that rows were added.
pub fn added_message() -> (text: &'static str)
    ensures
        text@ == "Weekly data inserted/updated successfully"@,
{
    "Weekly data inserted/updated successfully"
}

} // verus!
