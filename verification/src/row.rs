//! One student's record for one week, and its mathematical model.

use crate::text::{clone_opt_text, opt_int, opt_text, same_text};
use vstd::prelude::*;

verus! {

/// One student's record for one week.
///
/// A row is identified by its `name` together with its `week`.
#[derive(Clone, Debug, PartialEq, Eq)]
pub struct RowData {
    pub name: String,
    pub mail: String,
    pub week: i32,
    pub attendance: Option<String>,
    pub group_id: String,
    pub ta: Option<String>,
    pub fa: Option<i32>,
    pub fb: Option<i32>,
    pub fc: Option<i32>,
    pub fd: Option<i32>,
    pub bonus_attempt: Option<i32>,
    pub bonus_answer_quality: Option<i32>,
    pub bonus_follow_up: Option<i32>,
    pub exercise_submitted: Option<String>,
    pub exercise_test_passing: Option<String>,
    pub exercise_good_documentation: Option<String>,
    pub exercise_good_structure: Option<String>,
    pub total: Option<i32>,
}

/// What a row holds, as plain mathematical values.
pub struct RowView {
    pub name: Seq<char>,
    pub mail: Seq<char>,
    pub week: int,
    pub attendance: Option<Seq<char>>,
    pub group_id: Seq<char>,
    pub ta: Option<Seq<char>>,
    pub fa: Option<int>,
    pub fb: Option<int>,
    pub fc: Option<int>,
    pub fd: Option<int>,
    pub bonus_attempt: Option<int>,
    pub bonus_answer_quality: Option<int>,
    pub bonus_follow_up: Option<int>,
    pub exercise_submitted: Option<Seq<char>>,
    pub exercise_test_passing: Option<Seq<char>>,
    pub exercise_good_documentation: Option<Seq<char>>,
    pub exercise_good_structure: Option<Seq<char>>,
    pub total: Option<int>,
}

impl View for RowData {
    type V = RowView;

    open spec fn view(&self) -> RowView {
        RowView {
            name: self.name@,
            mail: self.mail@,
            week: self.week as int,
            attendance: opt_text(self.attendance),
            group_id: self.group_id@,
            ta: opt_text(self.ta),
            fa: opt_int(self.fa),
            fb: opt_int(self.fb),
            fc: opt_int(self.fc),
            fd: opt_int(self.fd),
            bonus_attempt: opt_int(self.bonus_attempt),
            bonus_answer_quality: opt_int(self.bonus_answer_quality),
            bonus_follow_up: opt_int(self.bonus_follow_up),
            exercise_submitted: opt_text(self.exercise_submitted),
            exercise_test_passing: opt_text(self.exercise_test_passing),
            exercise_good_documentation: opt_text(self.exercise_good_documentation),
            exercise_good_structure: opt_text(self.exercise_good_structure),
            total: opt_int(self.total),
        }
    }
}

/// The models of a sequence of rows, in order.
pub open spec fn views(rows: Seq<RowData>) -> Seq<RowView> {
    Seq::new(rows.len(), |i: int| rows[i]@)
}

/// Whether a row carries the given identity.
pub open spec fn has_key(row: RowView, name: Seq<char>, week: int) -> bool {
    row.name == name && row.week == week
}

impl RowData {
    /// A copy of this row, field for field.
    pub fn duplicate(&self) -> (r: RowData)
        ensures
            r == *self,
    {
        RowData {
            name: self.name.clone(),
            mail: self.mail.clone(),
            week: self.week,
            attendance: clone_opt_text(&self.attendance),
            group_id: self.group_id.clone(),
            ta: clone_opt_text(&self.ta),
            fa: self.fa,
            fb: self.fb,
            fc: self.fc,
            fd: self.fd,
            bonus_attempt: self.bonus_attempt,
            bonus_answer_quality: self.bonus_answer_quality,
            bonus_follow_up: self.bonus_follow_up,
            exercise_submitted: clone_opt_text(&self.exercise_submitted),
            exercise_test_passing: clone_opt_text(&self.exercise_test_passing),
            exercise_good_documentation: clone_opt_text(&self.exercise_good_documentation),
            exercise_good_structure: clone_opt_text(&self.exercise_good_structure),
            total: self.total,
        }
    }

    /// Whether this row is the record of `name` for `week`.
    pub fn is_for(&self, name: &String, week: i32) -> (r: bool)
        ensures
            r == has_key(self@, name@, week as int),
    {
        self.week == week && same_text(&self.name, name)
    }
}

/// A copy of a list of rows.
pub fn duplicate_rows(rows: &Vec<RowData>) -> (r: Vec<RowData>)
    ensures
        r@ == rows@,
{
    let mut out: Vec<RowData> = Vec::new();
    let mut i: usize = 0;
    while i < rows.len()
        invariant
            i <= rows.len(),
            out@ == rows@.take(i as int),
        decreases rows.len() - i,
    {
        out.push(rows[i].duplicate());
        assert(out@ =~= rows@.take(i + 1));
        i = i + 1;
    }
    assert(rows@.take(rows@.len() as int) =~= rows@);
    out
}

} // verus!
