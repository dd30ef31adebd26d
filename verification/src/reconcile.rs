//! The weekly reconciliation: the roster of a week is derived from the
//! roster of the week before, merged with what is already recorded for the
//! week, and enriched from the submissions.

use crate::allocator::{allocate, no_text, placement, texts, Placement, PlacementView};
use crate::ordering::{sort_rows, sorted_desc};
use crate::request::{plan_week, week_zero_rows, RosterError, WeekPlan};
use crate::row::{views, RowData, RowView};
use crate::submission::{
    by_participant, enrich, enrichment, index_submissions, opt_enrichment, resolved_views,
    AssignmentView, Enrichment, EnrichmentView, ResolvedSubmission, SubmissionIndex,
};
use crate::table::{lookup, upsert_all, week_rows, Table};
use crate::text::{clone_opt_text, same_opt_text};
use vstd::prelude::*;
use vstd::string::*;

verus! {

/// The rows of the week before `week`, in the order in which they are
/// worked through.
pub open spec fn prior_rows(t: Seq<RowView>, week: int) -> Seq<RowView> {
    sorted_desc(week_rows(t, week - 1))
}

/// A row of the week before, moved to the target week with its placement.
pub open spec fn seeded(row: RowView, place: PlacementView, week: int) -> RowView {
    RowView { week: week, group_id: place.group_id, ta: place.ta, ..row }
}

/// The seed with the attendance, the grades, the bonus points, the exercise
/// marks and the total of the row already recorded for the week; without
/// such a row, with "no" and 0 throughout.
pub open spec fn merged(seed: RowView, existing: Option<RowView>) -> RowView {
    match existing {
        Some(e) => RowView {
            attendance: e.attendance,
            fa: e.fa,
            fb: e.fb,
            fc: e.fc,
            fd: e.fd,
            bonus_attempt: e.bonus_attempt,
            bonus_answer_quality: e.bonus_answer_quality,
            bonus_follow_up: e.bonus_follow_up,
            exercise_submitted: e.exercise_submitted,
            exercise_test_passing: e.exercise_test_passing,
            exercise_good_documentation: e.exercise_good_documentation,
            exercise_good_structure: e.exercise_good_structure,
            total: e.total,
            ..seed
        },
        None => RowView {
            attendance: Some(no_text()),
            fa: Some(0int),
            fb: Some(0int),
            fc: Some(0int),
            fd: Some(0int),
            bonus_attempt: Some(0int),
            bonus_answer_quality: Some(0int),
            bonus_follow_up: Some(0int),
            exercise_submitted: Some(no_text()),
            exercise_test_passing: Some(no_text()),
            exercise_good_documentation: Some(no_text()),
            exercise_good_structure: Some(no_text()),
            total: Some(0int),
            ..seed
        },
    }
}

/// The submission says something that the row does not yet hold.
pub open spec fn enrichment_changes(row: RowView, e: Option<EnrichmentView>) -> bool {
    match e {
        Some(x) => row.exercise_submitted != Some(x.exercise_submitted)
            || row.exercise_test_passing != Some(x.exercise_test_passing),
        None => false,
    }
}

/// The row with what the submission says about its exercise; a row that no
/// submission speaks of is left as it is.
pub open spec fn enriched(row: RowView, e: Option<EnrichmentView>) -> RowView {
    match e {
        Some(x) => RowView {
            exercise_submitted: Some(x.exercise_submitted),
            exercise_test_passing: Some(x.exercise_test_passing),
            ..row
        },
        None => row,
    }
}

/// The seed of the row at position `i` of `prior`.
pub open spec fn seed_at(prior: Seq<RowView>, i: int, week: int, pool: Seq<Seq<char>>) -> RowView {
    seeded(prior[i], placement(prior, i, week, pool), week)
}

/// The row derived for `week` from the row at position `i` of `prior`,
/// given the roster `t`.
pub open spec fn derived_row(
    t: Seq<RowView>,
    prior: Seq<RowView>,
    i: int,
    week: int,
    index: Map<Seq<char>, AssignmentView>,
    pool: Seq<Seq<char>>,
) -> RowView {
    let seed = seed_at(prior, i, week, pool);
    let base = merged(seed, lookup(t, seed.name, week));
    enriched(base, enrichment(base.name, week, index))
}

/// Deriving the row at position `i` brings something new: the roster held
/// no row for it yet, or the submission says something that the recorded
/// row does not hold.
pub open spec fn row_changed(
    t: Seq<RowView>,
    prior: Seq<RowView>,
    i: int,
    week: int,
    index: Map<Seq<char>, AssignmentView>,
    pool: Seq<Seq<char>>,
) -> bool {
    let seed = seed_at(prior, i, week, pool);
    let base = merged(seed, lookup(t, seed.name, week));
    lookup(t, seed.name, week) is None || enrichment_changes(
        base,
        enrichment(base.name, week, index),
    )
}

/// The roster of `week` as derived from the roster `t`.
pub open spec fn derived_rows(
    t: Seq<RowView>,
    week: int,
    index: Map<Seq<char>, AssignmentView>,
    pool: Seq<Seq<char>>,
) -> Seq<RowView> {
    let prior = prior_rows(t, week);
    Seq::new(prior.len(), |i: int| derived_row(t, prior, i, week, index, pool))
}

/// Deriving the roster of `week` from `t` brings something new.
pub open spec fn derived_changed(
    t: Seq<RowView>,
    week: int,
    index: Map<Seq<char>, AssignmentView>,
    pool: Seq<Seq<char>>,
) -> bool {
    let prior = prior_rows(t, week);
    exists|i: int| 0 <= i < prior.len() && #[trigger] row_changed(t, prior, i, week, index, pool)
}

/// The roster after the derived rows of `week` were inserted or updated.
pub open spec fn reconciled(
    t: Seq<RowView>,
    week: int,
    index: Map<Seq<char>, AssignmentView>,
    pool: Seq<Seq<char>>,
) -> Seq<RowView> {
    upsert_all(t, derived_rows(t, week, index, pool))
}

/// Moves a row of the week before to the target week, with its placement.
pub fn seed_row(row: &RowData, place: &Placement, week: i32) -> (r: RowData)
    ensures
        r@ == seeded(row@, place@, week as int),
{
    let mut seed = row.duplicate();
    seed.week = week;
    seed.group_id = place.group_id.clone();
    seed.ta = clone_opt_text(&place.ta);
    seed
}

/// Carries over what is already recorded for the week, or starts the row
/// with "no" and 0 throughout where nothing is recorded. The flag says that
/// nothing was recorded.
pub fn merge_row(seed: RowData, existing: Option<&RowData>) -> (r: (RowData, bool))
    ensures
        r.0@ == merged(
            seed@,
            match existing {
                Some(e) => Some(e@),
                None => None,
            },
        ),
        r.1 == (existing is None),
{
    let mut row = seed;
    match existing {
        Some(e) => {
            row.attendance = clone_opt_text(&e.attendance);
            row.fa = e.fa;
            row.fb = e.fb;
            row.fc = e.fc;
            row.fd = e.fd;
            row.bonus_attempt = e.bonus_attempt;
            row.bonus_answer_quality = e.bonus_answer_quality;
            row.bonus_follow_up = e.bonus_follow_up;
            row.exercise_submitted = clone_opt_text(&e.exercise_submitted);
            row.exercise_test_passing = clone_opt_text(&e.exercise_test_passing);
            row.exercise_good_documentation = clone_opt_text(&e.exercise_good_documentation);
            row.exercise_good_structure = clone_opt_text(&e.exercise_good_structure);
            row.total = e.total;
            (row, false)
        },
        None => {
            proof {
                reveal_strlit("no");
                assert("no"@ =~= no_text());
            }
            row.attendance = Some(String::from_str("no"));
            row.fa = Some(0);
            row.fb = Some(0);
            row.fc = Some(0);
            row.fd = Some(0);
            row.bonus_attempt = Some(0);
            row.bonus_answer_quality = Some(0);
            row.bonus_follow_up = Some(0);
            row.exercise_submitted = Some(String::from_str("no"));
            row.exercise_test_passing = Some(String::from_str("no"));
            row.exercise_good_documentation = Some(String::from_str("no"));
            row.exercise_good_structure = Some(String::from_str("no"));
            row.total = Some(0);
            (row, true)
        },
    }
}

/// Writes into the row what the submission says about its exercise. The
/// flag says that the row did not hold it yet; a row that no submission
/// speaks of is returned as it is.
pub fn apply_enrichment(row: RowData, e: Option<Enrichment>) -> (r: (RowData, bool))
    ensures
        r.0@ == enriched(row@, opt_enrichment(e)),
        r.1 == enrichment_changes(row@, opt_enrichment(e)),
{
    match e {
        Some(x) => {
            let submitted = Some(x.exercise_submitted);
            let passing = Some(x.exercise_test_passing);
            if !same_opt_text(&row.exercise_submitted, &submitted) || !same_opt_text(
                &row.exercise_test_passing,
                &passing,
            ) {
                let mut out = row;
                out.exercise_submitted = submitted;
                out.exercise_test_passing = passing;
                (out, true)
            } else {
                (row, false)
            }
        },
        None => (row, false),
    }
}

/// The outcome of a reconciliation.
#[derive(Clone, Debug, PartialEq, Eq)]
pub struct Reconciliation {
    /// The rows derived for the week, in the order worked through.
    pub rows: Vec<RowData>,
    /// Whether any derived row is new or differs from what was recorded, so
    /// that the roster has to be written to storage.
    pub changed: bool,
}

/// The rows of the week before `week`, sorted for the allocator.
pub fn prior_week_rows(table: &Table, week: i32) -> (r: Vec<RowData>)
    requires
        week >= 1,
    ensures
        views(r@) == prior_rows(table@, week as int),
{
    let rows = table.rows_for_week(week - 1);
    sort_rows(&rows)
}

/// Derives the roster of `week` from the roster of the week before, without
/// touching the table.
///
/// `pool` holds the assistants that take present students and must not be
/// empty.
pub fn derive_week(table: &Table, week: i32, index: &SubmissionIndex, pool: &Vec<String>) -> (out:
    Reconciliation)
    requires
        week >= 1,
        pool@.len() > 0,
    ensures
        views(out.rows@) == derived_rows(table@, week as int, index@, texts(pool@)),
        out.changed == derived_changed(table@, week as int, index@, texts(pool@)),
{
    let prior = prior_week_rows(table, week);
    let places = allocate(&prior, week, pool);
    let ghost t = table@;
    let ghost p = views(prior@);
    let ghost w = week as int;
    let ghost ix = index@;
    let ghost tas = texts(pool@);
    let mut rows: Vec<RowData> = Vec::new();
    let mut changed = false;
    let mut i: usize = 0;
    while i < prior.len()
        invariant
            i <= prior.len(),
            places@.len() == prior@.len(),
            t == table@,
            p == views(prior@),
            p == prior_rows(t, w),
            w == week as int,
            ix == index@,
            tas == texts(pool@),
            crate::allocator::placement_views(places@) == crate::allocator::placements(p, w, tas),
            rows@.len() == i,
            forall|j: int| 0 <= j < i ==> (#[trigger] rows@[j])@ == derived_row(t, p, j, w, ix, tas),
            changed == (exists|j: int| 0 <= j < i && #[trigger] row_changed(t, p, j, w, ix, tas)),
        decreases prior.len() - i,
    {
        assert(p[i as int] == prior@[i as int]@);
        assert(crate::allocator::placement_views(places@)[i as int] == places@[i as int]@);
        assert(places@[i as int]@ == placement(p, i as int, w, tas));
        let seed = seed_row(&prior[i], &places[i], week);
        assert(seed@ == seed_at(p, i as int, w, tas));
        let existing = table.find(&seed.name, week);
        let (base, fresh) = merge_row(seed, existing);
        let found = enrich(&base.name, week, index);
        let (row, touched) = apply_enrichment(base, found);
        assert(row@ == derived_row(t, p, i as int, w, ix, tas));
        assert((fresh || touched) == row_changed(t, p, i as int, w, ix, tas));
        if fresh || touched {
            changed = true;
        }
        rows.push(row);
        i = i + 1;
    }
    assert(views(rows@) =~= derived_rows(t, w, ix, tas));
    Reconciliation { rows, changed }
}

/// Reconciles the roster of `week` against an index of submissions: derives
/// the rows of the week and inserts or updates each of them in the table.
pub fn reconcile_indexed(
    table: &mut Table,
    week: i32,
    index: &SubmissionIndex,
    pool: &Vec<String>,
) -> (out: Reconciliation)
    requires
        week >= 1,
        pool@.len() > 0,
    ensures
        views(out.rows@) == derived_rows(old(table)@, week as int, index@, texts(pool@)),
        out.changed == derived_changed(old(table)@, week as int, index@, texts(pool@)),
        final(table)@ == reconciled(old(table)@, week as int, index@, texts(pool@)),
        crate::table::unique_keys(old(table)@) ==> crate::table::unique_keys(final(table)@),
{
    let out = derive_week(table, week, index, pool);
    table.insert_or_update_all(&out.rows);
    out
}

/// Reconciles the roster of `week`.
///
/// The submissions that were handed in and resolved to a participant are
/// indexed by participant. The rows of the week before are sorted, given a
/// group and an assistant, merged with what is recorded for `week` and
/// enriched from the submissions. Every derived row is inserted or updated
/// in the table, and the outcome says whether anything is new.
pub fn reconcile(
    table: &mut Table,
    week: i32,
    submissions: &Vec<ResolvedSubmission>,
    pool: &Vec<String>,
) -> (out: Reconciliation)
    requires
        week >= 1,
        pool@.len() > 0,
    ensures
        views(out.rows@) == derived_rows(
            old(table)@,
            week as int,
            by_participant(resolved_views(submissions@)),
            texts(pool@),
        ),
        out.changed == derived_changed(
            old(table)@,
            week as int,
            by_participant(resolved_views(submissions@)),
            texts(pool@),
        ),
        final(table)@ == reconciled(
            old(table)@,
            week as int,
            by_participant(resolved_views(submissions@)),
            texts(pool@),
        ),
        crate::table::unique_keys(old(table)@) ==> crate::table::unique_keys(final(table)@),
{
    let index = index_submissions(submissions);
    reconcile_indexed(table, week, &index, pool)
}

/// Answers a request for the roster of `week`.
///
/// A negative week is invalid. Week 0 is passed through: the rows recorded
/// for it are returned as they are, nothing is derived and the table stays
/// as it is. A week from 1 on is reconciled.
pub fn reconcile_week(
    table: &mut Table,
    week: i32,
    submissions: &Vec<ResolvedSubmission>,
    pool: &Vec<String>,
) -> (r: Result<Reconciliation, RosterError>)
    requires
        pool@.len() > 0,
    ensures
        week >= 0 <==> r is Ok,
        week < 0 ==> r == Err::<Reconciliation, RosterError>(RosterError::InvalidWeek)
            && final(table)@ == old(table)@,
        week == 0 ==> r is Ok && views(r->Ok_0.rows@) == week_rows(old(table)@, 0)
            && !r->Ok_0.changed && final(table)@ == old(table)@,
        week >= 1 ==> r is Ok && views(r->Ok_0.rows@) == derived_rows(
            old(table)@,
            week as int,
            by_participant(resolved_views(submissions@)),
            texts(pool@),
        ) && r->Ok_0.changed == derived_changed(
            old(table)@,
            week as int,
            by_participant(resolved_views(submissions@)),
            texts(pool@),
        ) && final(table)@ == reconciled(
            old(table)@,
            week as int,
            by_participant(resolved_views(submissions@)),
            texts(pool@),
        ),
        crate::table::unique_keys(old(table)@) ==> crate::table::unique_keys(final(table)@),
{
    match plan_week(week) {
        WeekPlan::Refuse => Err(RosterError::InvalidWeek),
        WeekPlan::Passthrough => Ok(Reconciliation { rows: week_zero_rows(table), changed: false }),
        WeekPlan::Reconcile => Ok(reconcile(table, week, submissions, pool)),
    }
}

} // verus!
