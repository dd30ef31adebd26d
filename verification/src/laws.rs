//! What holds of the reconciliation as a whole: it is a function of the
//! roster and the submissions, and reconciling twice changes nothing more.

use crate::allocator::{is_absent, lemma_absent_placement, no_text, placement};
use crate::ordering::{insertion_point_from, lemma_insertion_point, sorted_desc};
use crate::reconcile::{
    derived_changed, derived_row, derived_rows, enriched, enrichment_changes, merged, prior_rows,
    reconciled, row_changed, seed_at,
};
use crate::row::{has_key, RowView};
use crate::submission::{enrichment, AssignmentView};
use crate::table::{
    first_index, lemma_first_index_from, lemma_first_index_is, lookup, unique_keys, upsert,
    upsert_all, week_rows,
};
use vstd::prelude::*;

verus! {

/// Every row of `s` is a row of `src`.
pub open spec fn drawn_from(s: Seq<RowView>, src: Seq<RowView>) -> bool {
    forall|i: int| 0 <= i < s.len() ==> src.contains(#[trigger] s[i])
}

/// After a row was inserted or updated, looking up its name and week finds
/// that row.
pub proof fn lemma_lookup_after_upsert(t: Seq<RowView>, row: RowView)
    ensures
        lookup(upsert(t, row), row.name, row.week) == Some(row),
{
    lemma_first_index_from(t, row.name, row.week, 0);
    let i = first_index(t, row.name, row.week);
    let u = upsert(t, row);
    assert forall|j: int| 0 <= j < i implies !has_key(#[trigger] u[j], row.name, row.week) by {
        assert(u[j] == t[j]);
    }
    lemma_first_index_is(u, row.name, row.week, 0, i);
}

/// Inserting or updating a row leaves the lookup of every other name and
/// week as it was.
pub proof fn lemma_lookup_elsewhere(t: Seq<RowView>, row: RowView, name: Seq<char>, week: int)
    requires
        !has_key(row, name, week),
    ensures
        lookup(upsert(t, row), name, week) == lookup(t, name, week),
{
    lemma_first_index_from(t, row.name, row.week, 0);
    lemma_first_index_from(t, name, week, 0);
    let i = first_index(t, row.name, row.week);
    let k = first_index(t, name, week);
    let u = upsert(t, row);
    if i < t.len() {
        assert(k != i);
        assert forall|j: int| 0 <= j < k implies !has_key(#[trigger] u[j], name, week) by {
            if j != i {
                assert(u[j] == t[j]);
            }
        }
        if k < t.len() {
            assert(u[k] == t[k]);
        }
        lemma_first_index_is(u, name, week, 0, k);
    } else {
        assert forall|j: int| 0 <= j < k implies !has_key(#[trigger] u[j], name, week) by {
            assert(u[j] == t[j]);
        }
        if k < t.len() {
            assert(u[k] == t[k]);
            lemma_first_index_is(u, name, week, 0, k);
        } else {
            assert forall|j: int| 0 <= j < u.len() implies !has_key(#[trigger] u[j], name, week) by {
                if j < t.len() {
                    assert(u[j] == t[j]);
                }
            }
            lemma_first_index_is(u, name, week, 0, u.len() as int);
        }
    }
}

/// After rows with pairwise different names and weeks were inserted or
/// updated, looking up any of them finds it.
pub proof fn lemma_lookup_after_upsert_all(t: Seq<RowView>, rows: Seq<RowView>, i: int)
    requires
        unique_keys(rows),
        0 <= i < rows.len(),
    ensures
        lookup(upsert_all(t, rows), rows[i].name, rows[i].week) == Some(rows[i]),
    decreases rows.len(),
{
    let head = rows.drop_last();
    let last = rows.last();
    if i == rows.len() - 1 {
        lemma_lookup_after_upsert(upsert_all(t, head), last);
    } else {
        assert(unique_keys(head)) by {
            assert forall|a: int, b: int| 0 <= a < b < head.len() implies !(#[trigger] head[a].name
                == #[trigger] head[b].name && head[a].week == head[b].week) by {
                assert(head[a] == rows[a] && head[b] == rows[b]);
            }
        }
        lemma_lookup_after_upsert_all(t, head, i);
        assert(head[i] == rows[i]);
        assert(!(rows[i].name == rows[rows.len() - 1].name && rows[i].week == rows[rows.len()
            - 1].week));
        lemma_lookup_elsewhere(upsert_all(t, head), last, rows[i].name, rows[i].week);
    }
}

/// Inserting or updating a row that the roster already finds under its name
/// and week leaves the roster as it is.
pub proof fn lemma_upsert_same(t: Seq<RowView>, row: RowView)
    requires
        lookup(t, row.name, row.week) == Some(row),
    ensures
        upsert(t, row) == t,
{
    lemma_first_index_from(t, row.name, row.week, 0);
    assert(upsert(t, row) =~= t);
}

/// Inserting or updating rows that the roster already finds leaves the
/// roster as it is.
pub proof fn lemma_upsert_all_same(t: Seq<RowView>, rows: Seq<RowView>)
    requires
        forall|i: int|
            0 <= i < rows.len() ==> lookup(t, (#[trigger] rows[i]).name, rows[i].week) == Some(
                rows[i],
            ),
    ensures
        upsert_all(t, rows) == t,
    decreases rows.len(),
{
    if rows.len() > 0 {
        let head = rows.drop_last();
        assert forall|i: int| 0 <= i < head.len() implies lookup(
            t,
            (#[trigger] head[i]).name,
            head[i].week,
        ) == Some(head[i]) by {
            assert(head[i] == rows[i]);
        }
        lemma_upsert_all_same(t, head);
        assert(rows.last() == rows[rows.len() - 1]);
        lemma_upsert_same(t, rows.last());
    }
}

/// Replacing a row of another week by a row of another week leaves the rows
/// of `week` as they were.
pub proof fn lemma_week_rows_update(t: Seq<RowView>, i: int, row: RowView, week: int)
    requires
        0 <= i < t.len(),
        t[i].week != week,
        row.week != week,
    ensures
        week_rows(t.update(i, row), week) == week_rows(t, week),
    decreases t.len(),
{
    reveal(Seq::filter);
    let u = t.update(i, row);
    if i == t.len() - 1 {
        assert(u.drop_last() =~= t.drop_last());
    } else {
        assert(u.drop_last() =~= t.drop_last().update(i, row));
        lemma_week_rows_update(t.drop_last(), i, row, week);
    }
}

/// Inserting or updating a row of another week leaves the rows of `week` as
/// they were.
pub proof fn lemma_week_rows_upsert(t: Seq<RowView>, row: RowView, week: int)
    requires
        row.week != week,
    ensures
        week_rows(upsert(t, row), week) == week_rows(t, week),
{
    lemma_first_index_from(t, row.name, row.week, 0);
    let i = first_index(t, row.name, row.week);
    if i < t.len() {
        lemma_week_rows_update(t, i, row, week);
    } else {
        reveal(Seq::filter);
        assert(t.push(row).drop_last() =~= t);
    }
}

/// Inserting or updating rows of other weeks leaves the rows of `week` as
/// they were.
pub proof fn lemma_week_rows_upsert_all(t: Seq<RowView>, rows: Seq<RowView>, week: int)
    requires
        forall|i: int| 0 <= i < rows.len() ==> (#[trigger] rows[i]).week != week,
    ensures
        week_rows(upsert_all(t, rows), week) == week_rows(t, week),
    decreases rows.len(),
{
    if rows.len() > 0 {
        let head = rows.drop_last();
        assert forall|i: int| 0 <= i < head.len() implies (#[trigger] head[i]).week != week by {
            assert(head[i] == rows[i]);
        }
        lemma_week_rows_upsert_all(t, head, week);
        lemma_week_rows_upsert(upsert_all(t, head), rows.last(), week);
    }
}

/// The rows of a week are rows of the roster, all of that week, and as free
/// of duplicates as the roster is.
pub proof fn lemma_week_rows_drawn(t: Seq<RowView>, week: int)
    ensures
        drawn_from(week_rows(t, week), t),
        forall|i: int| 0 <= i < week_rows(t, week).len() ==> (#[trigger] week_rows(t, week)[i]).week
            == week,
        unique_keys(t) ==> unique_keys(week_rows(t, week)),
    decreases t.len(),
{
    reveal(Seq::filter);
    let f = week_rows(t, week);
    if t.len() > 0 {
        let head = t.drop_last();
        let fh = week_rows(head, week);
        lemma_week_rows_drawn(head, week);
        assert forall|i: int| 0 <= i < f.len() implies t.contains(#[trigger] f[i]) by {
            if i < fh.len() {
                assert(f[i] == fh[i]);
                assert(head.contains(fh[i]));
                let k = choose|k: int| 0 <= k < head.len() && head[k] == fh[i];
                assert(t[k] == fh[i]);
            } else {
                assert(f[i] == t[t.len() - 1]);
            }
        }
        assert forall|i: int| 0 <= i < f.len() implies (#[trigger] f[i]).week == week by {
            if i < fh.len() {
                assert(f[i] == fh[i]);
            }
        }
        if unique_keys(t) {
            assert(unique_keys(head)) by {
                assert forall|a: int, b: int| 0 <= a < b < head.len() implies !(
                #[trigger] head[a].name == #[trigger] head[b].name && head[a].week
                    == head[b].week) by {
                    assert(head[a] == t[a] && head[b] == t[b]);
                }
            }
            assert forall|a: int, b: int| 0 <= a < b < f.len() implies !(#[trigger] f[a].name
                == #[trigger] f[b].name && f[a].week == f[b].week) by {
                assert(f[a] == fh[a]);
                if b < fh.len() {
                    assert(f[b] == fh[b]);
                } else {
                    assert(f[b] == t[t.len() - 1]);
                    assert(head.contains(fh[a]));
                    let k = choose|k: int| 0 <= k < head.len() && head[k] == fh[a];
                    assert(t[k] == fh[a]);
                    assert(!(t[k].name == t[t.len() - 1].name && t[k].week == t[t.len()
                        - 1].week));
                }
            }
        }
    }
}

/// Sorting neither adds a row nor brings in a duplicate.
pub proof fn lemma_sorted_drawn(s: Seq<RowView>)
    ensures
        sorted_desc(s).len() == s.len(),
        drawn_from(sorted_desc(s), s),
        unique_keys(s) ==> unique_keys(sorted_desc(s)),
    decreases s.len(),
{
    if s.len() > 0 {
        let head = s.drop_last();
        let x = s.last();
        let sh = sorted_desc(head);
        lemma_sorted_drawn(head);
        lemma_insertion_point(sh, x, 0);
        let p = insertion_point_from(sh, x, 0);
        let r = sorted_desc(s);
        assert(r == sh.insert(p, x));
        assert forall|i: int| 0 <= i < r.len() implies s.contains(#[trigger] r[i]) by {
            if i == p {
                assert(r[i] == s[s.len() - 1]);
            } else {
                let q = if i < p {
                    i
                } else {
                    i - 1
                };
                assert(r[i] == sh[q]);
                assert(head.contains(sh[q]));
                let k = choose|k: int| 0 <= k < head.len() && head[k] == sh[q];
                assert(s[k] == sh[q]);
            }
        }
        if unique_keys(s) {
            assert(unique_keys(head)) by {
                assert forall|a: int, b: int| 0 <= a < b < head.len() implies !(
                #[trigger] head[a].name == #[trigger] head[b].name && head[a].week
                    == head[b].week) by {
                    assert(head[a] == s[a] && head[b] == s[b]);
                }
            }
            assert forall|q: int| 0 <= q < sh.len() implies !(#[trigger] sh[q].name == x.name
                && sh[q].week == x.week) by {
                assert(head.contains(sh[q]));
                let k = choose|k: int| 0 <= k < head.len() && head[k] == sh[q];
                assert(s[k] == sh[q]);
                assert(!(s[k].name == s[s.len() - 1].name && s[k].week == s[s.len() - 1].week));
            }
            assert forall|a: int, b: int| 0 <= a < b < r.len() implies !(#[trigger] r[a].name
                == #[trigger] r[b].name && r[a].week == r[b].week) by {
                let qa = if a < p {
                    a
                } else {
                    a - 1
                };
                let qb = if b < p {
                    b
                } else {
                    b - 1
                };
                if a == p {
                    assert(r[b] == sh[qb]);
                    assert(!(sh[qb].name == x.name && sh[qb].week == x.week));
                } else if b == p {
                    assert(r[a] == sh[qa]);
                    assert(!(sh[qa].name == x.name && sh[qa].week == x.week));
                } else {
                    assert(r[a] == sh[qa] && r[b] == sh[qb]);
                    assert(!(sh[qa].name == sh[qb].name && sh[qa].week == sh[qb].week));
                }
            }
        }
    }
}

/// The rows worked through for a week all belong to the week before, and
/// where the roster is free of duplicates no two of them share a name.
pub proof fn lemma_prior_rows_names(t: Seq<RowView>, week: int)
    requires
        unique_keys(t),
    ensures
        forall|i: int|
            0 <= i < prior_rows(t, week).len() ==> (#[trigger] prior_rows(t, week)[i]).week == week
                - 1,
        forall|i: int, j: int|
            0 <= i < j < prior_rows(t, week).len() ==> (#[trigger] prior_rows(t, week)[i]).name != (
            #[trigger] prior_rows(t, week)[j]).name,
{
    let w = week_rows(t, week - 1);
    let p = prior_rows(t, week);
    lemma_week_rows_drawn(t, week - 1);
    lemma_sorted_drawn(w);
    assert forall|i: int| 0 <= i < p.len() implies (#[trigger] p[i]).week == week - 1 by {
        assert(w.contains(p[i]));
        let k = choose|k: int| 0 <= k < w.len() && w[k] == p[i];
        assert(w[k].week == week - 1);
    }
    assert forall|i: int, j: int| 0 <= i < j < p.len() implies (#[trigger] p[i]).name != (
    #[trigger] p[j]).name by {
        assert(!(p[i].name == p[j].name && p[i].week == p[j].week));
    }
}

/// Each derived row carries the name of the row it was derived from and the
/// target week.
pub proof fn lemma_derived_key(
    t: Seq<RowView>,
    prior: Seq<RowView>,
    i: int,
    week: int,
    index: Map<Seq<char>, AssignmentView>,
    pool: Seq<Seq<char>>,
)
    ensures
        derived_row(t, prior, i, week, index, pool).name == prior[i].name,
        derived_row(t, prior, i, week, index, pool).mail == prior[i].mail,
        derived_row(t, prior, i, week, index, pool).week == week,
        derived_row(t, prior, i, week, index, pool).group_id == placement(
            prior,
            i,
            week,
            pool,
        ).group_id,
        derived_row(t, prior, i, week, index, pool).ta == placement(prior, i, week, pool).ta,
{
}

/// A row derived from a row marked absent is in group 6 with Setu, whatever
/// its position, the week, the pool, the roster and the submissions.
pub proof fn lemma_absent_row_placed(
    t: Seq<RowView>,
    prior: Seq<RowView>,
    i: int,
    week: int,
    index: Map<Seq<char>, AssignmentView>,
    pool: Seq<Seq<char>>,
)
    requires
        0 <= i < prior.len(),
        is_absent(prior[i]),
    ensures
        derived_row(t, prior, i, week, index, pool).group_id == seq![
            'G',
            'r',
            'o',
            'u',
            'p',
            ' ',
            '6',
        ],
        derived_row(t, prior, i, week, index, pool).ta == Some(seq!['S', 'e', 't', 'u']),
{
    lemma_absent_placement(prior, i, week, pool);
}

/// Where the roster already holds a row for the name and the week, the
/// derived row has the attendance, the grades, the bonus points, the marks
/// for documentation and structure and the total of that row, and, unless a
/// submission speaks of it, its exercise marks too. Where the roster holds
/// none, the derived row has "no" and 0 throughout, and the derivation
/// counts as a change.
pub proof fn lemma_merge_law(
    t: Seq<RowView>,
    prior: Seq<RowView>,
    i: int,
    week: int,
    index: Map<Seq<char>, AssignmentView>,
    pool: Seq<Seq<char>>,
)
    requires
        0 <= i < prior.len(),
    ensures
        ({
            let d = derived_row(t, prior, i, week, index, pool);
            let said = enrichment(prior[i].name, week, index);
            match lookup(t, prior[i].name, week) {
                Some(e) => {
                    &&& d.attendance == e.attendance
                    &&& d.fa == e.fa
                    &&& d.fb == e.fb
                    &&& d.fc == e.fc
                    &&& d.fd == e.fd
                    &&& d.bonus_attempt == e.bonus_attempt
                    &&& d.bonus_answer_quality == e.bonus_answer_quality
                    &&& d.bonus_follow_up == e.bonus_follow_up
                    &&& d.exercise_good_documentation == e.exercise_good_documentation
                    &&& d.exercise_good_structure == e.exercise_good_structure
                    &&& d.total == e.total
                    &&& said is None ==> d.exercise_submitted == e.exercise_submitted
                        && d.exercise_test_passing == e.exercise_test_passing && !row_changed(
                        t,
                        prior,
                        i,
                        week,
                        index,
                        pool,
                    )
                },
                None => {
                    &&& d.attendance == Some(no_text())
                    &&& d.fa == Some(0int)
                    &&& d.fb == Some(0int)
                    &&& d.fc == Some(0int)
                    &&& d.fd == Some(0int)
                    &&& d.bonus_attempt == Some(0int)
                    &&& d.bonus_answer_quality == Some(0int)
                    &&& d.bonus_follow_up == Some(0int)
                    &&& d.exercise_good_documentation == Some(no_text())
                    &&& d.exercise_good_structure == Some(no_text())
                    &&& d.total == Some(0int)
                    &&& said is None ==> d.exercise_submitted == Some(no_text())
                        && d.exercise_test_passing == Some(no_text())
                    &&& row_changed(t, prior, i, week, index, pool)
                },
            }
        }),
{
}

/// Where the participant has a submission for the target week, the derived
/// row says that the exercise was handed in, and that its tests pass
/// exactly where "100" points were awarded. Where the participant has none,
/// or one for another week, the derived row is the merged row, untouched.
pub proof fn lemma_enrichment_law(
    t: Seq<RowView>,
    prior: Seq<RowView>,
    i: int,
    week: int,
    index: Map<Seq<char>, AssignmentView>,
    pool: Seq<Seq<char>>,
)
    requires
        0 <= i < prior.len(),
    ensures
        ({
            let d = derived_row(t, prior, i, week, index, pool);
            let name = prior[i].name;
            let base = merged(seed_at(prior, i, week, pool), lookup(t, name, week));
            if index.contains_key(name) && index[name].week_pattern == Some(week) {
                &&& d.exercise_submitted == Some(seq!['y', 'e', 's'])
                &&& index[name].points_awarded == seq!['1', '0', '0'] ==> d.exercise_test_passing
                    == Some(seq!['y', 'e', 's'])
                &&& index[name].points_awarded != seq!['1', '0', '0'] ==> d.exercise_test_passing
                    == Some(seq!['n', 'o'])
            } else {
                d == base
            }
        }),
{
}

/// The rows passed through for a week are exactly the rows of the roster
/// recorded for that week, each as it stands and in the roster's order: the
/// k-th of them is the k-th such row of the roster.
pub proof fn lemma_week_rows_law(t: Seq<RowView>, week: int)
    ensures
        forall|i: int|
            0 <= i < week_rows(t, week).len() ==> (#[trigger] week_rows(t, week)[i]).week == week
                && t.contains(week_rows(t, week)[i]),
        forall|k: int|
            0 <= k < t.len() && (#[trigger] t[k]).week == week ==> week_rows(t, week).contains(
                t[k],
            ),
        week_rows(t, week).len() <= t.len(),
        t.len() == 0 ==> week_rows(t, week).len() == 0,
{
    lemma_week_rows_drawn(t, week);
    let pred = |r: RowView| r.week == week;
    t.filter_lemma(pred);
    assert forall|k: int| 0 <= k < t.len() && (#[trigger] t[k]).week == week implies week_rows(
        t,
        week,
    ).contains(t[k]) by {
        assert(pred(t[k]));
    }
    t.lemma_filter_len(pred);
}

/// Reconciliation is a function of what the roster and the index hold: two
/// rosters with the same rows, two indexes with the same entries and two
/// pools with the same names give the same derived rows, the same change
/// flag and the same roster afterwards.
pub proof fn lemma_reconcile_deterministic(
    t1: Seq<RowView>,
    t2: Seq<RowView>,
    week: int,
    index1: Map<Seq<char>, AssignmentView>,
    index2: Map<Seq<char>, AssignmentView>,
    pool1: Seq<Seq<char>>,
    pool2: Seq<Seq<char>>,
)
    requires
        week >= 1,
        t1 =~= t2,
        index1 =~= index2,
        pool1 =~= pool2,
    ensures
        derived_rows(t1, week, index1, pool1) == derived_rows(t2, week, index2, pool2),
        derived_changed(t1, week, index1, pool1) == derived_changed(t2, week, index2, pool2),
        reconciled(t1, week, index1, pool1) == reconciled(t2, week, index2, pool2),
{
}

/// Reconciling a week a second time, with the same submissions, derives the
/// same rows as the first time, reports no change and leaves the roster as
/// the first reconciliation left it.
pub proof fn lemma_reconcile_idempotent(
    t: Seq<RowView>,
    week: int,
    index: Map<Seq<char>, AssignmentView>,
    pool: Seq<Seq<char>>,
)
    requires
        week >= 1,
        unique_keys(t),
    ensures
        derived_rows(reconciled(t, week, index, pool), week, index, pool) == derived_rows(
            t,
            week,
            index,
            pool,
        ),
        !derived_changed(reconciled(t, week, index, pool), week, index, pool),
        reconciled(reconciled(t, week, index, pool), week, index, pool) == reconciled(
            t,
            week,
            index,
            pool,
        ),
{
    let prior = prior_rows(t, week);
    let d = derived_rows(t, week, index, pool);
    let t1 = reconciled(t, week, index, pool);
    lemma_prior_rows_names(t, week);
    assert forall|i: int| 0 <= i < d.len() implies (#[trigger] d[i]).week != week - 1 by {
        lemma_derived_key(t, prior, i, week, index, pool);
    }
    lemma_week_rows_upsert_all(t, d, week - 1);
    assert(prior_rows(t1, week) == prior);
    assert(unique_keys(d)) by {
        assert forall|a: int, b: int| 0 <= a < b < d.len() implies !(#[trigger] d[a].name
            == #[trigger] d[b].name && d[a].week == d[b].week) by {
            lemma_derived_key(t, prior, a, week, index, pool);
            lemma_derived_key(t, prior, b, week, index, pool);
            assert(prior[a].name != prior[b].name);
        }
    }
    assert forall|i: int| 0 <= i < prior.len() implies #[trigger] derived_row(
        t1,
        prior,
        i,
        week,
        index,
        pool,
    ) == d[i] && !row_changed(t1, prior, i, week, index, pool) by {
        lemma_derived_key(t, prior, i, week, index, pool);
        lemma_lookup_after_upsert_all(t, d, i);
        let seed = seed_at(prior, i, week, pool);
        assert(lookup(t1, seed.name, week) == Some(d[i]));
        let base = merged(seed, Some(d[i]));
        assert(base == d[i]);
        let e = enrichment(base.name, week, index);
        let first_base = merged(seed, lookup(t, seed.name, week));
        assert(d[i] == enriched(first_base, enrichment(first_base.name, week, index)));
        assert(first_base.name == base.name);
        assert(enriched(base, e) == d[i]);
        assert(!enrichment_changes(base, e));
    }
    assert(derived_rows(t1, week, index, pool) =~= d);
    assert forall|i: int| 0 <= i < d.len() implies lookup(t1, (#[trigger] d[i]).name, d[i].week)
        == Some(d[i]) by {
        lemma_lookup_after_upsert_all(t, d, i);
    }
    lemma_upsert_all_same(t1, d);
    assert forall|i: int| 0 <= i < prior.len() implies !#[trigger] row_changed(
        t1,
        prior,
        i,
        week,
        index,
        pool,
    ) by {
        assert(derived_row(t1, prior, i, week, index, pool) == d[i]);
    }
}

/// Reconciling a week leaves the rows of every other week as they were, in
/// number, in content and in order.
pub proof fn lemma_reconcile_keeps_other_weeks(
    t: Seq<RowView>,
    week: int,
    index: Map<Seq<char>, AssignmentView>,
    pool: Seq<Seq<char>>,
    other: int,
)
    requires
        other != week,
    ensures
        week_rows(reconciled(t, week, index, pool), other) == week_rows(t, other),
{
    let prior = prior_rows(t, week);
    let d = derived_rows(t, week, index, pool);
    assert forall|i: int| 0 <= i < d.len() implies (#[trigger] d[i]).week != other by {
        lemma_derived_key(t, prior, i, week, index, pool);
    }
    lemma_week_rows_upsert_all(t, d, other);
}

} // verus!
