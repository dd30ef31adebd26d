//! The roster: an ordered collection of rows, at most one per name and week.

use crate::row::{has_key, views, RowData, RowView};
use crate::text::same_text;
use vstd::prelude::*;

verus! {

/// No two rows of `t` share a name and a week.
pub open spec fn unique_keys(t: Seq<RowView>) -> bool {
    forall|i: int, j: int|
        0 <= i < j < t.len() ==> !(#[trigger] t[i].name == #[trigger] t[j].name && t[i].week
            == t[j].week)
}

/// The least index at or after `from` whose row carries the identity, or the
/// length of `t` where there is none.
pub open spec fn first_index_from(t: Seq<RowView>, name: Seq<char>, week: int, from: int) -> int
    decreases t.len() - from,
{
    if from < 0 || from >= t.len() {
        t.len() as int
    } else if has_key(t[from], name, week) {
        from
    } else {
        first_index_from(t, name, week, from + 1)
    }
}

/// The index of the first row with the identity, or the length of `t`.
pub open spec fn first_index(t: Seq<RowView>, name: Seq<char>, week: int) -> int {
    first_index_from(t, name, week, 0)
}

/// The first row recorded for `name` in `week`, if any.
pub open spec fn lookup(t: Seq<RowView>, name: Seq<char>, week: int) -> Option<RowView> {
    let i = first_index(t, name, week);
    if i < t.len() {
        Some(t[i])
    } else {
        None
    }
}

/// `t` after `row` was inserted or updated: the first row with the same
/// identity is replaced in place; without one, `row` is appended.
pub open spec fn upsert(t: Seq<RowView>, row: RowView) -> Seq<RowView> {
    let i = first_index(t, row.name, row.week);
    if i < t.len() {
        t.update(i, row)
    } else {
        t.push(row)
    }
}

/// `t` after each of `rows` was inserted or updated, in order.
pub open spec fn upsert_all(t: Seq<RowView>, rows: Seq<RowView>) -> Seq<RowView>
    decreases rows.len(),
{
    if rows.len() == 0 {
        t
    } else {
        upsert(upsert_all(t, rows.drop_last()), rows.last())
    }
}

/// The rows of `t` recorded for `week`, in the order of `t`.
pub open spec fn week_rows(t: Seq<RowView>, week: int) -> Seq<RowView> {
    t.filter(|r: RowView| r.week == week)
}

/// Whether a row is the one a deletion request names: same name, same mail,
/// same week.
pub open spec fn deletion_target(row: RowView, wanted: RowView) -> bool {
    row.name == wanted.name && row.mail == wanted.mail && row.week == wanted.week
}

/// The least index at or after `from` whose row a deletion of `wanted`
/// removes, or the length of `t`.
pub open spec fn first_target_from(t: Seq<RowView>, wanted: RowView, from: int) -> int
    decreases t.len() - from,
{
    if from < 0 || from >= t.len() {
        t.len() as int
    } else if deletion_target(t[from], wanted) {
        from
    } else {
        first_target_from(t, wanted, from + 1)
    }
}

/// `t` after the deletion of `wanted`: its first matching row is gone, and
/// without a match `t` is unchanged.
pub open spec fn without(t: Seq<RowView>, wanted: RowView) -> Seq<RowView> {
    let i = first_target_from(t, wanted, 0);
    if i < t.len() {
        t.remove(i)
    } else {
        t
    }
}

/// What `first_index_from` finds: the index it returns holds the identity,
/// and no index between `from` and it does.
pub proof fn lemma_first_index_from(t: Seq<RowView>, name: Seq<char>, week: int, from: int)
    requires
        0 <= from <= t.len(),
    ensures
        from <= first_index_from(t, name, week, from) <= t.len(),
        first_index_from(t, name, week, from) < t.len() ==> has_key(
            t[first_index_from(t, name, week, from)],
            name,
            week,
        ),
        forall|j: int|
            from <= j < first_index_from(t, name, week, from) ==> !has_key(
                #[trigger] t[j],
                name,
                week,
            ),
    decreases t.len() - from,
{
    if from < t.len() && !has_key(t[from], name, week) {
        lemma_first_index_from(t, name, week, from + 1);
    }
}

/// An index that holds the identity and is preceded from `from` on by none
/// that does is the one `first_index_from` returns.
pub proof fn lemma_first_index_is(t: Seq<RowView>, name: Seq<char>, week: int, from: int, at: int)
    requires
        0 <= from <= at <= t.len(),
        at < t.len() ==> has_key(t[at], name, week),
        forall|j: int| from <= j < at ==> !has_key(#[trigger] t[j], name, week),
    ensures
        first_index_from(t, name, week, from) == at,
    decreases at - from,
{
    if from < at {
        lemma_first_index_is(t, name, week, from + 1, at);
    }
}

/// What `first_target_from` finds, as for `first_index_from`.
pub proof fn lemma_first_target_from(t: Seq<RowView>, wanted: RowView, from: int)
    requires
        0 <= from <= t.len(),
    ensures
        from <= first_target_from(t, wanted, from) <= t.len(),
        first_target_from(t, wanted, from) < t.len() ==> deletion_target(
            t[first_target_from(t, wanted, from)],
            wanted,
        ),
        forall|j: int|
            from <= j < first_target_from(t, wanted, from) ==> !deletion_target(
                #[trigger] t[j],
                wanted,
            ),
    decreases t.len() - from,
{
    if from < t.len() && !deletion_target(t[from], wanted) {
        lemma_first_target_from(t, wanted, from + 1);
    }
}

/// The roster across all weeks.
#[derive(Clone, Debug, PartialEq, Eq)]
pub struct Table {
    pub rows: Vec<RowData>,
}

impl View for Table {
    type V = Seq<RowView>;

    open spec fn view(&self) -> Seq<RowView> {
        views(self.rows@)
    }
}

impl Table {
    /// An empty roster.
    pub fn new() -> (t: Table)
        ensures
            t@ == Seq::<RowView>::empty(),
            unique_keys(t@),
    {
        let t = Table { rows: Vec::new() };
        assert(t@ =~= Seq::<RowView>::empty());
        t
    }

    /// The number of rows.
    pub fn len(&self) -> (n: usize)
        ensures
            n == self@.len(),
    {
        self.rows.len()
    }

    /// The position of the first row recorded for `name` in `week`.
    pub fn position(&self, name: &String, week: i32) -> (r: Option<usize>)
        ensures
            match r {
                Some(i) => i < self@.len() && i == first_index(self@, name@, week as int),
                None => first_index(self@, name@, week as int) == self@.len(),
            },
    {
        let mut i: usize = 0;
        while i < self.rows.len()
            invariant
                i <= self.rows.len(),
                forall|j: int| 0 <= j < i ==> !has_key(#[trigger] self@[j], name@, week as int),
            decreases self.rows.len() - i,
        {
            if self.rows[i].is_for(name, week) {
                proof {
                    lemma_first_index_is(self@, name@, week as int, 0, i as int);
                }
                return Some(i);
            }
            i = i + 1;
        }
        proof {
            lemma_first_index_is(self@, name@, week as int, 0, i as int);
        }
        None
    }

    /// The first row recorded for `name` in `week`, if there is one.
    pub fn find(&self, name: &String, week: i32) -> (r: Option<&RowData>)
        ensures
            match r {
                Some(row) => lookup(self@, name@, week as int) == Some(row@),
                None => lookup(self@, name@, week as int) is None,
            },
    {
        match self.position(name, week) {
            Some(i) => Some(&self.rows[i]),
            None => None,
        }
    }

    /// Inserts `row`, or updates the row that has its name and week: the
    /// first such row is replaced in place, and without one `row` is
    /// appended. A roster without duplicates stays without duplicates.
    pub fn insert_or_update(&mut self, row: &RowData)
        ensures
            final(self)@ == upsert(old(self)@, row@),
            unique_keys(old(self)@) ==> unique_keys(final(self)@),
    {
        let found = self.position(&row.name, row.week);
        proof {
            if unique_keys(self@) {
                lemma_upsert_keeps_unique(self@, row@);
            }
        }
        match found {
            Some(i) => {
                self.rows.set(i, row.duplicate());
                assert(self@ =~= upsert(old(self)@, row@));
            },
            None => {
                self.rows.push(row.duplicate());
                assert(self@ =~= upsert(old(self)@, row@));
            },
        }
    }

    /// Inserts or updates each of `rows`, in order.
    pub fn insert_or_update_all(&mut self, rows: &Vec<RowData>)
        ensures
            final(self)@ == upsert_all(old(self)@, views(rows@)),
            unique_keys(old(self)@) ==> unique_keys(final(self)@),
    {
        let mut i: usize = 0;
        while i < rows.len()
            invariant
                i <= rows.len(),
                self@ == upsert_all(old(self)@, views(rows@).take(i as int)),
                unique_keys(old(self)@) ==> unique_keys(self@),
            decreases rows.len() - i,
        {
            assert(views(rows@).take(i + 1).drop_last() =~= views(rows@).take(i as int));
            self.insert_or_update(&rows[i]);
            i = i + 1;
        }
        assert(views(rows@).take(rows@.len() as int) =~= views(rows@));
    }

    /// The rows recorded for `week`, in the roster's order, unchanged.
    pub fn rows_for_week(&self, week: i32) -> (r: Vec<RowData>)
        ensures
            views(r@) == week_rows(self@, week as int),
    {
        let mut out: Vec<RowData> = Vec::new();
        let mut i: usize = 0;
        proof {
            reveal(Seq::filter);
            assert(self@.take(0) =~= Seq::<RowView>::empty());
            assert(views(out@) =~= week_rows(self@.take(0), week as int));
        }
        while i < self.rows.len()
            invariant
                i <= self.rows.len(),
                views(out@) == week_rows(self@.take(i as int), week as int),
            decreases self.rows.len() - i,
        {
            proof {
                reveal(Seq::filter);
                assert(self@.take(i + 1).drop_last() =~= self@.take(i as int));
            }
            if self.rows[i].week == week {
                out.push(self.rows[i].duplicate());
                assert(views(out@) =~= week_rows(self@.take(i as int), week as int).push(
                    self@[i as int],
                ));
            }
            i = i + 1;
        }
        assert(self@.take(self@.len() as int) =~= self@);
        out
    }

    /// Removes the first row that has the name, the mail and the week of
    /// `wanted`, and says whether there was one. Without a match the roster
    /// is unchanged.
    pub fn remove_matching(&mut self, wanted: &RowData) -> (removed: bool)
        ensures
            final(self)@ == without(old(self)@, wanted@),
            removed == (first_target_from(old(self)@, wanted@, 0) < old(self)@.len()),
            !removed ==> final(self)@ == old(self)@,
            removed ==> final(self)@.len() + 1 == old(self)@.len(),
            unique_keys(old(self)@) ==> unique_keys(final(self)@),
    {
        let mut i: usize = 0;
        while i < self.rows.len()
            invariant
                i <= self.rows.len(),
                self@ == old(self)@,
                first_target_from(self@, wanted@, 0) == first_target_from(self@, wanted@, i as int),
            decreases self.rows.len() - i,
        {
            let row = &self.rows[i];
            if row.week == wanted.week && same_text(&row.name, &wanted.name) && same_text(
                &row.mail,
                &wanted.mail,
            ) {
                assert(deletion_target(self@[i as int], wanted@));
                self.rows.remove(i);
                assert(self@ =~= old(self)@.remove(i as int));
                return true;
            }
            assert(!deletion_target(self@[i as int], wanted@));
            i = i + 1;
        }
        false
    }
}

/// Inserting or updating a row keeps a roster free of duplicates.
pub proof fn lemma_upsert_keeps_unique(t: Seq<RowView>, row: RowView)
    requires
        unique_keys(t),
    ensures
        unique_keys(upsert(t, row)),
{
    lemma_first_index_from(t, row.name, row.week, 0);
    let i = first_index(t, row.name, row.week);
    let u = upsert(t, row);
    assert forall|a: int, b: int| 0 <= a < b < u.len() implies !(#[trigger] u[a].name
        == #[trigger] u[b].name && u[a].week == u[b].week) by {
        if i < t.len() {
            assert(has_key(t[i], row.name, row.week));
            if a == i {
                assert(!(t[a].name == t[b].name && t[a].week == t[b].week));
            } else if b == i {
                assert(!(t[a].name == t[b].name && t[a].week == t[b].week));
            } else {
                assert(!(t[a].name == t[b].name && t[a].week == t[b].week));
            }
        } else {
            if b == t.len() {
                assert(!has_key(t[a], row.name, row.week));
            } else {
                assert(!(t[a].name == t[b].name && t[a].week == t[b].week));
            }
        }
    }
}

/// Whatever is inserted or updated, in whatever order, a roster that starts
/// without duplicates ends without duplicates.
pub proof fn lemma_upsert_all_keeps_unique(t: Seq<RowView>, rows: Seq<RowView>)
    requires
        unique_keys(t),
    ensures
        unique_keys(upsert_all(t, rows)),
    decreases rows.len(),
{
    if rows.len() > 0 {
        lemma_upsert_all_keeps_unique(t, rows.drop_last());
        lemma_upsert_keeps_unique(upsert_all(t, rows.drop_last()), rows.last());
    }
}

/// Any sequence of insertions and updates made on an empty roster leaves at
/// most one row for each name and week.
pub proof fn lemma_upserts_from_empty_are_unique(rows: Seq<RowView>)
    ensures
        unique_keys(upsert_all(Seq::<RowView>::empty(), rows)),
{
    lemma_upsert_all_keeps_unique(Seq::<RowView>::empty(), rows);
}

} // verus!
