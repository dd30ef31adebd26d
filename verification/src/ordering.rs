//! The order in which the rows of a week are worked through: by attendance,
//! then by total, then by name, each descending.

use crate::row::{views, RowData, RowView};
use crate::text::{
    lemma_opt_text_rank_order, lemma_text_rank_order, opt_int_rank, opt_text_rank, rank_opt_int,
    rank_opt_text, rank_text, text_rank, Rank,
};
use vstd::prelude::*;

verus! {

/// Three-way comparison of two rows: by attendance, then by total, then by
/// name. An absent attendance or total sorts below every present one.
pub open spec fn row_rank(a: RowView, b: RowView) -> Rank {
    let by_attendance = opt_text_rank(a.attendance, b.attendance);
    let by_total = opt_int_rank(a.total, b.total);
    if by_attendance != Rank::Level {
        by_attendance
    } else if by_total != Rank::Level {
        by_total
    } else {
        text_rank(a.name, b.name)
    }
}

/// `a` ranks strictly above `b`, so it is worked through before `b`.
pub open spec fn outranks(a: RowView, b: RowView) -> bool {
    row_rank(a, b) == Rank::Higher
}

/// The least index at or after `from` whose row `x` outranks, or the length
/// of `s`.
pub open spec fn insertion_point_from(s: Seq<RowView>, x: RowView, from: int) -> int
    decreases s.len() - from,
{
    if from < 0 || from >= s.len() {
        s.len() as int
    } else if outranks(x, s[from]) {
        from
    } else {
        insertion_point_from(s, x, from + 1)
    }
}

/// `s` with `x` placed in front of the first row that it outranks, and at the
/// end where it outranks none: behind every row of its own rank.
pub open spec fn insert_ranked(s: Seq<RowView>, x: RowView) -> Seq<RowView> {
    s.insert(insertion_point_from(s, x, 0), x)
}

/// The rows of `s` in descending rank, rows of one rank in the order in
/// which `s` holds them.
pub open spec fn sorted_desc(s: Seq<RowView>) -> Seq<RowView>
    decreases s.len(),
{
    if s.len() == 0 {
        s
    } else {
        insert_ranked(sorted_desc(s.drop_last()), s.last())
    }
}

/// No row of `s` is outranked by a later one.
pub open spec fn is_descending(s: Seq<RowView>) -> bool {
    forall|i: int, j: int| 0 <= i < j < s.len() ==> !outranks(#[trigger] s[j], #[trigger] s[i])
}

/// What `insertion_point_from` finds.
pub proof fn lemma_insertion_point(s: Seq<RowView>, x: RowView, from: int)
    requires
        0 <= from <= s.len(),
    ensures
        from <= insertion_point_from(s, x, from) <= s.len(),
        insertion_point_from(s, x, from) < s.len() ==> outranks(
            x,
            s[insertion_point_from(s, x, from)],
        ),
        forall|j: int|
            from <= j < insertion_point_from(s, x, from) ==> !outranks(x, #[trigger] s[j]),
    decreases s.len() - from,
{
    if from < s.len() && !outranks(x, s[from]) {
        lemma_insertion_point(s, x, from + 1);
    }
}

/// An index that `x` outranks, preceded from `from` on by none that it
/// outranks, is the insertion point.
pub proof fn lemma_insertion_point_is(s: Seq<RowView>, x: RowView, from: int, at: int)
    requires
        0 <= from <= at <= s.len(),
        at < s.len() ==> outranks(x, s[at]),
        forall|j: int| from <= j < at ==> !outranks(x, #[trigger] s[j]),
    ensures
        insertion_point_from(s, x, from) == at,
    decreases at - from,
{
    if from < at {
        lemma_insertion_point_is(s, x, from + 1, at);
    }
}

/// Sorting keeps the number of rows.
pub proof fn lemma_sorted_len(s: Seq<RowView>)
    ensures
        sorted_desc(s).len() == s.len(),
    decreases s.len(),
{
    if s.len() > 0 {
        lemma_sorted_len(s.drop_last());
        lemma_insertion_point(sorted_desc(s.drop_last()), s.last(), 0);
    }
}

/// The comparison of rows is a total preorder: turning the arguments round
/// turns the outcome round, and outranking is transitive.
pub proof fn lemma_row_rank_order(a: RowView, b: RowView, c: RowView)
    ensures
        row_rank(a, b) == Rank::Higher <==> row_rank(b, a) == Rank::Lower,
        row_rank(a, b) == Rank::Level <==> row_rank(b, a) == Rank::Level,
        outranks(a, b) && outranks(b, c) ==> outranks(a, c),
        !outranks(a, b) && !outranks(b, c) ==> !outranks(a, c),
{
    lemma_opt_text_rank_order(a.attendance, b.attendance, c.attendance);
    lemma_opt_text_rank_order(b.attendance, c.attendance, a.attendance);
    lemma_opt_text_rank_order(c.attendance, a.attendance, b.attendance);
    lemma_text_rank_order(a.name, b.name, c.name);
    lemma_text_rank_order(b.name, c.name, a.name);
    lemma_text_rank_order(c.name, a.name, b.name);
}

/// Sorting yields the same rows, each as often as before, in descending
/// rank.
pub proof fn lemma_sorted_desc(s: Seq<RowView>)
    ensures
        sorted_desc(s).to_multiset() == s.to_multiset(),
        is_descending(sorted_desc(s)),
    decreases s.len(),
{
    if s.len() > 0 {
        let head = s.drop_last();
        let x = s.last();
        let sh = sorted_desc(head);
        lemma_sorted_desc(head);
        lemma_insertion_point(sh, x, 0);
        let p = insertion_point_from(sh, x, 0);
        let r = sorted_desc(s);
        assert(r == sh.insert(p, x));
        vstd::seq_lib::to_multiset_insert(sh, p, x);
        assert(s =~= head.push(x));
        vstd::seq_lib::to_multiset_build(head, x);
        assert forall|i: int, j: int| 0 <= i < j < r.len() implies !outranks(
            #[trigger] r[j],
            #[trigger] r[i],
        ) by {
            if j == p {
                assert(r[i] == sh[i]);
            } else if i == p {
                assert(r[j] == sh[j - 1]);
                if j - 1 > p {
                    assert(!outranks(sh[j - 1], sh[p]));
                }
                lemma_row_rank_order(sh[j - 1], x, sh[p]);
                lemma_row_rank_order(x, sh[p], x);
            } else {
                let qi = if i < p {
                    i
                } else {
                    i - 1
                };
                let qj = if j < p {
                    j
                } else {
                    j - 1
                };
                assert(r[i] == sh[qi] && r[j] == sh[qj]);
                assert(!outranks(sh[qj], sh[qi]));
            }
        }
    }
}

/// Rows of one rank leave the sort in the order in which they entered it:
/// the row entered last is placed behind every row that it does not
/// outrank.
pub proof fn lemma_sorted_last_placed(s: Seq<RowView>)
    requires
        s.len() > 0,
    ensures
        ({
            let before = sorted_desc(s.drop_last());
            let p = insertion_point_from(before, s.last(), 0);
            &&& 0 <= p <= before.len()
            &&& sorted_desc(s) == before.insert(p, s.last())
            &&& forall|j: int| 0 <= j < p ==> !outranks(s.last(), #[trigger] before[j])
            &&& forall|j: int| p <= j < before.len() ==> outranks(s.last(), #[trigger] before[j])
        }),
{
    let before = sorted_desc(s.drop_last());
    let x = s.last();
    lemma_insertion_point(before, x, 0);
    lemma_sorted_desc(s.drop_last());
    let p = insertion_point_from(before, x, 0);
    assert forall|j: int| p <= j < before.len() implies outranks(x, #[trigger] before[j]) by {
        if j > p {
            assert(!outranks(before[j], before[p]));
            lemma_row_rank_order(x, before[j], before[p]);
        }
    }
}

/// Compares two rows by attendance, then total, then name.
pub fn rank_rows(a: &RowData, b: &RowData) -> (r: Rank)
    ensures
        r == row_rank(a@, b@),
{
    let by_attendance = rank_opt_text(&a.attendance, &b.attendance);
    match by_attendance {
        Rank::Level => {
            let by_total = rank_opt_int(a.total, b.total);
            match by_total {
                Rank::Level => rank_text(&a.name, &b.name),
                _ => by_total,
            }
        },
        _ => by_attendance,
    }
}

/// Sorts rows into descending rank; rows of one rank keep their order.
pub fn sort_rows(rows: &Vec<RowData>) -> (r: Vec<RowData>)
    ensures
        views(r@) == sorted_desc(views(rows@)),
        r@.len() == rows@.len(),
        is_descending(views(r@)),
        views(r@).to_multiset() == views(rows@).to_multiset(),
{
    let mut out: Vec<RowData> = Vec::new();
    let mut i: usize = 0;
    proof {
        assert(views(rows@).take(0) =~= Seq::<RowView>::empty());
        assert(views(out@) =~= sorted_desc(views(rows@).take(0)));
    }
    while i < rows.len()
        invariant
            i <= rows.len(),
            out@.len() == i,
            views(out@) == sorted_desc(views(rows@).take(i as int)),
        decreases rows.len() - i,
    {
        let ghost before = views(out@);
        let ghost x = rows@[i as int]@;
        let mut p: usize = 0;
        while p < out.len() && !matches!(rank_rows(&rows[i], &out[p]), Rank::Higher)
            invariant
                p <= out.len(),
                i < rows.len(),
                x == rows@[i as int]@,
                before == views(out@),
                forall|j: int| 0 <= j < p ==> !outranks(x, #[trigger] before[j]),
            decreases out.len() - p,
        {
            p = p + 1;
        }
        proof {
            lemma_insertion_point_is(before, x, 0, p as int);
            assert(views(rows@).take(i + 1).drop_last() =~= views(rows@).take(i as int));
            assert(views(rows@).take(i + 1).last() == x);
        }
        out.insert(p, rows[i].duplicate());
        assert(views(out@) =~= before.insert(p as int, x));
        i = i + 1;
    }
    proof {
        assert(views(rows@).take(rows@.len() as int) =~= views(rows@));
        lemma_sorted_desc(views(rows@));
    }
    out
}

} // verus!
