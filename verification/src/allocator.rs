//! The assignment of groups and teaching assistants to the rows of a week.
//!
//! Rows are taken in the order given. A row marked absent goes to the
//! reserved group with the reserved assistant. A row marked present goes to
//! the group that is open at its position: among the first `GROUPED_ROWS`
//! positions a present row opens a new group at every `GROUP_SIZE`-th
//! position, and from there on every present row opens one. Groups are
//! numbered round the pool of assistants, and the assistant of a group moves
//! on by one with every week. Any other row keeps what it carries.

use crate::row::{views, RowData, RowView};
use crate::text::{decimal, decimal_text, opt_is_text, opt_text};
use vstd::prelude::*;
use vstd::string::*;

verus! {

/// The number of leading positions that are grouped `GROUP_SIZE` rows at a
/// time.
pub const GROUPED_ROWS: usize = 30;

/// The number of positions that share a group among the first
/// `GROUPED_ROWS`.
pub const GROUP_SIZE: usize = 6;

/// The number of the group that absent students are put in.
pub const ABSENT_GROUP: u64 = 6;

/// The attendance mark of a student who was present.
pub open spec fn yes_text() -> Seq<char> {
    seq!['y', 'e', 's']
}

/// The attendance mark of a student who was absent.
pub open spec fn no_text() -> Seq<char> {
    seq!['n', 'o']
}

/// The name of the assistant reserved for absent students.
pub open spec fn reserved_ta() -> Seq<char> {
    seq!['S', 'e', 't', 'u']
}

/// The label of group number `n`.
pub open spec fn group_label(n: nat) -> Seq<char> {
    seq!['G', 'r', 'o', 'u', 'p', ' '] + decimal(n)
}

/// The row is marked present.
pub open spec fn is_present(row: RowView) -> bool {
    row.attendance == Some(yes_text())
}

/// The row is marked absent.
pub open spec fn is_absent(row: RowView) -> bool {
    row.attendance == Some(no_text())
}

/// The row at position `i` opens a new group.
pub open spec fn opens_group(rows: Seq<RowView>, i: int) -> bool {
    is_present(rows[i]) && (i >= GROUPED_ROWS || i % (GROUP_SIZE as int) == 0)
}

/// The number of groups opened by the first `n` rows.
pub open spec fn groups_opened(rows: Seq<RowView>, n: int) -> int
    decreases n,
{
    if n <= 0 {
        0
    } else {
        groups_opened(rows, n - 1) + if opens_group(rows, n - 1) {
            1int
        } else {
            0int
        }
    }
}

/// The running group counter once the row at position `i` was taken: it
/// starts at -1 and goes up by one with every group opened.
pub open spec fn group_counter(rows: Seq<RowView>, i: int) -> int {
    groups_opened(rows, i + 1) - 1
}

/// The place in the pool that the present row at position `i` falls on: its
/// group counter modulo the size of the pool.
pub open spec fn slot(rows: Seq<RowView>, i: int, pool_len: int) -> int {
    group_counter(rows, i) % pool_len
}

/// A group label and an assistant, as plain values.
pub struct PlacementView {
    pub group_id: Seq<char>,
    pub ta: Option<Seq<char>>,
}

/// The group and the assistant of the row at position `i`, for the target
/// `week` and the pool of assistants `pool`.
pub open spec fn placement(rows: Seq<RowView>, i: int, week: int, pool: Seq<Seq<char>>)
    -> PlacementView {
    if is_absent(rows[i]) {
        PlacementView { group_id: group_label(ABSENT_GROUP as nat), ta: Some(reserved_ta()) }
    } else if is_present(rows[i]) {
        let s = slot(rows, i, pool.len() as int);
        PlacementView {
            group_id: group_label((s + 1) as nat),
            ta: Some(pool[(s + week - 1) % (pool.len() as int)]),
        }
    } else {
        PlacementView { group_id: rows[i].group_id, ta: rows[i].ta }
    }
}

/// The group and the assistant of every row, in order.
pub open spec fn placements(rows: Seq<RowView>, week: int, pool: Seq<Seq<char>>) -> Seq<
    PlacementView,
> {
    Seq::new(rows.len(), |i: int| placement(rows, i, week, pool))
}

/// The characters of each string of a list.
pub open spec fn texts(names: Seq<String>) -> Seq<Seq<char>> {
    Seq::new(names.len(), |i: int| names[i]@)
}

/// A group label and an assistant.
#[derive(Clone, Debug, PartialEq, Eq)]
pub struct Placement {
    pub group_id: String,
    pub ta: Option<String>,
}

impl View for Placement {
    type V = PlacementView;

    open spec fn view(&self) -> PlacementView {
        PlacementView { group_id: self.group_id@, ta: opt_text(self.ta) }
    }
}

/// The models of a list of placements.
pub open spec fn placement_views(ps: Seq<Placement>) -> Seq<PlacementView> {
    Seq::new(ps.len(), |i: int| ps[i]@)
}

/// Whether the row is marked present.
pub fn marked_present(row: &RowData) -> (r: bool)
    ensures
        r == is_present(row@),
{
    proof {
        reveal_strlit("yes");
        assert("yes"@ =~= yes_text());
    }
    opt_is_text(&row.attendance, "yes")
}

/// Whether the row is marked absent.
pub fn marked_absent(row: &RowData) -> (r: bool)
    ensures
        r == is_absent(row@),
{
    proof {
        reveal_strlit("no");
        assert("no"@ =~= no_text());
    }
    opt_is_text(&row.attendance, "no")
}

/// The label of group number `n`.
pub fn label_group(n: u64) -> (r: String)
    ensures
        r@ == group_label(n as nat),
{
    let mut label = String::from_str("Group ");
    let digits = decimal_text(n);
    label.append(digits.as_str());
    proof {
        reveal_strlit("Group ");
        assert("Group "@ =~= seq!['G', 'r', 'o', 'u', 'p', ' ']);
    }
    label
}

/// The name of the assistant reserved for absent students.
pub fn reserved_ta_name() -> (r: String)
    ensures
        r@ == reserved_ta(),
{
    proof {
        reveal_strlit("Setu");
        assert("Setu"@ =~= reserved_ta());
    }
    String::from_str("Setu")
}

/// Assigns a group and an assistant to each row, in order.
///
/// `pool` holds the assistants that take present students, and must not be
/// empty; `week` is the target week, from 1 on.
pub fn allocate(rows: &Vec<RowData>, week: i32, pool: &Vec<String>) -> (r: Vec<Placement>)
    requires
        week >= 1,
        pool@.len() > 0,
    ensures
        placement_views(r@) == placements(views(rows@), week as int, texts(pool@)),
        r@.len() == rows@.len(),
{
    let ghost model = views(rows@);
    let mut out: Vec<Placement> = Vec::new();
    let mut opened: usize = 0;
    let mut i: usize = 0;
    while i < rows.len()
        invariant
            i <= rows.len(),
            week >= 1,
            pool@.len() > 0,
            model == views(rows@),
            out@.len() == i,
            opened == groups_opened(model, i as int),
            opened <= i,
            forall|j: int|
                0 <= j < i ==> (#[trigger] out@[j])@ == placement(
                    model,
                    j,
                    week as int,
                    texts(pool@),
                ),
        decreases rows.len() - i,
    {
        let row = &rows[i];
        assert(model[i as int] == row@);
        let present = marked_present(row);
        if present && (i >= GROUPED_ROWS || i % GROUP_SIZE == 0) {
            opened = opened + 1;
        }
        assert(opened == groups_opened(model, i + 1));
        let placed = if marked_absent(row) {
            Placement { group_id: label_group(ABSENT_GROUP), ta: Some(reserved_ta_name()) }
        } else if present {
            let slot_now: usize = if opened == 0 {
                pool.len() - 1
            } else {
                (opened - 1) % pool.len()
            };
            assert(slot_now == slot(model, i as int, pool@.len() as int)) by {
                if opened == 0 {
                    assert((-1int) % (pool@.len() as int) == pool@.len() - 1) by {
                        vstd::arithmetic::div_mod::lemma_small_mod(
                            (pool@.len() - 1) as nat,
                            pool@.len() as nat,
                        );
                        vstd::arithmetic::div_mod::lemma_mod_add_multiples_vanish(
                            -1int,
                            pool@.len() as int,
                        );
                    }
                }
            }
            let turn: u128 = (slot_now as u128 + (week - 1) as u128) % (pool.len() as u128);
            let who: usize = turn as usize;
            Placement {
                group_id: label_group(slot_now as u64 + 1),
                ta: Some(pool[who].clone()),
            }
        } else {
            Placement { group_id: row.group_id.clone(), ta: crate::text::clone_opt_text(&row.ta) }
        };
        assert(placed@ == placement(model, i as int, week as int, texts(pool@)));
        out.push(placed);
        i = i + 1;
    }
    assert(placement_views(out@) =~= placements(model, week as int, texts(pool@)));
    out
}

/// A row marked absent is put in the reserved group with the reserved
/// assistant, whatever its position, the week and the pool.
pub proof fn lemma_absent_placement(rows: Seq<RowView>, i: int, week: int, pool: Seq<Seq<char>>)
    requires
        0 <= i < rows.len(),
        is_absent(rows[i]),
    ensures
        placement(rows, i, week, pool).group_id == seq!['G', 'r', 'o', 'u', 'p', ' ', '6'],
        placement(rows, i, week, pool).ta == Some(seq!['S', 'e', 't', 'u']),
{
    assert(decimal(6) =~= seq!['6']);
    assert(group_label(6) =~= seq!['G', 'r', 'o', 'u', 'p', ' ', '6']);
}

/// Where every row up to position `i` is marked present, the group counter
/// at `i` is known from the position alone: the first `GROUPED_ROWS`
/// positions fill one group after the other, `GROUP_SIZE` rows each, and
/// every later position has a group of its own.
pub proof fn lemma_counter_when_all_present(rows: Seq<RowView>, i: int)
    requires
        0 <= i < rows.len(),
        forall|j: int| 0 <= j <= i ==> is_present(#[trigger] rows[j]),
    ensures
        i < GROUPED_ROWS ==> group_counter(rows, i) == i / (GROUP_SIZE as int),
        i >= GROUPED_ROWS ==> group_counter(rows, i) == GROUPED_ROWS / GROUP_SIZE + (i
            - GROUPED_ROWS),
    decreases i,
{
    assert(is_present(rows[i]));
    if i > 0 {
        lemma_counter_when_all_present(rows, i - 1);
    } else {
        assert(groups_opened(rows, 0) == 0);
    }
}

} // verus!
