//! Submissions reported by the assignment source, the index that finds the
//! submission of a participant, and what a submission says about a row.

use crate::allocator::{no_text, yes_text};
use crate::text::{is_text, opt_text, same_text};
use vstd::prelude::*;
use vstd::string::*;

verus! {

/// One submission as the assignment source reports it.
#[derive(Clone, Debug, PartialEq, Eq)]
pub struct Assignment {
    /// The account that handed the work in.
    pub github_username: String,
    /// The points awarded, as the source writes them.
    pub points_awarded: String,
    /// Whether the work was handed in.
    pub submitted: bool,
    /// The week that the work belongs to, where the source names one.
    pub week_pattern: Option<u32>,
}

/// What a submission holds, as plain values.
pub struct AssignmentView {
    pub github_username: Seq<char>,
    pub points_awarded: Seq<char>,
    pub submitted: bool,
    pub week_pattern: Option<int>,
}

impl View for Assignment {
    type V = AssignmentView;

    open spec fn view(&self) -> AssignmentView {
        AssignmentView {
            github_username: self.github_username@,
            points_awarded: self.points_awarded@,
            submitted: self.submitted,
            week_pattern: match self.week_pattern {
                Some(w) => Some(w as int),
                None => None,
            },
        }
    }
}

impl Assignment {
    /// Whether the work was handed in.
    pub fn is_submitted(&self) -> (r: bool)
        ensures
            r == self@.submitted,
    {
        self.submitted
    }

    /// The week that the work belongs to, if the source names one.
    pub fn get_week_pattern(&self) -> (r: Option<u32>)
        ensures
            r == self.week_pattern,
    {
        self.week_pattern
    }

    /// A copy of this submission.
    pub fn duplicate(&self) -> (r: Assignment)
        ensures
            r == *self,
    {
        Assignment {
            github_username: self.github_username.clone(),
            points_awarded: self.points_awarded.clone(),
            submitted: self.submitted,
            week_pattern: self.week_pattern,
        }
    }
}

/// The models of a list of submissions.
pub open spec fn assignment_views(s: Seq<Assignment>) -> Seq<AssignmentView> {
    Seq::new(s.len(), |i: int| s[i]@)
}

/// The submissions that were handed in, in the order reported.
pub open spec fn handed_in(s: Seq<AssignmentView>) -> Seq<AssignmentView> {
    s.filter(|a: AssignmentView| a.submitted)
}

/// Keeps the submissions that were handed in, in the order reported.
pub fn submitted_only(assignments: &Vec<Assignment>) -> (r: Vec<Assignment>)
    ensures
        assignment_views(r@) == handed_in(assignment_views(assignments@)),
{
    let ghost all = assignment_views(assignments@);
    let mut out: Vec<Assignment> = Vec::new();
    let mut i: usize = 0;
    proof {
        reveal(Seq::filter);
        assert(all.take(0) =~= Seq::<AssignmentView>::empty());
        assert(assignment_views(out@) =~= handed_in(all.take(0)));
    }
    while i < assignments.len()
        invariant
            i <= assignments.len(),
            all == assignment_views(assignments@),
            assignment_views(out@) == handed_in(all.take(i as int)),
        decreases assignments.len() - i,
    {
        proof {
            reveal(Seq::filter);
            assert(all.take(i + 1).drop_last() =~= all.take(i as int));
        }
        if assignments[i].is_submitted() {
            out.push(assignments[i].duplicate());
            assert(assignment_views(out@) =~= handed_in(all.take(i as int)).push(all[i as int]));
        }
        i = i + 1;
    }
    assert(all.take(all.len() as int) =~= all);
    out
}

/// A submission together with the participant that its account was resolved
/// to, if the directory knows the account.
#[derive(Clone, Debug, PartialEq, Eq)]
pub struct ResolvedSubmission {
    pub assignment: Assignment,
    pub participant: Option<String>,
}

/// A resolved submission as plain values.
pub struct ResolvedView {
    pub assignment: AssignmentView,
    pub participant: Option<Seq<char>>,
}

impl View for ResolvedSubmission {
    type V = ResolvedView;

    open spec fn view(&self) -> ResolvedView {
        ResolvedView { assignment: self.assignment@, participant: opt_text(self.participant) }
    }
}

/// The models of a list of resolved submissions.
pub open spec fn resolved_views(s: Seq<ResolvedSubmission>) -> Seq<ResolvedView> {
    Seq::new(s.len(), |i: int| s[i]@)
}

/// The submission of each participant: of the submissions that were handed
/// in and resolved to a participant, the last one listed for that
/// participant.
pub open spec fn by_participant(s: Seq<ResolvedView>) -> Map<Seq<char>, AssignmentView>
    decreases s.len(),
{
    if s.len() == 0 {
        Map::empty()
    } else {
        let earlier = by_participant(s.drop_last());
        let last = s.last();
        match last.participant {
            Some(name) => if last.assignment.submitted {
                earlier.insert(name, last.assignment)
            } else {
                earlier
            },
            None => earlier,
        }
    }
}

/// One entry of the index.
#[derive(Clone, Debug, PartialEq, Eq)]
pub struct IndexEntry {
    pub participant: String,
    pub assignment: Assignment,
}

/// The map that a list of entries stands for: a later entry for a
/// participant replaces an earlier one.
pub open spec fn entries_map(entries: Seq<IndexEntry>) -> Map<Seq<char>, AssignmentView>
    decreases entries.len(),
{
    if entries.len() == 0 {
        Map::empty()
    } else {
        entries_map(entries.drop_last()).insert(
            entries.last().participant@,
            entries.last().assignment@,
        )
    }
}

/// Finds the submission of a participant by the participant's name.
#[derive(Clone, Debug, PartialEq, Eq)]
pub struct SubmissionIndex {
    pub entries: Vec<IndexEntry>,
}

impl View for SubmissionIndex {
    type V = Map<Seq<char>, AssignmentView>;

    open spec fn view(&self) -> Map<Seq<char>, AssignmentView> {
        entries_map(self.entries@)
    }
}

impl SubmissionIndex {
    /// An index without entries.
    pub fn new() -> (r: SubmissionIndex)
        ensures
            r@ == Map::<Seq<char>, AssignmentView>::empty(),
    {
        SubmissionIndex { entries: Vec::new() }
    }

    /// Records `assignment` as the submission of `participant`, in place of
    /// any recorded before.
    pub fn insert(&mut self, participant: String, assignment: Assignment)
        ensures
            final(self)@ == old(self)@.insert(participant@, assignment@),
    {
        self.entries.push(IndexEntry { participant, assignment });
        assert(self.entries@.drop_last() =~= old(self).entries@);
    }

    /// The submission recorded for `participant`, if there is one.
    pub fn get(&self, participant: &String) -> (r: Option<&Assignment>)
        ensures
            match r {
                Some(a) => self@.contains_key(participant@) && self@[participant@] == a@,
                None => !self@.contains_key(participant@),
            },
    {
        let mut n: usize = self.entries.len();
        assert(self.entries@.take(n as int) =~= self.entries@);
        while n > 0
            invariant
                n <= self.entries.len(),
                self@.contains_key(participant@) == entries_map(
                    self.entries@.take(n as int),
                ).contains_key(participant@),
                self@.contains_key(participant@) ==> self@[participant@] == entries_map(
                    self.entries@.take(n as int),
                )[participant@],
            decreases n,
        {
            let ghost head = self.entries@.take(n as int);
            assert(head.drop_last() =~= self.entries@.take(n - 1));
            assert(head.last() == self.entries@[n - 1]);
            n = n - 1;
            if same_text(&self.entries[n].participant, participant) {
                return Some(&self.entries[n].assignment);
            }
        }
        assert(self.entries@.take(0) =~= Seq::<IndexEntry>::empty());
        None
    }
}

/// Builds the index of the submissions that were handed in and resolved to a
/// participant; where one participant has several, the last one listed
/// stands.
pub fn index_submissions(resolved: &Vec<ResolvedSubmission>) -> (r: SubmissionIndex)
    ensures
        r@ == by_participant(resolved_views(resolved@)),
{
    let ghost all = resolved_views(resolved@);
    let mut index = SubmissionIndex::new();
    let mut i: usize = 0;
    assert(all.take(0) =~= Seq::<ResolvedView>::empty());
    while i < resolved.len()
        invariant
            i <= resolved.len(),
            all == resolved_views(resolved@),
            index@ == by_participant(all.take(i as int)),
        decreases resolved.len() - i,
    {
        assert(all.take(i + 1).drop_last() =~= all.take(i as int));
        assert(all.take(i + 1).last() == resolved@[i as int]@);
        let item = &resolved[i];
        if item.assignment.is_submitted() {
            match &item.participant {
                Some(name) => {
                    index.insert(name.clone(), item.assignment.duplicate());
                },
                None => {},
            }
        }
        i = i + 1;
    }
    assert(all.take(all.len() as int) =~= all);
    index
}

/// The points that count as passing the tests.
pub open spec fn full_marks() -> Seq<char> {
    seq!['1', '0', '0']
}

/// What a submission says about the exercise of a row.
pub struct EnrichmentView {
    pub exercise_submitted: Seq<char>,
    pub exercise_test_passing: Seq<char>,
}

/// What the index says about the exercise of `name` in `week`: where the
/// participant has a submission for that very week, the exercise was handed
/// in, and its tests pass exactly where full marks were awarded. Otherwise
/// it says nothing.
pub open spec fn enrichment(name: Seq<char>, week: int, index: Map<Seq<char>, AssignmentView>)
    -> Option<EnrichmentView> {
    if index.contains_key(name) && index[name].week_pattern == Some(week) {
        Some(
            EnrichmentView {
                exercise_submitted: yes_text(),
                exercise_test_passing: if index[name].points_awarded == full_marks() {
                    yes_text()
                } else {
                    no_text()
                },
            },
        )
    } else {
        None
    }
}

/// What a submission says about the exercise of a row.
#[derive(Clone, Debug, PartialEq, Eq)]
pub struct Enrichment {
    pub exercise_submitted: String,
    pub exercise_test_passing: String,
}

impl View for Enrichment {
    type V = EnrichmentView;

    open spec fn view(&self) -> EnrichmentView {
        EnrichmentView {
            exercise_submitted: self.exercise_submitted@,
            exercise_test_passing: self.exercise_test_passing@,
        }
    }
}

/// The model of an optional enrichment.
pub open spec fn opt_enrichment(e: Option<Enrichment>) -> Option<EnrichmentView> {
    match e {
        Some(x) => Some(x@),
        None => None,
    }
}

/// Says what the submissions tell about the exercise of `name` in `week`.
pub fn enrich(name: &String, week: i32, index: &SubmissionIndex) -> (r: Option<Enrichment>)
    ensures
        opt_enrichment(r) == enrichment(name@, week as int, index@),
{
    proof {
        reveal_strlit("yes");
        reveal_strlit("no");
        reveal_strlit("100");
        assert("yes"@ =~= yes_text());
        assert("no"@ =~= no_text());
        assert("100"@ =~= full_marks());
    }
    match index.get(name) {
        Some(found) => {
            let applies = match found.get_week_pattern() {
                Some(w) => week >= 0 && w == week as u32,
                None => false,
            };
            if applies {
                let passing = if is_text(&found.points_awarded, "100") {
                    String::from_str("yes")
                } else {
                    String::from_str("no")
                };
                Some(
                    Enrichment {
                        exercise_submitted: String::from_str("yes"),
                        exercise_test_passing: passing,
                    },
                )
            } else {
                None
            }
        },
        None => None,
    }
}

} // verus!
