use weekly_roster::submission::{
    enrich, index_submissions, submitted_only, Assignment, Enrichment, ResolvedSubmission,
    SubmissionIndex,
};

fn assignment(user: &str, points: &str, submitted: bool, week: Option<u32>) -> Assignment {
    Assignment {
        github_username: user.to_string(),
        points_awarded: points.to_string(),
        submitted,
        week_pattern: week,
    }
}

fn resolved(a: Assignment, participant: Option<&str>) -> ResolvedSubmission {
    ResolvedSubmission { assignment: a, participant: participant.map(|p| p.to_string()) }
}

fn enrichment(submitted: &str, passing: &str) -> Enrichment {
    Enrichment {
        exercise_submitted: submitted.to_string(),
        exercise_test_passing: passing.to_string(),
    }
}

#[test]
fn only_submitted_assignments_are_kept() {
    let all = vec![
        assignment("a", "100", true, Some(1)),
        assignment("b", "0", false, Some(1)),
        assignment("c", "50", true, None),
    ];
    assert_eq!(submitted_only(&all), vec![all[0].clone(), all[2].clone()]);
    assert!(all[0].is_submitted());
    assert!(!all[1].is_submitted());
    assert_eq!(all[0].get_week_pattern(), Some(1));
    assert_eq!(all[2].get_week_pattern(), None);
    assert_eq!(all[1].duplicate(), all[1]);
}

#[test]
fn index_keeps_the_last_submission_of_a_participant() {
    let list = vec![
        resolved(assignment("ann1", "10", true, Some(2)), Some("Ann")),
        resolved(assignment("bob", "100", true, Some(2)), Some("Bob")),
        resolved(assignment("ghost", "100", true, Some(2)), None),
        resolved(assignment("ann2", "100", true, Some(2)), Some("Ann")),
        resolved(assignment("ann3", "5", false, Some(2)), Some("Ann")),
        resolved(assignment("cid", "100", false, Some(2)), Some("Cid")),
    ];
    let index = index_submissions(&list);
    assert_eq!(index.get(&"Ann".to_string()), Some(&assignment("ann2", "100", true, Some(2))));
    assert_eq!(index.get(&"Bob".to_string()), Some(&assignment("bob", "100", true, Some(2))));
    assert_eq!(index.get(&"Cid".to_string()), None);
    assert_eq!(index.get(&"ghost".to_string()), None);
}

#[test]
fn index_insert_replaces() {
    let mut index = SubmissionIndex::new();
    assert_eq!(index.get(&"Ann".to_string()), None);
    index.insert("Ann".to_string(), assignment("a", "1", true, None));
    index.insert("Bob".to_string(), assignment("b", "2", true, None));
    index.insert("Ann".to_string(), assignment("a", "3", true, None));
    assert_eq!(index.get(&"Ann".to_string()), Some(&assignment("a", "3", true, None)));
    assert_eq!(index.get(&"Bob".to_string()), Some(&assignment("b", "2", true, None)));
}

#[test]
fn full_marks_pass_the_tests() {
    let mut index = SubmissionIndex::new();
    index.insert("Ann".to_string(), assignment("a", "100", true, Some(3)));
    assert_eq!(enrich(&"Ann".to_string(), 3, &index), Some(enrichment("yes", "yes")));
}

#[test]
fn other_marks_do_not_pass() {
    for points in ["99", "0", "", "100.0", " 100", "1000"] {
        let mut index = SubmissionIndex::new();
        index.insert("Ann".to_string(), assignment("a", points, true, Some(3)));
        assert_eq!(enrich(&"Ann".to_string(), 3, &index), Some(enrichment("yes", "no")));
    }
}

#[test]
fn another_week_or_participant_says_nothing() {
    let mut index = SubmissionIndex::new();
    index.insert("Ann".to_string(), assignment("a", "100", true, Some(3)));
    index.insert("Bob".to_string(), assignment("b", "100", true, None));
    index.insert("Cid".to_string(), assignment("c", "100", true, Some(u32::MAX)));
    assert_eq!(enrich(&"Ann".to_string(), 4, &index), None);
    assert_eq!(enrich(&"Ann".to_string(), 0, &index), None);
    assert_eq!(enrich(&"Bob".to_string(), 3, &index), None);
    assert_eq!(enrich(&"Dee".to_string(), 3, &index), None);
    assert_eq!(enrich(&"Cid".to_string(), -1, &index), None);
}
