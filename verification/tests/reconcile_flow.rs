use weekly_roster::reconcile::{
    apply_enrichment, derive_week, merge_row, prior_week_rows, reconcile, reconcile_indexed,
    reconcile_week, seed_row, Reconciliation,
};
use weekly_roster::request::RosterError;
use weekly_roster::allocator::Placement;
use weekly_roster::row::RowData;
use weekly_roster::submission::{
    index_submissions, Assignment, Enrichment, ResolvedSubmission,
};
use weekly_roster::table::Table;

fn prior(name: &str, week: i32, attendance: Option<&str>, total: Option<i32>) -> RowData {
    RowData {
        name: name.to_string(),
        mail: format!("{}@x.com", name.to_lowercase()),
        week,
        attendance: attendance.map(|a| a.to_string()),
        group_id: "Group 3".to_string(),
        ta: Some("Old".to_string()),
        fa: Some(4),
        fb: Some(3),
        fc: Some(2),
        fd: Some(1),
        bonus_attempt: Some(1),
        bonus_answer_quality: Some(1),
        bonus_follow_up: Some(1),
        exercise_submitted: Some("yes".to_string()),
        exercise_test_passing: Some("yes".to_string()),
        exercise_good_documentation: Some("yes".to_string()),
        exercise_good_structure: Some("yes".to_string()),
        total,
    }
}

fn fresh(name: &str, week: i32, group: &str, ta: &str) -> RowData {
    let no = || Some("no".to_string());
    RowData {
        name: name.to_string(),
        mail: format!("{}@x.com", name.to_lowercase()),
        week,
        attendance: no(),
        group_id: group.to_string(),
        ta: Some(ta.to_string()),
        fa: Some(0),
        fb: Some(0),
        fc: Some(0),
        fd: Some(0),
        bonus_attempt: Some(0),
        bonus_answer_quality: Some(0),
        bonus_follow_up: Some(0),
        exercise_submitted: no(),
        exercise_test_passing: no(),
        exercise_good_documentation: no(),
        exercise_good_structure: no(),
        total: Some(0),
    }
}

fn pool() -> Vec<String> {
    vec!["A".to_string(), "B".to_string(), "C".to_string(), "D".to_string(), "E".to_string()]
}

fn submission(participant: Option<&str>, points: &str, week: Option<u32>) -> ResolvedSubmission {
    ResolvedSubmission {
        assignment: Assignment {
            github_username: "user".to_string(),
            points_awarded: points.to_string(),
            submitted: true,
            week_pattern: week,
        },
        participant: participant.map(|p| p.to_string()),
    }
}

fn week_one_table() -> Table {
    let mut table = Table::new();
    table.insert_or_update(&prior("Bob", 1, Some("no"), Some(8)));
    table.insert_or_update(&prior("Ann", 1, Some("yes"), Some(5)));
    table.insert_or_update(&prior("Zed", 0, Some("yes"), Some(5)));
    table.insert_or_update(&prior("Cid", 1, Some("yes"), Some(9)));
    table.insert_or_update(&prior("Dee", 1, None, Some(9)));
    table
}

#[test]
fn prior_rows_are_filtered_and_sorted() {
    let table = week_one_table();
    let rows = prior_week_rows(&table, 2);
    let names: Vec<&str> = rows.iter().map(|r| r.name.as_str()).collect();
    assert_eq!(names, vec!["Cid", "Ann", "Bob", "Dee"]);
    assert_eq!(prior_week_rows(&table, 1).len(), 1);
    assert_eq!(prior_week_rows(&table, 3).len(), 0);
}

#[test]
fn new_week_gets_defaults_and_counts_as_changed() {
    let mut table = week_one_table();
    let out = reconcile(&mut table, 2, &Vec::new(), &pool());
    assert!(out.changed);
    let mut dee = fresh("Dee", 2, "Group 3", "Old");
    dee.ta = Some("Old".to_string());
    assert_eq!(
        out.rows,
        vec![
            fresh("Cid", 2, "Group 1", "B"),
            fresh("Ann", 2, "Group 1", "B"),
            fresh("Bob", 2, "Group 6", "Setu"),
            dee,
        ]
    );
    assert_eq!(table.len(), 9);
    assert_eq!(table.rows_for_week(2), out.rows);
    assert_eq!(table.rows_for_week(1), week_one_table().rows_for_week(1));
    assert_eq!(table.rows_for_week(0), week_one_table().rows_for_week(0));
}

#[test]
fn recorded_row_is_carried_over_not_reset() {
    let mut table = week_one_table();
    let mut recorded = prior("Ann", 2, Some("yes"), Some(42));
    recorded.fa = Some(7);
    recorded.exercise_good_structure = None;
    recorded.group_id = "Group 8".to_string();
    recorded.ta = None;
    recorded.mail = "elsewhere".to_string();
    table.insert_or_update(&recorded);
    let out = reconcile(&mut table, 2, &Vec::new(), &pool());
    assert!(out.changed);
    let ann = &out.rows[1];
    assert_eq!(ann.name, "Ann");
    assert_eq!(ann.attendance, Some("yes".to_string()));
    assert_eq!(ann.fa, Some(7));
    assert_eq!(ann.fb, Some(3));
    assert_eq!(ann.total, Some(42));
    assert_eq!(ann.exercise_submitted, Some("yes".to_string()));
    assert_eq!(ann.exercise_good_structure, None);
    assert_eq!(ann.group_id, "Group 1");
    assert_eq!(ann.ta, Some("B".to_string()));
    assert_eq!(ann.mail, "ann@x.com");
    assert_eq!(table.find(&"Ann".to_string(), 2), Some(ann));
    assert_eq!(table.position(&"Ann".to_string(), 2), Some(5));
}

#[test]
fn all_recorded_and_no_submission_means_unchanged() {
    let mut table = Table::new();
    table.insert_or_update(&prior("Ann", 3, Some("yes"), Some(1)));
    table.insert_or_update(&prior("Ann", 4, Some("no"), Some(2)));
    let out = reconcile(&mut table, 4, &Vec::new(), &pool());
    assert!(!out.changed);
    let mut expected = prior("Ann", 4, Some("no"), Some(2));
    expected.group_id = "Group 1".to_string();
    expected.ta = Some("D".to_string());
    assert_eq!(out.rows, vec![expected.clone()]);
    assert_eq!(table.rows, vec![prior("Ann", 3, Some("yes"), Some(1)), expected]);
}

#[test]
fn submission_of_the_week_marks_the_exercise() {
    let mut table = week_one_table();
    let subs = vec![
        submission(Some("Ann"), "100", Some(2)),
        submission(Some("Cid"), "80", Some(2)),
        submission(Some("Bob"), "100", Some(3)),
        submission(None, "100", Some(2)),
    ];
    let out = reconcile(&mut table, 2, &subs, &pool());
    assert!(out.changed);
    let mut cid = fresh("Cid", 2, "Group 1", "B");
    cid.exercise_submitted = Some("yes".to_string());
    let mut ann = fresh("Ann", 2, "Group 1", "B");
    ann.exercise_submitted = Some("yes".to_string());
    ann.exercise_test_passing = Some("yes".to_string());
    assert_eq!(out.rows[0], cid);
    assert_eq!(out.rows[1], ann);
    assert_eq!(out.rows[2], fresh("Bob", 2, "Group 6", "Setu"));
}

#[test]
fn second_reconciliation_changes_nothing() {
    let mut table = week_one_table();
    let subs = vec![submission(Some("Ann"), "100", Some(2)), submission(Some("Cid"), "80", Some(2))];
    let first = reconcile(&mut table, 2, &subs, &pool());
    assert!(first.changed);
    let after_first = table.clone();
    let second = reconcile(&mut table, 2, &subs, &pool());
    assert!(!second.changed);
    assert_eq!(second.rows, first.rows);
    assert_eq!(table, after_first);
}

#[test]
fn changed_submission_is_noticed_once() {
    let mut table = week_one_table();
    let first = reconcile(&mut table, 2, &vec![submission(Some("Ann"), "80", Some(2))], &pool());
    assert!(first.changed);
    let better = vec![submission(Some("Ann"), "100", Some(2))];
    let second = reconcile(&mut table, 2, &better, &pool());
    assert!(second.changed);
    assert_eq!(second.rows[1].exercise_test_passing, Some("yes".to_string()));
    let third = reconcile(&mut table, 2, &better, &pool());
    assert!(!third.changed);
    assert_eq!(third.rows, second.rows);
}

#[test]
fn same_inputs_give_the_same_outcome() {
    let subs = vec![submission(Some("Ann"), "100", Some(2))];
    let mut one = week_one_table();
    let mut two = week_one_table();
    let a = reconcile(&mut one, 2, &subs, &pool());
    let b = reconcile(&mut two, 2, &subs, &pool());
    assert_eq!(a, b);
    assert_eq!(one, two);
    let index = index_submissions(&subs);
    let mut three = week_one_table();
    let derived = derive_week(&three, 2, &index, &pool());
    assert_eq!(three, week_one_table());
    let c = reconcile_indexed(&mut three, 2, &index, &pool());
    assert_eq!(c, a);
    assert_eq!(derived, a);
    assert_eq!(three, one);
}

#[test]
fn empty_prior_week_derives_nothing() {
    let mut table = week_one_table();
    let before = table.clone();
    let out = reconcile(&mut table, 7, &Vec::new(), &pool());
    assert_eq!(out, Reconciliation { rows: Vec::new(), changed: false });
    assert_eq!(table, before);
}

#[test]
fn seed_merge_and_enrichment_steps() {
    let row = prior("Ann", 1, Some("yes"), Some(5));
    let place = Placement { group_id: "Group 2".to_string(), ta: Some("C".to_string()) };
    let seed = seed_row(&row, &place, 2);
    let mut expected = row.clone();
    expected.week = 2;
    expected.group_id = "Group 2".to_string();
    expected.ta = Some("C".to_string());
    assert_eq!(seed, expected);

    let (merged, is_new) = merge_row(seed.clone(), None);
    assert!(is_new);
    assert_eq!(merged, fresh("Ann", 2, "Group 2", "C"));

    let mut recorded = prior("Ann", 2, None, None);
    recorded.fd = Some(11);
    let (merged, is_new) = merge_row(seed.clone(), Some(&recorded));
    assert!(!is_new);
    let mut carried = recorded.clone();
    carried.group_id = "Group 2".to_string();
    carried.ta = Some("C".to_string());
    assert_eq!(merged, carried);

    let (same, touched) = apply_enrichment(carried.clone(), None);
    assert!(!touched);
    assert_eq!(same, carried);
    let said = Enrichment { exercise_submitted: "yes".to_string(), exercise_test_passing: "yes".to_string() };
    let (same, touched) = apply_enrichment(carried.clone(), Some(said));
    assert!(!touched);
    assert_eq!(same, carried);
    let said = Enrichment { exercise_submitted: "yes".to_string(), exercise_test_passing: "no".to_string() };
    let (other, touched) = apply_enrichment(carried.clone(), Some(said));
    assert!(touched);
    let mut expected = carried.clone();
    expected.exercise_test_passing = Some("no".to_string());
    assert_eq!(other, expected);
}

#[test]
fn week_requests_are_answered_as_planned() {
    let mut table = week_one_table();
    let before = table.clone();
    assert_eq!(reconcile_week(&mut table, -1, &Vec::new(), &pool()), Err(RosterError::InvalidWeek));
    assert_eq!(table, before);
    let zero = reconcile_week(&mut table, 0, &Vec::new(), &pool());
    assert_eq!(
        zero,
        Ok(Reconciliation { rows: vec![prior("Zed", 0, Some("yes"), Some(5))], changed: false })
    );
    assert_eq!(table, before);
    let two = reconcile_week(&mut table, 2, &Vec::new(), &pool());
    let mut again = week_one_table();
    assert_eq!(two, Ok(reconcile(&mut again, 2, &Vec::new(), &pool())));
    assert_eq!(table, again);
    let mut empty = Table::new();
    assert_eq!(
        reconcile_week(&mut empty, 0, &Vec::new(), &pool()),
        Ok(Reconciliation { rows: Vec::new(), changed: false })
    );
}
