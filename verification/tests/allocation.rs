use weekly_roster::allocator::{allocate, label_group, Placement};
use weekly_roster::row::RowData;
use weekly_roster::staff::round_robin_pool;

fn row(name: &str, week: i32, attendance: Option<&str>) -> RowData {
    RowData {
        name: name.to_string(),
        mail: format!("{}@x.com", name),
        week,
        attendance: attendance.map(|a| a.to_string()),
        group_id: "Group 9".to_string(),
        ta: Some("Carried".to_string()),
        fa: None,
        fb: None,
        fc: None,
        fd: None,
        bonus_attempt: None,
        bonus_answer_quality: None,
        bonus_follow_up: None,
        exercise_submitted: None,
        exercise_test_passing: None,
        exercise_good_documentation: None,
        exercise_good_structure: None,
        total: None,
    }
}

fn pool() -> Vec<String> {
    vec!["A".to_string(), "B".to_string(), "C".to_string(), "D".to_string(), "E".to_string()]
}

#[test]
fn thirty_six_present_rows_in_week_two() {
    let rows: Vec<RowData> = (0..36).map(|i| row(&format!("s{:02}", i), 1, Some("yes"))).collect();
    let placed = allocate(&rows, 2, &pool());
    assert_eq!(placed.len(), 36);
    let tas = pool();
    for i in 0..30 {
        let group = i / 6;
        assert_eq!(placed[i].group_id, format!("Group {}", group + 1));
        assert_eq!(placed[i].ta, Some(tas[(group + 1) % 5].clone()));
    }
    for i in 30..36 {
        let counter = 5 + (i - 30);
        let slot = counter % 5;
        assert_eq!(placed[i].group_id, format!("Group {}", slot + 1));
        assert_eq!(placed[i].ta, Some(tas[(slot + 1) % 5].clone()));
    }
    assert_eq!(placed[0], Placement { group_id: "Group 1".to_string(), ta: Some("B".to_string()) });
    assert_eq!(placed[29], Placement { group_id: "Group 5".to_string(), ta: Some("A".to_string()) });
    assert_eq!(placed[30], Placement { group_id: "Group 1".to_string(), ta: Some("B".to_string()) });
}

#[test]
fn absent_row_goes_to_group_six_with_setu() {
    let rows = vec![row("a", 4, Some("yes")), row("b", 4, Some("no")), row("c", 4, Some("yes"))];
    for week in [1, 2, 7, 40] {
        let placed = allocate(&rows, week, &pool());
        assert_eq!(placed[1].group_id, "Group 6");
        assert_eq!(placed[1].ta, Some("Setu".to_string()));
    }
}

#[test]
fn unmarked_row_keeps_group_and_assistant() {
    let rows = vec![row("a", 0, None), row("b", 0, Some("maybe"))];
    let placed = allocate(&rows, 1, &pool());
    assert_eq!(placed[0], Placement { group_id: "Group 9".to_string(), ta: Some("Carried".to_string()) });
    assert_eq!(placed[1], Placement { group_id: "Group 9".to_string(), ta: Some("Carried".to_string()) });
}

#[test]
fn group_labels_are_decimal() {
    assert_eq!(label_group(1), "Group 1");
    assert_eq!(label_group(6), "Group 6");
    assert_eq!(label_group(10), "Group 10");
    assert_eq!(label_group(1204), "Group 1204");
}

#[test]
fn pool_leaves_out_the_reserved_assistant() {
    let staff = vec!["A".to_string(), "Setu".to_string(), "B".to_string(), "Setu".to_string()];
    assert_eq!(round_robin_pool(&staff), vec!["A".to_string(), "B".to_string()]);
    assert_eq!(round_robin_pool(&vec!["Setu".to_string()]), Vec::<String>::new());
}

#[test]
fn present_row_before_any_group_opens_takes_the_last_slot() {
    let rows = vec![row("a", 1, Some("z")), row("b", 1, Some("yes")), row("c", 1, Some("yes"))];
    let placed = allocate(&rows, 1, &pool());
    assert_eq!(placed[0], Placement { group_id: "Group 9".to_string(), ta: Some("Carried".to_string()) });
    assert_eq!(placed[1], Placement { group_id: "Group 5".to_string(), ta: Some("E".to_string()) });
    assert_eq!(placed[2], Placement { group_id: "Group 5".to_string(), ta: Some("E".to_string()) });
    let placed = allocate(&rows, 3, &pool());
    assert_eq!(placed[1], Placement { group_id: "Group 5".to_string(), ta: Some("B".to_string()) });
}

#[test]
fn absent_rows_do_not_advance_the_groups() {
    let mut rows: Vec<RowData> = Vec::new();
    for i in 0..40 {
        let mark = if i % 2 == 0 { "yes" } else { "no" };
        rows.push(row(&format!("s{:02}", i), 1, Some(mark)));
    }
    let placed = allocate(&rows, 1, &pool());
    let tas = pool();
    let mut counter: i64 = -1;
    for i in 0..40 {
        if i % 2 == 1 {
            assert_eq!(placed[i].group_id, "Group 6");
            assert_eq!(placed[i].ta, Some("Setu".to_string()));
        } else {
            if i >= 30 || i % 6 == 0 {
                counter += 1;
            }
            let slot = (counter % 5) as usize;
            assert_eq!(placed[i].group_id, format!("Group {}", slot + 1));
            assert_eq!(placed[i].ta, Some(tas[slot].clone()));
        }
    }
    assert_eq!(counter, 9);
}

#[test]
fn single_assistant_takes_every_group() {
    let rows: Vec<RowData> = (0..13).map(|i| row(&format!("s{}", i), 1, Some("yes"))).collect();
    let placed = allocate(&rows, 5, &vec!["Solo".to_string()]);
    for p in placed {
        assert_eq!(p, Placement { group_id: "Group 1".to_string(), ta: Some("Solo".to_string()) });
    }
}

#[test]
fn assistants_rotate_week_by_week() {
    let rows = vec![row("a", 1, Some("yes"))];
    let tas = pool();
    for week in 1..12 {
        let placed = allocate(&rows, week, &tas);
        assert_eq!(placed[0].group_id, "Group 1");
        assert_eq!(placed[0].ta, Some(tas[((week - 1) % 5) as usize].clone()));
    }
    let placed = allocate(&rows, i32::MAX, &tas);
    assert_eq!(placed[0].ta, Some(tas[((i32::MAX as usize) - 1) % 5].clone()));
}
