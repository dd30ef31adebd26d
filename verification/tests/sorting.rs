use weekly_roster::ordering::{rank_rows, sort_rows};
use weekly_roster::row::RowData;
use weekly_roster::text::{
    decimal_text, is_text, opt_is_text, rank_bytes, rank_opt_int, rank_opt_text, rank_text,
    same_opt_text, same_text, Rank,
};

fn row(name: &str, attendance: Option<&str>, total: Option<i32>) -> RowData {
    RowData {
        name: name.to_string(),
        mail: String::new(),
        week: 1,
        attendance: attendance.map(|a| a.to_string()),
        group_id: String::new(),
        ta: None,
        fa: None,
        fb: None,
        fc: None,
        fd: None,
        bonus_attempt: None,
        bonus_answer_quality: None,
        bonus_follow_up: None,
        exercise_submitted: None,
        exercise_test_passing: None,
        exercise_good_documentation: None,
        exercise_good_structure: None,
        total,
    }
}

fn names(rows: &Vec<RowData>) -> Vec<String> {
    rows.iter().map(|r| r.name.clone()).collect()
}

#[test]
fn bytes_rank_lexicographically() {
    assert_eq!(rank_bytes(b"", b""), Rank::Level);
    assert_eq!(rank_bytes(b"", b"a"), Rank::Lower);
    assert_eq!(rank_bytes(b"a", b""), Rank::Higher);
    assert_eq!(rank_bytes(b"abc", b"abd"), Rank::Lower);
    assert_eq!(rank_bytes(b"abd", b"abc"), Rank::Higher);
    assert_eq!(rank_bytes(b"ab", b"abc"), Rank::Lower);
    assert_eq!(rank_bytes(b"abc", b"ab"), Rank::Higher);
    assert_eq!(rank_bytes(b"b", b"abc"), Rank::Higher);
    assert_eq!(rank_bytes(b"abc", b"abc"), Rank::Level);
}

#[test]
fn text_ranks_as_rust_orders_strings() {
    let words = ["", "a", "Zed", "yes", "no", "no ", "\u{e9}t\u{e9}", "z", "\u{1F600}", "ann", "Ann"];
    for a in words {
        for b in words {
            let expected = match a.cmp(b) {
                std::cmp::Ordering::Less => Rank::Lower,
                std::cmp::Ordering::Equal => Rank::Level,
                std::cmp::Ordering::Greater => Rank::Higher,
            };
            assert_eq!(rank_text(&a.to_string(), &b.to_string()), expected);
        }
    }
}

#[test]
fn absent_values_rank_lowest() {
    assert_eq!(rank_opt_int(None, None), Rank::Level);
    assert_eq!(rank_opt_int(None, Some(i32::MIN)), Rank::Lower);
    assert_eq!(rank_opt_int(Some(-3), None), Rank::Higher);
    assert_eq!(rank_opt_int(Some(3), Some(4)), Rank::Lower);
    assert_eq!(rank_opt_int(Some(4), Some(4)), Rank::Level);
    assert_eq!(rank_opt_int(Some(5), Some(4)), Rank::Higher);
    let yes = Some("yes".to_string());
    let no = Some("no".to_string());
    assert_eq!(rank_opt_text(&None, &None), Rank::Level);
    assert_eq!(rank_opt_text(&None, &no), Rank::Lower);
    assert_eq!(rank_opt_text(&no, &None), Rank::Higher);
    assert_eq!(rank_opt_text(&yes, &no), Rank::Higher);
    assert_eq!(rank_opt_text(&no, &yes), Rank::Lower);
    assert_eq!(rank_opt_text(&yes, &yes), Rank::Level);
}

#[test]
fn rows_rank_by_attendance_then_total_then_name() {
    let a = row("Ann", Some("yes"), Some(1));
    let b = row("Zed", Some("no"), Some(99));
    assert_eq!(rank_rows(&a, &b), Rank::Higher);
    assert_eq!(rank_rows(&b, &a), Rank::Lower);
    let c = row("Ann", Some("yes"), Some(5));
    let d = row("Zed", Some("yes"), Some(4));
    assert_eq!(rank_rows(&c, &d), Rank::Higher);
    let e = row("Ann", Some("yes"), Some(4));
    assert_eq!(rank_rows(&e, &d), Rank::Lower);
    assert_eq!(rank_rows(&d, &d), Rank::Level);
    let f = row("Ann", None, Some(100));
    assert_eq!(rank_rows(&f, &b), Rank::Lower);
    let g = row("Ann", Some("yes"), None);
    assert_eq!(rank_rows(&g, &e), Rank::Lower);
}

#[test]
fn sort_is_descending() {
    let rows = vec![
        row("Bob", Some("no"), Some(7)),
        row("Ann", Some("yes"), Some(3)),
        row("Cid", None, Some(50)),
        row("Dee", Some("yes"), Some(9)),
        row("Eve", Some("yes"), Some(3)),
        row("Fay", Some("no"), None),
        row("Gus", Some("yes"), None),
    ];
    let sorted = sort_rows(&rows);
    assert_eq!(names(&sorted), vec!["Dee", "Eve", "Ann", "Gus", "Bob", "Fay", "Cid"]);
    let mut expected = rows.clone();
    expected.sort_by(|a, b| {
        b.attendance
            .cmp(&a.attendance)
            .then_with(|| b.total.cmp(&a.total).then_with(|| b.name.cmp(&a.name)))
    });
    assert_eq!(sorted, expected);
    assert_eq!(sort_rows(&Vec::new()), Vec::<RowData>::new());
}

#[test]
fn sort_keeps_the_order_of_equals() {
    let mut first = row("Ann", Some("yes"), Some(3));
    first.mail = "first".to_string();
    let mut second = row("Ann", Some("yes"), Some(3));
    second.mail = "second".to_string();
    let mut third = row("Ann", Some("yes"), Some(3));
    third.mail = "third".to_string();
    let rows = vec![first, row("Zed", Some("yes"), Some(3)), second, row("Abe", Some("yes"), Some(3)), third];
    let sorted = sort_rows(&rows);
    let mails: Vec<String> = sorted.iter().map(|r| r.mail.clone()).collect();
    assert_eq!(mails, vec!["", "first", "second", "third", ""]);
    assert_eq!(names(&sorted), vec!["Zed", "Ann", "Ann", "Ann", "Abe"]);
}

#[test]
fn decimal_text_writes_numbers() {
    assert_eq!(decimal_text(0), "0");
    assert_eq!(decimal_text(7), "7");
    assert_eq!(decimal_text(10), "10");
    assert_eq!(decimal_text(305), "305");
    assert_eq!(decimal_text(u64::MAX), "18446744073709551615");
}

#[test]
fn text_equality() {
    assert!(same_text(&"yes".to_string(), &"yes".to_string()));
    assert!(!same_text(&"yes".to_string(), &"Yes".to_string()));
    assert!(is_text(&"no".to_string(), "no"));
    assert!(!is_text(&"no".to_string(), "n"));
    assert!(opt_is_text(&Some("no".to_string()), "no"));
    assert!(!opt_is_text(&None, "no"));
    assert!(same_opt_text(&None, &None));
    assert!(!same_opt_text(&None, &Some(String::new())));
    assert!(same_opt_text(&Some("a".to_string()), &Some("a".to_string())));
    assert!(!same_opt_text(&Some("a".to_string()), &Some("b".to_string())));
}
