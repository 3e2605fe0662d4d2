use dengbot::scoreboard::{format_scoreboard, rank_scores, render_scoreboard, RankedEntry, NO_SCORES};
use dengbot::slackinfo::User;
use dengbot::text::id_precedes;
use dengbot::types::Deng;

fn rec(id: i32, user: &str, successful: bool, day_first: bool, user_first: bool) -> Deng {
    Deng {
        id,
        ts: 1_600_000_000 + id as u64,
        user_id: String::from(user),
        successful,
        days_first_deng: day_first,
        users_first_deng: user_first,
    }
}

fn user(id: &str, name: &str) -> User {
    User { id: String::from(id), display_name: String::from(name) }
}

fn displayed_sum(text: &str) -> i64 {
    text.lines().map(|l| l.rsplit("\t\t").next().unwrap().parse::<i64>().unwrap()).sum()
}

#[test]
fn record_values() {
    assert_eq!(rec(1, "A", true, true, true).value(), 3);
    assert_eq!(rec(1, "A", true, false, true).value(), 2);
    assert_eq!(rec(1, "A", true, true, false).value(), 2);
    assert_eq!(rec(1, "A", true, false, false).value(), 1);
    assert_eq!(rec(1, "A", false, false, false).value(), 0);
    assert_eq!(rec(1, "A", false, true, true).value(), 0);
    assert_eq!(rec(1, "A", false, true, true).calculate_value(), 3);
}

#[test]
fn empty_history_gives_placeholder() {
    assert_eq!(format_scoreboard(&[], &[]), "No scores yet!");
    assert_eq!(NO_SCORES, "No scores yet!");
}

#[test]
fn only_failed_records_give_placeholder() {
    let h = vec![rec(1, "A", false, false, false), rec(2, "B", false, false, false)];
    assert_eq!(format_scoreboard(&h, &[user("A", "alice")]), "No scores yet!");
    assert!(rank_scores(&h).is_empty());
}

#[test]
fn scores_sum_per_user_and_sort_descending() {
    let h = vec![
        rec(1, "A", true, true, true),
        rec(2, "B", true, false, true),
        rec(3, "C", true, false, true),
        rec(4, "C", true, false, false),
        rec(5, "C", true, false, false),
        rec(6, "B", false, false, false),
    ];
    let dir = vec![user("A", "alice"), user("B", "bob"), user("C", "carol")];
    assert_eq!(format_scoreboard(&h, &dir), "carol\t\t4\nalice\t\t3\nbob\t\t2");
}

#[test]
fn ties_break_by_user_id_ascending() {
    let h = vec![
        rec(1, "U9", true, false, false),
        rec(2, "U10", true, false, false),
        rec(3, "U1", true, false, false),
    ];
    let ranked = rank_scores(&h);
    let ids: Vec<&str> = ranked.iter().map(|e| e.user_id.as_str()).collect();
    assert_eq!(ids, vec!["U1", "U10", "U9"]);
    assert!(ranked.iter().all(|e| e.score == 1));
}

#[test]
fn ranking_ignores_history_order() {
    let h1 = vec![rec(1, "B", true, false, true), rec(2, "A", true, false, true)];
    let h2 = vec![rec(1, "A", true, false, true), rec(2, "B", true, false, true)];
    let dir = vec![user("A", "alice"), user("B", "bob")];
    assert_eq!(format_scoreboard(&h1, &dir), format_scoreboard(&h2, &dir));
    assert_eq!(format_scoreboard(&h1, &dir), "alice\t\t2\nbob\t\t2");
}

#[test]
fn missing_user_shows_unknown() {
    let h = vec![rec(1, "Z", true, true, true)];
    assert_eq!(format_scoreboard(&h, &[user("A", "alice")]), "Unknown\t\t3");
}

#[test]
fn first_directory_entry_wins() {
    let h = vec![rec(1, "A", true, false, false)];
    let dir = vec![user("A", "first"), user("A", "second")];
    assert_eq!(format_scoreboard(&h, &dir), "first\t\t1");
}

#[test]
fn displayed_scores_sum_to_successful_values() {
    let mut h = Vec::new();
    for i in 0..60 {
        let u = format!("U{}", i % 7);
        h.push(rec(i, &u, i % 3 != 0, i % 5 == 0, i % 2 == 0));
    }
    let dir: Vec<User> = (0..7).map(|i| user(&format!("U{}", i), &format!("n{}", i))).collect();
    let text = format_scoreboard(&h, &dir);
    let expected: i64 = h.iter().filter(|d| d.successful).map(|d| d.value() as i64).sum();
    assert_eq!(displayed_sum(&text), expected);
}

#[test]
fn failed_records_change_no_score() {
    let base = vec![rec(1, "A", true, true, true), rec(2, "B", true, false, true)];
    let dir = vec![user("A", "alice"), user("B", "bob"), user("C", "carol")];
    let mut with_failures = Vec::new();
    for d in &base {
        with_failures.push(rec(d.id, &d.user_id, d.successful, d.days_first_deng, d.users_first_deng));
    }
    with_failures.push(rec(3, "A", false, false, false));
    with_failures.push(rec(4, "C", false, false, false));
    assert_eq!(format_scoreboard(&base, &dir), format_scoreboard(&with_failures, &dir));
}

#[test]
fn render_writes_large_scores_in_decimal() {
    let entries = vec![
        RankedEntry { user_id: String::from("A"), score: 18_446_744_073_709_551_615 },
        RankedEntry { user_id: String::from("B"), score: 0 },
        RankedEntry { user_id: String::from("C"), score: 1_000_007 },
    ];
    let text = render_scoreboard(&entries, &[user("B", "bob")]);
    assert_eq!(text, "Unknown\t\t18446744073709551615\nbob\t\t0\nUnknown\t\t1000007");
    assert_eq!(render_scoreboard(&[], &[]), "No scores yet!");
}

#[test]
fn user_id_order() {
    assert!(id_precedes("A", "B"));
    assert!(id_precedes("A", "AB"));
    assert!(!id_precedes("AB", "A"));
    assert!(!id_precedes("A", "A"));
    assert!(id_precedes("", "A"));
    assert!(id_precedes("U10", "U9"));
}
