use dengbot::daycycle::DAY_SECS;
use dengbot::runner::Runner;
use dengbot::scoreboard::format_scoreboard;
use dengbot::slackinfo::User;
use dengbot::types::{Broadcast, Deng, NewDeng};

const T0: u64 = 1_600_000_000;

fn stored(id: i32, n: NewDeng) -> Deng {
    Deng {
        id,
        ts: n.ts,
        user_id: n.user_id,
        successful: n.successful,
        days_first_deng: n.days_first_deng,
        users_first_deng: n.users_first_deng,
    }
}

fn value_of(n: &NewDeng) -> i32 {
    let d = Deng {
        id: 0,
        ts: n.ts,
        user_id: n.user_id.clone(),
        successful: n.successful,
        days_first_deng: n.days_first_deng,
        users_first_deng: n.users_first_deng,
    };
    assert_eq!(d.value(), d.calculate_value());
    d.value()
}

#[test]
fn three_check_ins_in_one_window() {
    let mut r = Runner::new_at(T0);
    let a1 = r.handle_deng_at(String::from("A"), T0 + 1);
    let b = r.handle_deng_at(String::from("B"), T0 + 2);
    let a2 = r.handle_deng_at(String::from("A"), T0 + 3);
    assert!(a1.successful && a1.days_first_deng && a1.users_first_deng);
    assert!(b.successful && !b.days_first_deng && b.users_first_deng);
    assert!(a2.successful && !a2.days_first_deng && !a2.users_first_deng);
    assert_eq!(value_of(&a1), 3);
    assert_eq!(value_of(&b), 2);
    assert_eq!(value_of(&a2), 1);
    assert_eq!(a1.ts, T0 + 1);
    let history = vec![stored(1, a1), stored(2, b), stored(3, a2)];
    let users = vec![
        User { id: String::from("A"), display_name: String::from("alice") },
        User { id: String::from("B"), display_name: String::from("bob") },
    ];
    assert_eq!(format_scoreboard(&history, &users), "alice\t\t4\nbob\t\t2");
}

#[test]
fn user_first_again_in_a_new_window() {
    let mut r = Runner::new_at(T0);
    let first = r.handle_deng_at(String::from("A"), T0);
    let end = r.day_cycle().end();
    let next = r.handle_deng_at(String::from("A"), end);
    assert!(first.users_first_deng && first.days_first_deng);
    assert!(next.users_first_deng && next.days_first_deng);
    assert_eq!(r.day_cycle().start(), end);
}

#[test]
fn day_first_once_per_window() {
    let mut r = Runner::new_at(T0);
    let mut day_firsts = 0;
    for (i, u) in ["A", "B", "C", "A", "D"].iter().enumerate() {
        let rec = r.handle_deng_at(String::from(*u), T0 + i as u64);
        if rec.days_first_deng {
            day_firsts += 1;
            assert_eq!(i, 0);
        }
    }
    assert_eq!(day_firsts, 1);
}

#[test]
fn other_events_score_nothing_and_leave_the_window() {
    let mut r = Runner::new_at(T0);
    let rec = r.handle_non_deng_at(String::from("A"), T0 + 1);
    assert!(!rec.successful && !rec.days_first_deng && !rec.users_first_deng);
    assert!(r.day_cycle().first_deng());
    let a = r.handle_deng_at(String::from("A"), T0 + 2);
    assert!(a.days_first_deng && a.users_first_deng);
}

#[test]
fn other_event_after_window_end_rolls_the_window() {
    let mut r = Runner::new_at(T0);
    r.handle_deng_at(String::from("A"), T0);
    let end = r.day_cycle().end();
    r.handle_non_deng_at(String::from("B"), end + DAY_SECS * 3);
    assert!(r.day_cycle().first_deng());
    assert!(r.day_cycle().start() >= end);
}

#[test]
fn handle_dispatches_on_event_kind() {
    let mut r = Runner::new_at(T0);
    let a = r.handle_at(Broadcast::Deng(String::from("A")), T0);
    let b = r.handle_at(Broadcast::NonDeng(String::from("B")), T0);
    assert!(a.successful && a.user_id == "A");
    assert!(!b.successful && b.user_id == "B");
}

#[test]
fn handling_at_the_current_time() {
    let mut r = Runner::new();
    let a = r.handle_deng(String::from("A"));
    let b = r.handle_non_deng(String::from("A"));
    assert!(a.successful && a.users_first_deng);
    assert!(!b.successful);
    assert!(a.ts > T0 && b.ts >= a.ts);
}

#[test]
fn new_records_carry_their_flags() {
    let s = NewDeng::new_success(String::from("A"), true, false);
    assert!(s.successful && s.days_first_deng && !s.users_first_deng && s.user_id == "A");
    let f = NewDeng::new_failure(String::from("B"));
    assert!(!f.successful && !f.days_first_deng && !f.users_first_deng && f.user_id == "B");
    assert!(f.ts > T0);
}
