use dengbot::daycycle::{DayCycle, DAY_SECS, JITTER_SECS, LATEST_INSTANT};
use dengbot::platform::now_secs;

const T0: u64 = 1_600_000_000;

#[test]
fn generated_windows_last_a_day_plus_jitter() {
    for i in 0..10_000u64 {
        let start = T0 + i * 37;
        let end = DayCycle::calculate_end(start);
        assert!(end - start >= DAY_SECS);
        assert!(end - start < DAY_SECS + JITTER_SECS);
    }
}

#[test]
fn jitter_is_not_constant() {
    let mut lengths = std::collections::HashSet::new();
    for _ in 0..200 {
        lengths.insert(DayCycle::calculate_end(T0) - T0);
    }
    assert!(lengths.len() > 1);
}

#[test]
fn first_window_opens_at_nine_local_time() {
    // 2020-09-13 12:26:40 UTC is 20:26:40 at UTC+8; 09:00 local is 01:00 UTC.
    let c = DayCycle::new_at(T0);
    assert_eq!(c.start(), 1_599_958_800);
    assert!(c.start() <= T0 && T0 < c.end());
    assert!(c.first_deng());
}

#[test]
fn first_window_before_nine_starts_the_day_before() {
    // 2020-09-13 00:30:00 UTC is 08:30 local: the window opened at 09:00 the day before.
    let now = 1_599_957_000;
    let c = DayCycle::new_at(now);
    assert_eq!(c.start(), 1_599_958_800 - DAY_SECS);
    assert!(now < c.end());
}

#[test]
fn first_window_at_epoch_start() {
    let c = DayCycle::new_at(0);
    assert_eq!(c.start(), 0);
    assert!(c.end() >= DAY_SECS);
}

#[test]
fn has_ended_at_end_instant() {
    let c = DayCycle::new_at(T0);
    assert!(!c.has_ended(c.end() - 1));
    assert!(c.has_ended(c.end()));
}

#[test]
fn register_is_idempotent() {
    let mut c = DayCycle::new_at(T0);
    assert!(!c.has_denged_today("U1"));
    c.register_deng("U1");
    c.register_deng("U1");
    assert!(c.has_denged_today("U1"));
    assert!(!c.has_denged_today("U2"));
    assert!(!c.first_deng());
}

#[test]
fn rolling_before_end_changes_nothing() {
    let mut c = DayCycle::new_at(T0);
    c.register_deng("U1");
    let (s, e) = (c.start(), c.end());
    c.new_day(e - 1);
    assert_eq!((c.start(), c.end()), (s, e));
    assert!(c.has_denged_today("U1"));
}

#[test]
fn rolling_twice_is_rolling_once() {
    let mut c = DayCycle::new_at(T0);
    c.register_deng("U1");
    let now = c.end() + 5 * DAY_SECS;
    c.new_day(now);
    let once = (c.start(), c.end());
    c.register_deng("U2");
    c.new_day(now);
    assert_eq!((c.start(), c.end()), once);
    assert!(c.has_denged_today("U2"));
}

#[test]
fn rolling_is_anchored_at_previous_end() {
    let mut c = DayCycle::new_at(T0);
    c.register_deng("U1");
    let old_end = c.end();
    c.new_day(old_end);
    assert_eq!(c.start(), old_end);
    assert!(c.end() - c.start() >= DAY_SECS);
    assert!(c.first_deng());
    assert!(!c.has_denged_today("U1"));
}

#[test]
fn rolling_over_a_long_gap_covers_whole_periods() {
    let mut c = DayCycle::new_at(T0);
    let old_end = c.end();
    let now = old_end + 30 * DAY_SECS + 123;
    c.new_day(now);
    assert!(c.start() <= now && now < c.end());
    let span = c.start() - old_end;
    let k = span / DAY_SECS;
    assert!(k * DAY_SECS <= span && span <= k * (DAY_SECS + JITTER_SECS - 1));
    assert!(c.end() - c.start() >= DAY_SECS && c.end() - c.start() < DAY_SECS + JITTER_SECS);
}

#[test]
fn clock_reads_a_plausible_time() {
    let t = now_secs();
    assert!(t > T0);
    assert!(t <= LATEST_INSTANT);
    let c = DayCycle::new();
    assert!(c.start() <= now_secs());
}
