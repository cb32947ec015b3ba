use chrono::{Datelike, TimeZone};
use self_monitor::calendar::CalendarDate;
use self_monitor::category::{Category, CategoryRules};
use self_monitor::session::{ActivityLog, SessionEngine};

fn log(id: i64, ts: i64, app: &str, title: &str, idle: bool) -> ActivityLog {
    ActivityLog {
        id,
        timestamp_utc: ts,
        app_name: app.to_string(),
        window_title: title.to_string(),
        is_idle: idle,
    }
}

fn local_date(ts: i64) -> CalendarDate {
    let dt = chrono::Local.timestamp_opt(ts, 0).unwrap();
    CalendarDate { year: dt.year(), month: dt.month(), day: dt.day() }
}

#[test]
fn late_seal_happens_once_and_leaves_trailing_sample() {
    let base = 1_700_000_000;
    let logs = vec![
        log(1, base, "A", "x", false),
        log(2, base + 60, "A", "x", false),
        log(3, base + 120, "A", "x", false),
        log(4, base + 180, "B", "y", false),
    ];
    let s = SessionEngine::process_sessions(&logs, &CategoryRules::default());
    assert_eq!(s.len(), 1);
    assert_eq!(s[0].app_name, "A");
    assert_eq!(s[0].start_time_utc, base);
    assert_eq!(s[0].end_time_utc, base + 120);
    assert_eq!(s[0].duration_seconds, 180);
    assert_eq!(s[0].date, local_date(base));
}

#[test]
fn late_seal_from_time_zero() {
    let logs = vec![
        log(1, 0, "A", "x", false),
        log(2, 60, "A", "x", false),
        log(3, 120, "A", "x", false),
        log(4, 180, "B", "y", false),
    ];
    let s = SessionEngine::process_sessions(&logs, &CategoryRules::default());
    assert_eq!(s.len(), 1);
    assert_eq!(s[0].duration_seconds, 180);
    assert_eq!(s[0].end_time_utc, 120);
}

#[test]
fn replay_over_unchanged_window_seals_nothing() {
    let base = 1_700_000_000;
    let logs = vec![
        log(1, base, "A", "x", false),
        log(2, base + 60, "B", "y", false),
        log(3, base + 120, "B", "y", false),
    ];
    let rules = CategoryRules::default();
    let first = SessionEngine::process_sessions(&logs, &rules);
    assert_eq!(first.len(), 1);
    let cursor = first[first.len() - 1].end_time_utc;
    let again: Vec<ActivityLog> = logs
        .into_iter()
        .filter(|l| l.timestamp_utc > cursor)
        .collect();
    assert_eq!(again.len(), 2);
    let second = SessionEngine::process_sessions(&again, &rules);
    assert!(second.is_empty());
}

#[test]
fn gap_over_ninety_seconds_breaks_session() {
    let base = 1_700_000_000;
    let logs = vec![
        log(1, base, "A", "x", false),
        log(2, base + 60, "A", "x", false),
        log(3, base + 151, "A", "x", false),
    ];
    let s = SessionEngine::process_sessions(&logs, &CategoryRules::default());
    assert_eq!(s.len(), 1);
    assert_eq!(s[0].duration_seconds, 120);
}

#[test]
fn gap_of_exactly_ninety_seconds_keeps_session() {
    let base = 1_700_000_000;
    let logs = vec![
        log(1, base, "A", "x", false),
        log(2, base + 90, "A", "x", false),
        log(3, base + 180, "A", "x", false),
    ];
    let s = SessionEngine::process_sessions(&logs, &CategoryRules::default());
    assert!(s.is_empty());
}

#[test]
fn no_samples_and_one_sample_seal_nothing() {
    let rules = CategoryRules::default();
    assert!(SessionEngine::process_sessions(&vec![], &rules).is_empty());
    let one = vec![log(1, 10, "A", "x", false)];
    assert!(SessionEngine::process_sessions(&one, &rules).is_empty());
}

#[test]
fn one_distracting_sample_makes_session_distracting() {
    let base = 1_700_000_000;
    let mut logs = Vec::new();
    for i in 0..5 {
        logs.push(log(i, base + 60 * i, "browser", "code review", false));
    }
    logs.push(log(5, base + 300, "browser", "netflix", false));
    for i in 6..9 {
        logs.push(log(i, base + 60 * i, "browser", "code review", false));
    }
    logs.push(log(9, base + 540, "other", "", false));
    let s = SessionEngine::process_sessions(&logs, &CategoryRules::default());
    assert_eq!(s.len(), 1);
    assert_eq!(s[0].category, Category::Distracting);
    assert_eq!(s[0].duration_seconds, 540);
}

#[test]
fn session_category_falls_back_to_first_sample() {
    let base = 1_700_000_000;
    let logs = vec![
        log(1, base, "A", "away", true),
        log(2, base + 60, "A", "notes", false),
        log(3, base + 120, "B", "", false),
    ];
    let s = SessionEngine::process_sessions(&logs, &CategoryRules::default());
    assert_eq!(s.len(), 1);
    assert_eq!(s[0].category, Category::Idle);
}

#[test]
fn productive_beats_recovery_in_a_session() {
    let base = 1_700_000_000;
    let logs = vec![
        log(1, base, "A", "music", false),
        log(2, base + 60, "A", "terminal", false),
        log(3, base + 120, "B", "", false),
        log(4, base + 180, "C", "", false),
    ];
    let s = SessionEngine::process_sessions(&logs, &CategoryRules::default());
    assert_eq!(s.len(), 2);
    assert_eq!(s[0].category, Category::Productive);
    assert_eq!(s[1].category, Category::Neutral);
    assert_eq!(s[1].duration_seconds, 60);
}

#[test]
fn sealing_a_run_keeps_the_given_date() {
    let logs = vec![log(1, 100, "A", "music", false), log(2, 160, "A", "", false)];
    let date = CalendarDate { year: 2024, month: 5, day: 17 };
    let s = SessionEngine::seal_run(&logs, 0, 2, date, &CategoryRules::default());
    assert_eq!(s.date, date);
    assert_eq!(s.category, Category::Recovery);
    assert_eq!(s.duration_seconds, 120);
    let f = SessionEngine::flush_session(&logs, 0, 1, &CategoryRules::default());
    assert_eq!(f.date, local_date(100));
    assert_eq!(f.duration_seconds, 60);
}
