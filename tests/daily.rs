use self_monitor::calendar::CalendarDate;
use self_monitor::category::Category;
use self_monitor::daily::{
    effective_work, pending_days, qualification_reason, qualifies, CategoryTotals,
};
use self_monitor::session::{Session, SessionEngine};
use self_monitor::streak::StreakState;

fn date(year: i32, month: u32, day: u32) -> CalendarDate {
    CalendarDate { year, month, day }
}

fn totals(productive: i64, distracting: i64) -> CategoryTotals {
    CategoryTotals { productive, neutral: 0, recovery: 0, distracting, idle: 0 }
}

fn session(d: CalendarDate, c: Category, secs: i64) -> Session {
    Session {
        date: d,
        app_name: "app".to_string(),
        category: c,
        start_time_utc: 0,
        end_time_utc: secs - 60,
        duration_seconds: secs,
    }
}

#[test]
fn effective_work_formula() {
    assert_eq!(effective_work(7200, 1200), 6300);
    assert_eq!(effective_work(1000, 3), 998);
    assert_eq!(effective_work(100, 1000), 0);
    assert_eq!(effective_work(0, 0), 0);
    assert_eq!(effective_work(i64::MAX, 0), i64::MAX);
    assert_eq!(effective_work(i64::MAX, i64::MAX), 2_305_843_009_213_693_952);
}

#[test]
fn qualification_boundary() {
    assert!(qualifies(7200, 2700));
    assert!(!qualifies(7200, 2701));
    assert!(!qualifies(100_000, 2701));
    assert!(!qualifies(7199, 0));
}

#[test]
fn reason_names_the_failed_threshold() {
    assert_eq!(qualification_reason(7200, 2700), "Targets Met");
    assert_eq!(qualification_reason(6300, 1200), "Effective Work low (6300/7200s)");
    assert_eq!(qualification_reason(0, 5000), "Effective Work low (0/7200s)");
    assert_eq!(qualification_reason(8000, 2701), "Distraction too high (2701/2700s)");
}

#[test]
fn totals_sum_sessions_of_the_day_only() {
    let d1 = date(2024, 3, 1);
    let d2 = date(2024, 3, 2);
    let s = vec![
        session(d1, Category::Productive, 600),
        session(d1, Category::Productive, 120),
        session(d1, Category::Distracting, 60),
        session(d2, Category::Productive, 9999),
        session(d1, Category::Idle, 180),
        session(d1, Category::Recovery, 240),
        session(d1, Category::Neutral, 300),
    ];
    let t = CategoryTotals::for_day(&s, d1).unwrap();
    assert_eq!(
        t,
        CategoryTotals { productive: 720, neutral: 300, recovery: 240, distracting: 60, idle: 180 }
    );
    let empty = CategoryTotals::for_day(&s, date(2024, 3, 3)).unwrap();
    assert_eq!(empty, totals(0, 0));
}

#[test]
fn totals_that_overflow_give_none() {
    let d = date(2024, 3, 1);
    let s = vec![
        session(d, Category::Neutral, i64::MAX),
        session(d, Category::Neutral, 1),
    ];
    assert_eq!(CategoryTotals::for_day(&s, d), None);
}

#[test]
fn evaluate_day_seals_summary_and_streak() {
    let mut streak = StreakState::new();
    let t = CategoryTotals { productive: 8000, neutral: 5, recovery: 6, distracting: 1000, idle: 7 };
    let s = SessionEngine::evaluate_day(date(2024, 1, 1), &t, &mut streak);
    assert_eq!(s.effective_work, 7250);
    assert!(s.qualified);
    assert_eq!(s.reason, "Targets Met");
    assert_eq!((s.neutral, s.recovery, s.idle), (5, 6, 7));
    assert_eq!(streak.current_streak, 1);
    assert_eq!(streak.best_streak, 1);
    assert_eq!(streak.last_evaluated_date, Some(date(2024, 1, 1)));
}

#[test]
fn streak_follows_verdicts_in_order() {
    let good = totals(7200, 0);
    let bad = totals(7200, 2701);
    let days = vec![
        (date(2024, 1, 1), good),
        (date(2024, 1, 2), good),
        (date(2024, 1, 3), bad),
        (date(2024, 1, 4), good),
    ];
    let mut streak = StreakState::new();
    let mut seen = Vec::new();
    for d in &days {
        SessionEngine::evaluate_day(d.0, &d.1, &mut streak);
        seen.push(streak.current_streak);
    }
    assert_eq!(seen, vec![1, 2, 0, 1]);
    assert_eq!(streak.best_streak, 2);

    let mut again = StreakState::new();
    let summaries = SessionEngine::evaluate_history(&days, &mut again);
    let verdicts: Vec<bool> = summaries.iter().map(|s| s.qualified).collect();
    assert_eq!(verdicts, vec![true, true, false, true]);
    assert_eq!(again.current_streak, 1);
    assert_eq!(again.best_streak, 2);
    assert_eq!(again.last_evaluated_date, Some(date(2024, 1, 4)));
}

#[test]
fn second_evaluation_of_a_date_leaves_streak_unchanged() {
    let mut streak = StreakState::new();
    let d = date(2024, 2, 10);
    SessionEngine::evaluate_day(d, &totals(9000, 0), &mut streak);
    assert_eq!((streak.current_streak, streak.best_streak), (1, 1));
    SessionEngine::evaluate_day(d, &totals(0, 9000), &mut streak);
    assert_eq!((streak.current_streak, streak.best_streak), (1, 1));
    assert_eq!(streak.last_evaluated_date, Some(d));
}

#[test]
fn failed_day_resets_current_but_keeps_best() {
    let mut streak = StreakState {
        current_streak: 4,
        best_streak: 6,
        last_evaluated_date: Some(date(2024, 1, 1)),
    };
    streak.record(date(2024, 1, 2), true);
    assert_eq!((streak.current_streak, streak.best_streak), (5, 6));
    streak.record(date(2024, 1, 3), true);
    streak.record(date(2024, 1, 4), true);
    assert_eq!((streak.current_streak, streak.best_streak), (7, 7));
    streak.record(date(2024, 1, 5), false);
    assert_eq!((streak.current_streak, streak.best_streak), (0, 7));
}

#[test]
fn pending_days_are_distinct_sorted_and_unsummarized() {
    let today = date(2024, 3, 10);
    let sessions = vec![
        date(2024, 3, 9),
        date(2024, 3, 1),
        date(2024, 3, 10),
        date(2024, 2, 28),
        date(2024, 3, 9),
        date(2024, 3, 5),
        date(2023, 12, 31),
        date(2024, 3, 11),
    ];
    let summarized = vec![date(2024, 3, 5)];
    let p = pending_days(&sessions, &summarized, today);
    assert_eq!(
        p,
        vec![date(2023, 12, 31), date(2024, 2, 28), date(2024, 3, 1), date(2024, 3, 9)]
    );
    assert!(pending_days(&vec![], &summarized, today).is_empty());
}

#[test]
fn date_order_is_by_year_month_day() {
    assert!(date(2023, 12, 31).is_before(&date(2024, 1, 1)));
    assert!(date(2024, 1, 31).is_before(&date(2024, 2, 1)));
    assert!(!date(2024, 2, 1).is_before(&date(2024, 2, 1)));
    assert!(!date(2024, 2, 2).is_before(&date(2024, 2, 1)));
}
