//! The advisory live view of today, and the decisions taken from it.

use crate::calendar::{local_date_of, CalendarDate};
use crate::category::{category_of, Category, CategoryRules, RulesModel};
use crate::daily::{effective_work, effective_work_of, CategoryTotals, DAILY_TARGET_SECONDS};
use crate::session::{sample_category, ActivityLog, SessionEngine, SAMPLING_INTERVAL_SECONDS};
use vstd::prelude::*;

verus! {

/// Today's volatile estimate: sealed totals plus credit for unsealed samples.
#[derive(Debug, Clone, Copy, PartialEq, Eq, Structural)]
pub struct IntradayStats {
    pub date: CalendarDate,
    pub productive_seconds: i64,
    pub distracting_seconds: i64,
    pub effective_work_seconds: i64,
}

/// How many of the first `n` unsealed samples fall on `today` and classify as `c`.
pub open spec fn credited_samples(
    logs: Seq<ActivityLog>,
    dates: Seq<Option<CalendarDate>>,
    n: int,
    today: CalendarDate,
    rules: RulesModel,
    c: Category,
) -> int
    decreases n,
{
    if n <= 0 {
        0
    } else {
        credited_samples(logs, dates, n - 1, today, rules, c) + if dates[n - 1] == Some(today)
            && sample_category(logs[n - 1], rules) == c {
            1int
        } else {
            0int
        }
    }
}

/// The live view for `today` from the sealed totals and the unsealed samples,
/// where `dates[i]` is the local date of sample `i`.
pub open spec fn live_view(
    today: CalendarDate,
    sealed: CategoryTotals,
    logs: Seq<ActivityLog>,
    dates: Seq<Option<CalendarDate>>,
    rules: RulesModel,
) -> IntradayStats {
    let p = sealed.productive + SAMPLING_INTERVAL_SECONDS * credited_samples(
        logs,
        dates,
        logs.len() as int,
        today,
        rules,
        Category::Productive,
    );
    let d = sealed.distracting + SAMPLING_INTERVAL_SECONDS * credited_samples(
        logs,
        dates,
        logs.len() as int,
        today,
        rules,
        Category::Distracting,
    );
    IntradayStats {
        date: today,
        productive_seconds: p as i64,
        distracting_seconds: d as i64,
        effective_work_seconds: effective_work_of(p, d) as i64,
    }
}

/// The credited totals stay within an `i64` for any number of credited samples.
pub open spec fn live_inputs_fit(sealed: CategoryTotals, n: int) -> bool {
    &&& 0 <= sealed.productive
    &&& 0 <= sealed.distracting
    &&& sealed.productive + SAMPLING_INTERVAL_SECONDS * n <= i64::MAX
    &&& sealed.distracting + SAMPLING_INTERVAL_SECONDS * n <= i64::MAX
}

proof fn lemma_credit_bounds(
    logs: Seq<ActivityLog>,
    dates: Seq<Option<CalendarDate>>,
    n: int,
    today: CalendarDate,
    rules: RulesModel,
    c: Category,
)
    requires
        0 <= n,
    ensures
        0 <= credited_samples(logs, dates, n, today, rules, c) <= n,
    decreases n,
{
    if n > 0 {
        lemma_credit_bounds(logs, dates, n - 1, today, rules, c);
    }
}

/// Whole minutes in `secs`, rounded toward zero.
pub open spec fn whole_minutes(secs: int) -> int {
    if secs >= 0 {
        secs / 60
    } else {
        -((-secs) / 60)
    }
}

impl IntradayStats {
    /// Whole minutes of effective work and of distraction, as a dashboard shows them.
    pub fn minutes(&self) -> (r: (i64, i64))
        ensures
            r.0 == whole_minutes(self.effective_work_seconds as int),
            r.1 == whole_minutes(self.distracting_seconds as int),
    {
        (self.effective_work_seconds / 60, self.distracting_seconds / 60)
    }
}

impl SessionEngine {
    /// Today's live view, given the local date of each unsealed sample.
    pub fn live_stats_on(
        today: CalendarDate,
        sealed: &CategoryTotals,
        pending: &Vec<ActivityLog>,
        dates: &Vec<Option<CalendarDate>>,
        rules: &CategoryRules,
    ) -> (r: IntradayStats)
        requires
            dates@.len() == pending@.len(),
            live_inputs_fit(*sealed, pending@.len() as int),
        ensures
            r == live_view(today, *sealed, pending@, dates@, rules.model()),
    {
        let ghost m = rules.model();
        let mut productive: i64 = sealed.productive;
        let mut distracting: i64 = sealed.distracting;
        let mut i: usize = 0;
        while i < pending.len()
            invariant
                0 <= i <= pending@.len(),
                dates@.len() == pending@.len(),
                m == rules.model(),
                live_inputs_fit(*sealed, pending@.len() as int),
                productive == sealed.productive + SAMPLING_INTERVAL_SECONDS * credited_samples(
                    pending@,
                    dates@,
                    i as int,
                    today,
                    m,
                    Category::Productive,
                ),
                distracting == sealed.distracting + SAMPLING_INTERVAL_SECONDS * credited_samples(
                    pending@,
                    dates@,
                    i as int,
                    today,
                    m,
                    Category::Distracting,
                ),
            decreases pending@.len() - i,
        {
            proof {
                lemma_credit_bounds(pending@, dates@, i as int, today, m, Category::Productive);
                lemma_credit_bounds(pending@, dates@, i as int, today, m, Category::Distracting);
            }
            let on_today = match dates[i] {
                Some(d) => d == today,
                None => false,
            };
            if on_today {
                let log = &pending[i];
                let c = Category::classify(
                    log.app_name.as_str(),
                    log.window_title.as_str(),
                    log.is_idle,
                    rules,
                );
                match c {
                    Category::Productive => productive = productive + SAMPLING_INTERVAL_SECONDS,
                    Category::Distracting => distracting = distracting + SAMPLING_INTERVAL_SECONDS,
                    _ => {},
                }
            }
            i += 1;
        }
        proof {
            lemma_credit_bounds(pending@, dates@, i as int, today, m, Category::Productive);
            lemma_credit_bounds(pending@, dates@, i as int, today, m, Category::Distracting);
        }
        let effective = effective_work(productive, distracting);
        IntradayStats {
            date: today,
            productive_seconds: productive,
            distracting_seconds: distracting,
            effective_work_seconds: effective,
        }
    }

    /// Today's live view: sealed totals plus one sampling interval for each
    /// unsealed sample of today that classifies as productive or distracting.
    pub fn update_live_stats(
        today: CalendarDate,
        sealed: &CategoryTotals,
        pending: &Vec<ActivityLog>,
        rules: &CategoryRules,
    ) -> (r: IntradayStats)
        requires
            live_inputs_fit(*sealed, pending@.len() as int),
        ensures
            exists|dates: Seq<Option<CalendarDate>>|
                dates.len() == pending@.len() && r == live_view(
                    today,
                    *sealed,
                    pending@,
                    dates,
                    rules.model(),
                ),
    {
        let mut dates: Vec<Option<CalendarDate>> = Vec::new();
        let mut i: usize = 0;
        while i < pending.len()
            invariant
                0 <= i <= pending@.len(),
                dates@.len() == i,
            decreases pending@.len() - i,
        {
            dates.push(local_date_of(pending[i].timestamp_utc));
            i += 1;
        }
        SessionEngine::live_stats_on(today, sealed, pending, &dates, rules)
    }

    /// Whether the application in front should be stopped: the day's effective
    /// work is still below target and the window classifies as distracting.
    pub fn enforce_policy(
        effective_work: i64,
        current_app: &str,
        current_title: &str,
        rules: &CategoryRules,
    ) -> (r: bool)
        ensures
            r == (effective_work < DAILY_TARGET_SECONDS && category_of(
                current_app@,
                current_title@,
                false,
                rules.model(),
            ) == Category::Distracting),
    {
        if effective_work < DAILY_TARGET_SECONDS {
            let c = Category::classify(current_app, current_title, false, rules);
            c == Category::Distracting
        } else {
            false
        }
    }
}

} // verus!
