//! The session builder: groups ordered raw samples into sealed sessions and
//! leaves the trailing, still-growing run unsealed.

use crate::calendar::{local_date_of, timestamp_in_range, CalendarDate};
use crate::category::{category_of, Category, CategoryRules, RulesModel};
use vstd::prelude::*;

verus! {

/// Seconds between two samples.
pub const SAMPLING_INTERVAL_SECONDS: i64 = 60;

/// The largest gap between two samples of one session: 1.5 sampling intervals.
pub const MAX_GAP_SECONDS: i64 = 90;

/// One raw observation of the active application.
pub struct ActivityLog {
    pub id: i64,
    pub timestamp_utc: i64,
    pub app_name: String,
    pub window_title: String,
    pub is_idle: bool,
}

/// A sealed run of samples of one application.
pub struct Session {
    pub date: CalendarDate,
    pub app_name: String,
    pub category: Category,
    pub start_time_utc: i64,
    pub end_time_utc: i64,
    pub duration_seconds: i64,
}

/// The engine's entry points; it holds no state of its own.
pub struct SessionEngine;

/// The category of one sample under the rules.
pub open spec fn sample_category(l: ActivityLog, rules: RulesModel) -> Category {
    category_of(l.app_name@, l.window_title@, l.is_idle, rules)
}

/// Every sample's timestamp is one the engine handles.
pub open spec fn timestamps_in_range(s: Seq<ActivityLog>) -> bool {
    forall|i: int| 0 <= i < s.len() ==> timestamp_in_range(#[trigger] s[i].timestamp_utc)
}

/// Sample `i` starts a new session: its application differs from the previous
/// sample's, or it comes more than the allowed gap after it.
pub open spec fn is_break(s: Seq<ActivityLog>, i: int) -> bool {
    &&& 0 < i < s.len()
    &&& (s[i].app_name@ != s[i - 1].app_name@ || s[i].timestamp_utc - s[i - 1].timestamp_utc
        > MAX_GAP_SECONDS)
}

/// Where the run that is still open after the first `n` samples begins.
pub open spec fn open_start(s: Seq<ActivityLog>, n: int) -> int
    decreases n,
{
    if n <= 1 {
        0
    } else if is_break(s, n - 1) {
        n - 1
    } else {
        open_start(s, n - 1)
    }
}

/// The runs `[start, end)` sealed after the first `n` samples, in order.
pub open spec fn sealed_runs(s: Seq<ActivityLog>, n: int) -> Seq<(int, int)>
    decreases n,
{
    if n <= 1 {
        Seq::empty()
    } else if is_break(s, n - 1) {
        sealed_runs(s, n - 1).push((open_start(s, n - 1), n - 1))
    } else {
        sealed_runs(s, n - 1)
    }
}

/// Some sample in `[a, b)` has category `c`.
pub open spec fn run_has(s: Seq<ActivityLog>, a: int, b: int, rules: RulesModel, c: Category) -> bool {
    exists|j: int| a <= j < b && sample_category(#[trigger] s[j], rules) == c
}

/// The category of the run `[a, b)`: distracting if any sample is, else productive
/// if any is, else recovery if any is, else the category of its first sample.
pub open spec fn run_category(s: Seq<ActivityLog>, a: int, b: int, rules: RulesModel) -> Category {
    if run_has(s, a, b, rules, Category::Distracting) {
        Category::Distracting
    } else if run_has(s, a, b, rules, Category::Productive) {
        Category::Productive
    } else if run_has(s, a, b, rules, Category::Recovery) {
        Category::Recovery
    } else {
        sample_category(s[a], rules)
    }
}

/// `sess` is the run `[a, b)` of `s` sealed, whatever its date.
pub open spec fn seals_run(sess: Session, s: Seq<ActivityLog>, a: int, b: int, rules: RulesModel) -> bool {
    &&& sess.app_name@ == s[a].app_name@
    &&& sess.category == run_category(s, a, b, rules)
    &&& sess.start_time_utc == s[a].timestamp_utc
    &&& sess.end_time_utc == s[b - 1].timestamp_utc
    &&& sess.duration_seconds == s[b - 1].timestamp_utc - s[a].timestamp_utc
        + SAMPLING_INTERVAL_SECONDS
}

/// Timestamps strictly increase along `s`.
pub open spec fn strictly_ascending(s: Seq<ActivityLog>) -> bool {
    forall|i: int, j: int| 0 <= i < j < s.len() ==> s[i].timestamp_utc < s[j].timestamp_utc
}

/// The open run begins within the first `n` samples, and no break lies inside it.
proof fn lemma_open_start(s: Seq<ActivityLog>, n: int)
    requires
        1 <= n,
    ensures
        0 <= open_start(s, n) < n,
        forall|j: int| open_start(s, n) < j < n ==> !is_break(s, j),
    decreases n,
{
    if n > 1 {
        lemma_open_start(s, n - 1);
    }
}

/// The last sealed run ends where the open run begins.
proof fn lemma_last_run_meets_open(s: Seq<ActivityLog>, n: int)
    requires
        sealed_runs(s, n).len() > 0,
    ensures
        sealed_runs(s, n).last().1 == open_start(s, n),
        1 <= open_start(s, n),
    decreases n,
{
    if n > 1 && !is_break(s, n - 1) {
        lemma_last_run_meets_open(s, n - 1);
    }
}

/// Without a break among the first `n` samples nothing is sealed.
proof fn lemma_no_break_seals_nothing(s: Seq<ActivityLog>, n: int)
    requires
        forall|j: int| 0 < j < n ==> !is_break(s, j),
    ensures
        sealed_runs(s, n).len() == 0,
    decreases n,
{
    if n > 1 {
        lemma_no_break_seals_nothing(s, n - 1);
    }
}

/// Sealed runs cover the samples before the open run, from the first sample on,
/// each non-empty and each starting where the previous one ended: no sample is
/// sealed twice and none before the open run is skipped.
pub proof fn lemma_runs_partition(s: Seq<ActivityLog>, n: int)
    requires
        0 <= n <= s.len(),
    ensures
        ({
            let runs = sealed_runs(s, n);
            &&& forall|k: int| 0 <= k < runs.len() ==> 0 <= (#[trigger] runs[k]).0 < runs[k].1 < n
            &&& forall|k: int|
                0 <= k < runs.len() - 1 ==> (#[trigger] runs[k]).1 == runs[k + 1].0
            &&& runs.len() > 0 ==> runs[0].0 == 0 && runs.last().1 == open_start(s, n)
            &&& runs.len() == 0 ==> open_start(s, n) == 0
        }),
    decreases n,
{
    if n > 1 {
        lemma_runs_partition(s, n - 1);
        lemma_open_start(s, n - 1);
        let prev = sealed_runs(s, n - 1);
        if is_break(s, n - 1) {
            let runs = sealed_runs(s, n);
            assert(runs == prev.push((open_start(s, n - 1), n - 1)));
            assert forall|k: int| 0 <= k < runs.len() - 1 implies (#[trigger] runs[k]).1 == runs[k
                + 1].0 by {
                if k < prev.len() - 1 {
                    assert(runs[k] == prev[k]);
                    assert(runs[k + 1] == prev[k + 1]);
                } else {
                    assert(runs[k] == prev.last());
                }
            }
            assert forall|k: int| 0 <= k < runs.len() implies 0 <= (#[trigger] runs[k]).0 < runs[k].1
                < n by {
                if k < prev.len() {
                    assert(runs[k] == prev[k]);
                }
            }
        }
    }
}

/// Replaying the builder over an unchanged window seals nothing new. Of samples
/// ordered by time, those later than the end of the last sealed session are
/// exactly the open run, and building over the open run seals no session.
pub proof fn lemma_replay_is_idempotent(s: Seq<ActivityLog>)
    requires
        strictly_ascending(s),
    ensures
        ({
            let runs = sealed_runs(s, s.len() as int);
            runs.len() > 0 ==> forall|i: int|
                0 <= i < s.len() ==> (#[trigger] s[i].timestamp_utc > s[runs.last().1 - 1].timestamp_utc
                    <==> i >= open_start(s, s.len() as int))
        }),
        ({
            let tail = s.subrange(open_start(s, s.len() as int), s.len() as int);
            sealed_runs(tail, tail.len() as int).len() == 0
        }),
{
    let n = s.len() as int;
    let runs = sealed_runs(s, n);
    if n == 0 {
        assert(sealed_runs(s.subrange(0, 0), 0).len() == 0);
    } else {
        lemma_open_start(s, n);
        let b = open_start(s, n);
        let tail = s.subrange(b, n);
        assert forall|j: int| 0 < j < tail.len() implies !is_break(tail, j) by {
            assert(tail[j] == s[b + j]);
            assert(tail[j - 1] == s[b + j - 1]);
            assert(!is_break(s, b + j));
        }
        lemma_no_break_seals_nothing(tail, tail.len() as int);
        if runs.len() > 0 {
            lemma_last_run_meets_open(s, n);
        }
    }
}

/// One distracting sample makes its whole run distracting, whatever the others are.
pub proof fn lemma_distracting_dominates(s: Seq<ActivityLog>, a: int, b: int, j: int, rules: RulesModel)
    requires
        a <= j < b,
        sample_category(s[j], rules) == Category::Distracting,
    ensures
        run_category(s, a, b, rules) == Category::Distracting,
{
}

impl SessionEngine {
    /// The category of the run `logs[a..b]`.
    fn resolve_category(logs: &Vec<ActivityLog>, a: usize, b: usize, rules: &CategoryRules) -> (r:
        Category)
        requires
            a < b <= logs@.len(),
        ensures
            r == run_category(logs@, a as int, b as int, rules.model()),
    {
        let ghost s = logs@;
        let ghost m = rules.model();
        let first = Category::classify(
            logs[a].app_name.as_str(),
            logs[a].window_title.as_str(),
            logs[a].is_idle,
            rules,
        );
        let mut found_distracting = false;
        let mut found_productive = false;
        let mut found_recovery = false;
        let mut k: usize = a;
        while k < b
            invariant
                a <= k <= b <= s.len(),
                s == logs@,
                m == rules.model(),
                first == sample_category(s[a as int], m),
                found_distracting == run_has(s, a as int, k as int, m, Category::Distracting),
                found_productive == run_has(s, a as int, k as int, m, Category::Productive),
                found_recovery == run_has(s, a as int, k as int, m, Category::Recovery),
            decreases b - k,
        {
            let c = Category::classify(
                logs[k].app_name.as_str(),
                logs[k].window_title.as_str(),
                logs[k].is_idle,
                rules,
            );
            assert(c == sample_category(s[k as int], m));
            match c {
                Category::Distracting => found_distracting = true,
                Category::Productive => found_productive = true,
                Category::Recovery => found_recovery = true,
                _ => {},
            }
            assert(found_distracting == run_has(s, a as int, k + 1, m, Category::Distracting));
            assert(found_productive == run_has(s, a as int, k + 1, m, Category::Productive));
            assert(found_recovery == run_has(s, a as int, k + 1, m, Category::Recovery));
            k += 1;
        }
        if found_distracting {
            Category::Distracting
        } else if found_productive {
            Category::Productive
        } else if found_recovery {
            Category::Recovery
        } else {
            first
        }
    }
    /// Seals the run `logs[a..b]` as a session dated `date`.
    pub fn seal_run(
        logs: &Vec<ActivityLog>,
        a: usize,
        b: usize,
        date: CalendarDate,
        rules: &CategoryRules,
    ) -> (r: Session)
        requires
            a < b <= logs@.len(),
            timestamps_in_range(logs@),
        ensures
            seals_run(r, logs@, a as int, b as int, rules.model()),
            r.date == date,
    {
        let category = SessionEngine::resolve_category(logs, a, b, rules);
        let start = logs[a].timestamp_utc;
        let end = logs[b - 1].timestamp_utc;
        Session {
            date,
            app_name: logs[a].app_name.clone(),
            category,
            start_time_utc: start,
            end_time_utc: end,
            duration_seconds: (end - start) + SAMPLING_INTERVAL_SECONDS,
        }
    }

    /// Seals the run `logs[a..b]`, dated by the local calendar day of its first sample.
    pub fn flush_session(logs: &Vec<ActivityLog>, a: usize, b: usize, rules: &CategoryRules) -> (r:
        Session)
        requires
            a < b <= logs@.len(),
            timestamps_in_range(logs@),
        ensures
            seals_run(r, logs@, a as int, b as int, rules.model()),
            r.date.is_valid(),
    {
        assert(timestamp_in_range(logs@[a as int].timestamp_utc));
        let date = local_date_of(logs[a].timestamp_utc).unwrap();
        SessionEngine::seal_run(logs, a, b, date, rules)
    }

    /// Groups samples, ordered by time, into sessions. A session ends where the
    /// application changes or the gap between samples exceeds the allowed gap; only
    /// runs that have ended are sealed, and the last run is left open.
    pub fn process_sessions(logs: &Vec<ActivityLog>, rules: &CategoryRules) -> (r: Vec<Session>)
        requires
            timestamps_in_range(logs@),
        ensures
            r@.len() == sealed_runs(logs@, logs@.len() as int).len(),
            forall|k: int|
                0 <= k < r@.len() ==> {
                    let run = #[trigger] sealed_runs(logs@, logs@.len() as int)[k];
                    seals_run(r@[k], logs@, run.0, run.1, rules.model()) && r@[k].date.is_valid()
                },
    {
        let ghost s = logs@;
        let ghost m = rules.model();
        let mut sessions: Vec<Session> = Vec::new();
        let mut start: usize = 0;
        let mut i: usize = 0;
        while i < logs.len()
            invariant
                0 <= start <= i <= s.len(),
                i > 0 ==> start < i,
                s == logs@,
                m == rules.model(),
                timestamps_in_range(s),
                start == open_start(s, i as int),
                sessions@.len() == sealed_runs(s, i as int).len(),
                forall|k: int|
                    0 <= k < sessions@.len() ==> {
                        let run = #[trigger] sealed_runs(s, i as int)[k];
                        seals_run(sessions@[k], s, run.0, run.1, m) && sessions@[k].date.is_valid()
                    },
            decreases s.len() - i,
        {
            let ghost before = sessions@;
            if i > 0 {
                assert(timestamp_in_range(s[i as int].timestamp_utc));
                assert(timestamp_in_range(s[i - 1].timestamp_utc));
                let same_app = logs[i].app_name == logs[i - 1].app_name;
                let gap = logs[i].timestamp_utc - logs[i - 1].timestamp_utc;
                if !same_app || gap > MAX_GAP_SECONDS {
                    assert(is_break(s, i as int));
                    let sess = SessionEngine::flush_session(logs, start, i, rules);
                    sessions.push(sess);
                    start = i;
                    assert forall|k: int| 0 <= k < sessions@.len() implies {
                        let run = #[trigger] sealed_runs(s, i + 1)[k];
                        seals_run(sessions@[k], s, run.0, run.1, m) && sessions@[k].date.is_valid()
                    } by {
                        if k < before.len() {
                            assert(sessions@[k] == before[k]);
                        }
                    }
                } else {
                    assert(!is_break(s, i as int));
                }
            }
            i += 1;
        }
        sessions
    }
}

} // verus!
