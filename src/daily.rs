//! Daily aggregation and qualification: per-category totals of a day's sealed
//! sessions, the effective-work score, and the immutable daily verdict.

use crate::calendar::CalendarDate;
use crate::category::Category;
use crate::session::{Session, SessionEngine};
use crate::streak::{streak_after, StreakState};
use vstd::prelude::*;
use vstd::string::StringExecFns;

verus! {

/// Effective work a day needs to qualify.
pub const DAILY_TARGET_SECONDS: i64 = 7200;

/// Most distracting time a qualifying day may hold.
pub const DISTRACTION_LIMIT_SECONDS: i64 = 2700;

/// Seconds of sealed sessions per category for one day.
#[derive(Debug, Clone, Copy, PartialEq, Eq, Structural)]
pub struct CategoryTotals {
    pub productive: i64,
    pub neutral: i64,
    pub recovery: i64,
    pub distracting: i64,
    pub idle: i64,
}

/// The sealed verdict for one day.
pub struct DailySummary {
    pub date: CalendarDate,
    pub productive: i64,
    pub neutral: i64,
    pub recovery: i64,
    pub distracting: i64,
    pub idle: i64,
    pub effective_work: i64,
    pub qualified: bool,
    pub reason: String,
}

/// The sum of the durations of the sessions of `s` dated `date` in category `c`.
pub open spec fn day_total(s: Seq<Session>, date: CalendarDate, c: Category) -> int
    decreases s.len(),
{
    if s.len() == 0 {
        0
    } else {
        day_total(s.drop_last(), date, c) + if s.last().date == date && s.last().category == c {
            s.last().duration_seconds as int
        } else {
            0
        }
    }
}

/// A value that fits in an `i64`.
pub open spec fn fits_i64(x: int) -> bool {
    i64::MIN <= x <= i64::MAX
}

/// Every per-category total of `date` fits in an `i64`.
pub open spec fn day_totals_fit(s: Seq<Session>, date: CalendarDate) -> bool {
    &&& fits_i64(day_total(s, date, Category::Productive))
    &&& fits_i64(day_total(s, date, Category::Neutral))
    &&& fits_i64(day_total(s, date, Category::Recovery))
    &&& fits_i64(day_total(s, date, Category::Distracting))
    &&& fits_i64(day_total(s, date, Category::Idle))
}

/// `t` holds the per-category totals of `date` over `s`.
pub open spec fn totals_of(t: CategoryTotals, s: Seq<Session>, date: CalendarDate) -> bool {
    &&& t.productive == day_total(s, date, Category::Productive)
    &&& t.neutral == day_total(s, date, Category::Neutral)
    &&& t.recovery == day_total(s, date, Category::Recovery)
    &&& t.distracting == day_total(s, date, Category::Distracting)
    &&& t.idle == day_total(s, date, Category::Idle)
}

/// Productive time less three quarters of distracting time, rounded down, and never below zero.
pub open spec fn effective_work_of(productive: int, distracting: int) -> int {
    let e = productive - (3 * distracting) / 4;
    if e > 0 {
        e
    } else {
        0
    }
}

/// A day qualifies when it meets the effective-work target and stays within the distraction limit.
pub open spec fn qualifies_spec(effective_work: int, distracting: int) -> bool {
    effective_work >= DAILY_TARGET_SECONDS && distracting <= DISTRACTION_LIMIT_SECONDS
}

/// The characters of the decimal digit `d`.
pub open spec fn digit_char(d: nat) -> char {
    seq!['0', '1', '2', '3', '4', '5', '6', '7', '8', '9'][d as int]
}

/// The decimal digits of `n`, without leading zeros.
pub open spec fn digits_of(n: nat) -> Seq<char>
    decreases n,
{
    if n < 10 {
        seq![digit_char(n)]
    } else {
        digits_of(n / 10).push(digit_char(n % 10))
    }
}

/// The decimal text of `n`, with a leading minus sign when it is negative.
pub open spec fn decimal_of(n: int) -> Seq<char> {
    if n < 0 {
        seq!['-'] + digits_of((-n) as nat)
    } else {
        digits_of(n as nat)
    }
}

/// Relies on the `Display` impl of `i64` (through `ToString`): the decimal digits,
/// with a leading `-` for negative values.
#[verifier::external_body]
fn decimal_text(n: i64) -> (r: String)
    ensures
        r@ == decimal_of(n as int),
{
    n.to_string()
}

/// The explanation stored with a verdict; an effective-work shortfall is named
/// before a distraction breach.
pub open spec fn reason_of(effective_work: int, distracting: int) -> Seq<char> {
    if qualifies_spec(effective_work, distracting) {
        "Targets Met"@
    } else if effective_work < DAILY_TARGET_SECONDS {
        "Effective Work low ("@ + decimal_of(effective_work) + "/"@ + decimal_of(
            DAILY_TARGET_SECONDS as int,
        ) + "s)"@
    } else {
        "Distraction too high ("@ + decimal_of(distracting) + "/"@ + decimal_of(
            DISTRACTION_LIMIT_SECONDS as int,
        ) + "s)"@
    }
}

/// Every total is non-negative.
pub open spec fn totals_nonnegative(t: CategoryTotals) -> bool {
    &&& 0 <= t.productive
    &&& 0 <= t.neutral
    &&& 0 <= t.recovery
    &&& 0 <= t.distracting
    &&& 0 <= t.idle
}

/// Whether a day with totals `t` qualifies.
pub open spec fn day_qualifies(t: CategoryTotals) -> bool {
    qualifies_spec(effective_work_of(t.productive as int, t.distracting as int), t.distracting as int)
}

/// `d` is the verdict for `date` with totals `t`.
pub open spec fn summarizes(d: DailySummary, date: CalendarDate, t: CategoryTotals) -> bool {
    let e = effective_work_of(t.productive as int, t.distracting as int);
    &&& d.date == date
    &&& d.productive == t.productive
    &&& d.neutral == t.neutral
    &&& d.recovery == t.recovery
    &&& d.distracting == t.distracting
    &&& d.idle == t.idle
    &&& d.effective_work == e
    &&& d.qualified == qualifies_spec(e, t.distracting as int)
    &&& d.reason@ == reason_of(e, t.distracting as int)
}

/// The streak after the verdicts for `days`, in order.
pub open spec fn streak_over(s: StreakState, days: Seq<(CalendarDate, CategoryTotals)>) -> StreakState
    decreases days.len(),
{
    if days.len() == 0 {
        s
    } else {
        streak_after(streak_over(s, days.drop_last()), days.last().0, day_qualifies(days.last().1))
    }
}

/// The sum over `sessions` of the durations dated `date` in category `c`.
fn sum_for(sessions: &Vec<Session>, date: CalendarDate, c: Category) -> (r: i128)
    ensures
        r == day_total(sessions@, date, c),
{
    let ghost s = sessions@;
    let mut acc: i128 = 0;
    let mut i: usize = 0;
    while i < sessions.len()
        invariant
            0 <= i <= s.len(),
            s == sessions@,
            acc == day_total(s.subrange(0, i as int), date, c),
            -(i as int) * 0x8000_0000_0000_0000 <= acc <= (i as int) * 0x8000_0000_0000_0000,
        decreases s.len() - i,
    {
        assert(s.subrange(0, i + 1).drop_last() =~= s.subrange(0, i as int));
        if sessions[i].date == date && sessions[i].category == c {
            acc = acc + sessions[i].duration_seconds as i128;
        }
        i += 1;
    }
    assert(s.subrange(0, s.len() as int) =~= s);
    acc
}

/// Effective work: productive time less three quarters of distracting time,
/// rounded down, and never below zero.
pub fn effective_work(productive: i64, distracting: i64) -> (r: i64)
    requires
        0 <= productive,
        0 <= distracting,
    ensures
        r == effective_work_of(productive as int, distracting as int),
{
    let penalty = ((distracting as i128) * 3 / 4) as i64;
    if productive > penalty {
        productive - penalty
    } else {
        0
    }
}

/// Whether a day meets the effective-work target within the distraction limit.
pub fn qualifies(effective_work: i64, distracting: i64) -> (r: bool)
    ensures
        r == qualifies_spec(effective_work as int, distracting as int),
{
    effective_work >= DAILY_TARGET_SECONDS && distracting <= DISTRACTION_LIMIT_SECONDS
}

/// The explanation stored with a verdict.
pub fn qualification_reason(effective_work: i64, distracting: i64) -> (r: String)
    ensures
        r@ == reason_of(effective_work as int, distracting as int),
{
    if qualifies(effective_work, distracting) {
        String::from_str("Targets Met")
    } else if effective_work < DAILY_TARGET_SECONDS {
        let mut r = String::from_str("Effective Work low (");
        r.append(decimal_text(effective_work).as_str());
        r.append("/");
        r.append(decimal_text(DAILY_TARGET_SECONDS).as_str());
        r.append("s)");
        r
    } else {
        let mut r = String::from_str("Distraction too high (");
        r.append(decimal_text(distracting).as_str());
        r.append("/");
        r.append(decimal_text(DISTRACTION_LIMIT_SECONDS).as_str());
        r.append("s)");
        r
    }
}

/// Dates of `v` strictly increase along it.
pub open spec fn dates_ascending(v: Seq<CalendarDate>) -> bool {
    forall|i: int, j: int| 0 <= i < j < v.len() ==> (#[trigger] v[i]).precedes(#[trigger] v[j])
}

/// A day still to be judged: it has sessions, lies before `today`, and has none of its own in `summarized`.
pub open spec fn is_pending(
    d: CalendarDate,
    session_dates: Seq<CalendarDate>,
    summarized: Seq<CalendarDate>,
    today: CalendarDate,
) -> bool {
    session_dates.contains(d) && d.precedes(today) && !summarized.contains(d)
}

/// Whether `d` occurs in `v`.
fn contains_date(v: &Vec<CalendarDate>, d: CalendarDate) -> (r: bool)
    ensures
        r == v@.contains(d),
{
    let mut i: usize = 0;
    while i < v.len()
        invariant
            0 <= i <= v@.len(),
            forall|k: int| 0 <= k < i ==> v@[k] != d,
        decreases v@.len() - i,
    {
        if v[i] == d {
            return true;
        }
        i += 1;
    }
    false
}

/// Inserts a date that `out` lacks at its place in ascending order.
fn insert_ascending(out: &mut Vec<CalendarDate>, d: CalendarDate)
    requires
        dates_ascending(old(out)@),
        !old(out)@.contains(d),
    ensures
        dates_ascending(final(out)@),
        forall|x: CalendarDate| final(out)@.contains(x) <==> (old(out)@.contains(x) || x == d),
{
    let ghost o = out@;
    let mut p: usize = 0;
    while p < out.len() && out[p].is_before(&d)
        invariant
            0 <= p <= o.len(),
            out@ == o,
            forall|k: int| 0 <= k < p ==> (#[trigger] o[k]).precedes(d),
        decreases o.len() - p,
    {
        p += 1;
    }
    if p < out.len() {
        assert(o[p as int] != d);
        assert(d.precedes(o[p as int]));
    }
    out.insert(p, d);
    let ghost n = out@;
    assert(n =~= o.insert(p as int, d));
    assert forall|i: int, j: int| 0 <= i < j < n.len() implies (#[trigger] n[i]).precedes(
        #[trigger] n[j],
    ) by {
        if j < p {
        } else if j == p {
        } else if i < p {
            assert(n[j] == o[j - 1]);
            assert(o[i].precedes(o[j - 1]) || i == j - 1);
        } else if i == p {
            assert(n[j] == o[j - 1]);
            assert(o[p as int].precedes(o[j - 1]) || p == j - 1);
        } else {
            assert(n[j] == o[j - 1]);
            assert(n[i] == o[i - 1]);
        }
    }
    assert forall|x: CalendarDate| n.contains(x) implies (o.contains(x) || x == d) by {
        let k = choose|k: int| 0 <= k < n.len() && n[k] == x;
        if k < p {
            assert(o[k] == x);
        } else if k > p {
            assert(o[k - 1] == x);
        }
    }
    assert forall|x: CalendarDate| (o.contains(x) || x == d) implies n.contains(x) by {
        if x == d {
            assert(n[p as int] == d);
        } else {
            let k = choose|k: int| 0 <= k < o.len() && o[k] == x;
            if k < p {
                assert(n[k] == x);
            } else {
                assert(n[k + 1] == x);
            }
        }
    }
}

/// The days still to be judged, each once and in ascending order: the dates of
/// sealed sessions before `today` that are not in `summarized`.
pub fn pending_days(
    session_dates: &Vec<CalendarDate>,
    summarized: &Vec<CalendarDate>,
    today: CalendarDate,
) -> (r: Vec<CalendarDate>)
    ensures
        dates_ascending(r@),
        forall|d: CalendarDate|
            r@.contains(d) <==> is_pending(d, session_dates@, summarized@, today),
{
    let mut out: Vec<CalendarDate> = Vec::new();
    let mut i: usize = 0;
    while i < session_dates.len()
        invariant
            0 <= i <= session_dates@.len(),
            dates_ascending(out@),
            forall|d: CalendarDate|
                out@.contains(d) <==> (is_pending(d, session_dates@.subrange(0, i as int), summarized@, today)),
        decreases session_dates@.len() - i,
    {
        let d = session_dates[i];
        let ghost before = out@;
        if d.is_before(&today) && !contains_date(summarized, d) && !contains_date(&out, d) {
            insert_ascending(&mut out, d);
        }
        assert forall|x: CalendarDate|
            out@.contains(x) <==> is_pending(x, session_dates@.subrange(0, i + 1), summarized@, today) by {
            let pre = session_dates@.subrange(0, i as int);
            let post = session_dates@.subrange(0, i + 1);
            assert(post =~= pre.push(d));
            if pre.contains(x) {
                let k = choose|k: int| 0 <= k < pre.len() && pre[k] == x;
                assert(post[k] == x);
            }
            if post.contains(x) && x != d {
                let k = choose|k: int| 0 <= k < post.len() && post[k] == x;
                assert(pre[k] == x);
            }
            assert(post[i as int] == d);
        }
        i += 1;
    }
    assert(session_dates@.subrange(0, session_dates@.len() as int) =~= session_dates@);
    out
}

impl CategoryTotals {
    /// Totals per category of the sessions dated `date`; `None` when one of them
    /// does not fit in an `i64`.
    pub fn for_day(sessions: &Vec<Session>, date: CalendarDate) -> (r: Option<CategoryTotals>)
        ensures
            r is Some <==> day_totals_fit(sessions@, date),
            r matches Some(t) ==> totals_of(t, sessions@, date),
    {
        let p = sum_for(sessions, date, Category::Productive);
        let n = sum_for(sessions, date, Category::Neutral);
        let rc = sum_for(sessions, date, Category::Recovery);
        let d = sum_for(sessions, date, Category::Distracting);
        let idle = sum_for(sessions, date, Category::Idle);
        let lo = i64::MIN as i128;
        let hi = i64::MAX as i128;
        if lo <= p && p <= hi && lo <= n && n <= hi && lo <= rc && rc <= hi && lo <= d && d <= hi
            && lo <= idle && idle <= hi {
            Some(
                CategoryTotals {
                    productive: p as i64,
                    neutral: n as i64,
                    recovery: rc as i64,
                    distracting: d as i64,
                    idle: idle as i64,
                },
            )
        } else {
            None
        }
    }
}

impl SessionEngine {
    /// Seals the verdict for `date` from its totals and records it in the streak.
    pub fn evaluate_day(date: CalendarDate, totals: &CategoryTotals, streak: &mut StreakState) -> (r:
        DailySummary)
        requires
            totals_nonnegative(*totals),
            old(streak).current_streak < i32::MAX,
        ensures
            summarizes(r, date, *totals),
            *final(streak) == streak_after(*old(streak), date, r.qualified),
    {
        let effective = effective_work(totals.productive, totals.distracting);
        let qualified = qualifies(effective, totals.distracting);
        let reason = qualification_reason(effective, totals.distracting);
        streak.record(date, qualified);
        DailySummary {
            date,
            productive: totals.productive,
            neutral: totals.neutral,
            recovery: totals.recovery,
            distracting: totals.distracting,
            idle: totals.idle,
            effective_work: effective,
            qualified,
            reason,
        }
    }

    /// Seals the verdicts of the pending days in the order given and records each in the streak.
    pub fn evaluate_history(pending: &Vec<(CalendarDate, CategoryTotals)>, streak: &mut StreakState) -> (r:
        Vec<DailySummary>)
        requires
            forall|i: int| 0 <= i < pending@.len() ==> totals_nonnegative(#[trigger] pending@[i].1),
            old(streak).wf(),
            old(streak).current_streak + pending@.len() < i32::MAX,
        ensures
            r@.len() == pending@.len(),
            forall|i: int|
                0 <= i < r@.len() ==> summarizes(#[trigger] r@[i], pending@[i].0, pending@[i].1),
            *final(streak) == streak_over(*old(streak), pending@),
            final(streak).wf(),
    {
        let ghost p = pending@;
        let ghost s0 = *streak;
        let mut out: Vec<DailySummary> = Vec::new();
        let mut i: usize = 0;
        while i < pending.len()
            invariant
                0 <= i <= p.len(),
                p == pending@,
                forall|k: int| 0 <= k < p.len() ==> totals_nonnegative(#[trigger] p[k].1),
                s0.current_streak + p.len() < i32::MAX,
                s0.wf(),
                streak.wf(),
                streak.current_streak <= s0.current_streak + i,
                *streak == streak_over(s0, p.subrange(0, i as int)),
                out@.len() == i,
                forall|k: int| 0 <= k < i ==> summarizes(#[trigger] out@[k], p[k].0, p[k].1),
            decreases p.len() - i,
        {
            assert(p.subrange(0, i + 1).drop_last() =~= p.subrange(0, i as int));
            let date = pending[i].0;
            let summary = SessionEngine::evaluate_day(date, &pending[i].1, streak);
            out.push(summary);
            i += 1;
        }
        assert(p.subrange(0, p.len() as int) =~= p);
        out
    }
}

} // verus!
