//! The cross-day streak: one irreversible update per sealed date.

use crate::calendar::CalendarDate;
use vstd::prelude::*;

verus! {

/// The single streak record.
pub struct StreakState {
    pub current_streak: i32,
    pub best_streak: i32,
    pub last_evaluated_date: Option<CalendarDate>,
}

/// The streak after the verdict `qualified` for `date`: a date that was the last
/// one evaluated changes nothing; a qualified day extends the current streak and
/// raises the best one if it passes it; any other day resets the current streak.
pub open spec fn streak_after(s: StreakState, date: CalendarDate, qualified: bool) -> StreakState {
    if s.last_evaluated_date == Some(date) {
        s
    } else if qualified {
        StreakState {
            current_streak: (s.current_streak + 1) as i32,
            best_streak: if s.current_streak + 1 > s.best_streak {
                (s.current_streak + 1) as i32
            } else {
                s.best_streak
            },
            last_evaluated_date: Some(date),
        }
    } else {
        StreakState {
            current_streak: 0,
            best_streak: s.best_streak,
            last_evaluated_date: Some(date),
        }
    }
}

impl StreakState {
    /// No streak yet: both counters at zero and no date evaluated.
    pub fn new() -> (r: StreakState)
        ensures
            r.current_streak == 0,
            r.best_streak == 0,
            r.last_evaluated_date is None,
            r.wf(),
    {
        StreakState { current_streak: 0, best_streak: 0, last_evaluated_date: None }
    }

    /// The counters are non-negative and the best streak is at least the current one.
    pub open spec fn wf(&self) -> bool {
        0 <= self.current_streak <= self.best_streak
    }

    /// Records the verdict for `date`, once: a retry for the date last evaluated
    /// changes nothing.
    pub fn record(&mut self, date: CalendarDate, qualified: bool)
        requires
            old(self).current_streak < i32::MAX,
        ensures
            *final(self) == streak_after(*old(self), date, qualified),
            old(self).wf() ==> final(self).wf(),
            final(self).best_streak >= old(self).best_streak,
    {
        if let Some(last) = self.last_evaluated_date {
            if last == date {
                return;
            }
        }
        if qualified {
            self.current_streak = self.current_streak + 1;
            if self.current_streak > self.best_streak {
                self.best_streak = self.current_streak;
            }
        } else {
            self.current_streak = 0;
        }
        self.last_evaluated_date = Some(date);
    }
}

/// A verdict recorded twice for one date counts once: the second recording
/// leaves the streak as the first left it, whatever its verdict.
pub proof fn lemma_record_once(s: StreakState, date: CalendarDate, first: bool, second: bool)
    ensures
        streak_after(streak_after(s, date, first), date, second) == streak_after(s, date, first),
{
}

/// The best streak never falls and is never below the current streak that the
/// update produces.
pub proof fn lemma_best_is_running_max(s: StreakState, date: CalendarDate, qualified: bool)
    requires
        s.wf(),
        s.current_streak < i32::MAX,
    ensures
        streak_after(s, date, qualified).best_streak >= s.best_streak,
        streak_after(s, date, qualified).wf(),
{
}

} // verus!
