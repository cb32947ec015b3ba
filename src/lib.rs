//! Session derivation and daily qualification engine for a personal
//! activity monitor: raw samples become sealed sessions, sessions become
//! daily verdicts, and verdicts drive an irreversible streak.

pub mod calendar;
pub mod category;
pub mod daily;
pub mod live;
pub mod session;
pub mod streak;
pub mod watcher;
