//! A countdown timer's core: reading a time expression into an end time, and
//! deciding, tick by tick, what a waiter shows until that time is reached.

pub mod args;
pub mod calendar;
pub mod endtime;
pub mod eta;
pub mod expr;
pub mod formats;
pub mod number;
pub mod progress;
pub mod zone;

pub use args::split_args;
pub use calendar::{CivilDate, ClockTime, Instant, LocalDateTime};
pub use endtime::parse_end_time;
pub use eta::format_eta;
pub use expr::{parse_time_expr, ParseError, TimeExpr};
pub use progress::{plan_wait, quiet_delay, Delay, ProgressState, Tick, WaitPlan, POLL_MILLIS};
