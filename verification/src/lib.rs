//! A calendar of months: the days of a range bucketed by month, laid out as
//! week grids side by side or as a flat list, with weekends, holidays and
//! today marked.
//!
//! The library decides what is shown and where; it hands out lines of spans
//! that carry a colour class, and leaves the colours and the printing to its
//! caller. The current date, the names of the days of the week and the era
//! labels of the months come from the caller as well.

pub mod args;
pub mod calendar;
pub mod cmd;
pub mod compose;
pub mod date;
pub mod grid;
pub mod holiday;
pub mod laws;
pub mod list;
pub mod text;

pub use crate::args::MONTH_NAMES;
pub use crate::cmd::CalCmd;
