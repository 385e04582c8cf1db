//! Calendars: the days of a month laid out in weeks, and the months of a
//! year side by side.

pub mod config;
pub mod dates;
pub mod month;
pub mod year;
