//! Attendance session aggregation and streak engine.
//!
//! Turns a sparse sequence of timestamped attendance events into discrete
//! daily sessions, a gap-filled calendar series, and derived statistics
//! (longest session, earliest arrival, latest departure, streaks and
//! rolling-window counts).

pub mod calendar;
pub mod date;
pub mod day;
pub mod format;
pub mod heatmap;
pub mod person;
pub mod stats;
pub mod tz;
