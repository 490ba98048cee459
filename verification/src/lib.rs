//! Appointment scheduling and conflict resolution for a clinic backend.
//!
//! The crate models clinic time (dates, daytimes, operating hours), decides
//! whether a candidate appointment timeframe is admissible, and relocates a
//! doctor's appointments out of a leave window into the next free slot.

pub mod config;
pub mod filter;
pub mod parse;
pub mod reschedule;
pub mod time;
pub mod types;
pub mod util;
