//! A verified core for a paid-leave planning service.
//!
//! A resignation record carries a retirement date and a remaining
//! paid-leave balance.  The library answers the one derived question of the
//! service: on which calendar date must the employee start consuming the
//! remaining leave, walking backward from the retirement date and skipping
//! weekends and the days of a holiday calendar, so that the balance runs out
//! exactly at retirement.

pub mod api;
pub mod calendar;
pub mod date;
pub mod datetime;
pub mod laws;
pub mod resignation;
pub mod time;
pub mod url;
pub mod validation;
