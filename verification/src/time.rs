//! The current wall-clock time, read once at the boundary.

use vstd::prelude::*;
use crate::date::Date;
use crate::datetime::DateTime;

verus! {

/// Relies on chrono::Utc::now, shifted to UTC+9 with
/// chrono::FixedOffset::east_opt and read through chrono's Datelike and
/// Timelike accessors, whose documentation gives these ranges: month 1..=12,
/// day of month 1..=31, hour 0..=23, minute 0..=59, second 0..=59.  Nothing
/// more can be promised of a clock reading.
#[verifier::external_body]
fn now_parts() -> (r: (i64, u32, u32, u32, u32, u32))
    ensures
        1 <= r.1 <= 12,
        1 <= r.2 <= 31,
        r.3 < 24,
        r.4 < 60,
        r.5 < 60,
{
    let offset = chrono::FixedOffset::east_opt(9 * 3600).unwrap();
    let t = chrono::Utc::now().with_timezone(&offset).naive_local();
    (
        chrono::Datelike::year(&t) as i64,
        chrono::Datelike::month(&t),
        chrono::Datelike::day(&t),
        chrono::Timelike::hour(&t),
        chrono::Timelike::minute(&t),
        chrono::Timelike::second(&t),
    )
}

/// The current time in UTC+9, or `None` should the clock ever read a year
/// outside the representable range.
pub fn now() -> (r: Option<DateTime>)
    ensures
        r matches Some(t) ==> t.wf(),
{
    let (y, month, day, hour, minute, second) = now_parts();
    if y < 1 || y > 9999 {
        return None;
    }
    let date = match Date::from_ymd(y as u32, month, day) {
        Some(d) => d,
        None => {
            return None;
        },
    };
    DateTime::from_parts(date, hour, minute, second)
}

} // verus!
