//! The resignation record and the vacation-start-date resolver.
//!
//! The resolver walks backward from the retirement date, spending one day of
//! the leave balance on every working day it meets, and returns the date at
//! which the balance runs out.  A day is non-working when the holiday
//! calendar lists it or when it falls on a Saturday or Sunday.  The
//! retirement date itself is classified exactly like every later step of the
//! walk: it consumes a day of the balance only when it is a working day.

use vstd::prelude::*;
use crate::calendar::HolidayCalendar;
use crate::date::Date;
use crate::datetime::DateTime;

verus! {

/// Why no vacation start date could be resolved.
#[derive(Clone, Copy, Debug, PartialEq, Eq, Structural)]
pub enum ResolveError {
    /// The remaining balance was zero on entry.
    NoLeaveBalance,
    /// The walk ran past the earliest representable date.
    InvalidDate,
}

/// A resignation record: the values the resolver works on, with the
/// creation timestamp kept for information only.
#[derive(Clone, Copy, Debug, PartialEq, Eq, Structural)]
pub struct Resignation {
    pub retirement_date: Date,
    pub remaining_paid_leave_days: u32,
    pub created_at: DateTime,
}

/// The values a caller hands in to create a resignation record.
#[derive(Clone, Copy, Debug, PartialEq, Eq, Structural)]
pub struct ResignationInput {
    pub retirement_date: Date,
    pub remaining_paid_leave_days: u32,
}

/// A day is non-working when the calendar lists it, or when it is a
/// Saturday (weekday 5) or a Sunday (weekday 6).
pub open spec fn is_non_working_spec(day: int, cal: Map<int, Seq<char>>) -> bool {
    cal.dom().contains(day) || day % 7 == 5 || day % 7 == 6
}

/// The backward walk, on day numbers: starting at `day` with `remaining`
/// leave days still to spend, steps one day earlier at a time, spending a
/// day of the balance on each working day, until the balance is gone.
/// `None` when the walk would step before day 0.
pub open spec fn walk_spec(day: int, remaining: nat, cal: Map<int, Seq<char>>) -> Option<int>
    decreases day,
{
    if remaining == 0 {
        Some(day)
    } else if day <= 0 {
        None
    } else if is_non_working_spec(day - 1, cal) {
        walk_spec(day - 1, remaining, cal)
    } else {
        walk_spec(day - 1, (remaining - 1) as nat, cal)
    }
}

/// What `resolve` returns, on day numbers: an error on a zero balance; the
/// retirement date itself spends a day of the balance when it is a working
/// day; then the walk spends the rest.
pub open spec fn resolve_spec(retirement: int, balance: nat, cal: Map<int, Seq<char>>) -> Result<
    int,
    ResolveError,
> {
    if balance == 0 {
        Err(ResolveError::NoLeaveBalance)
    } else {
        let start = if is_non_working_spec(retirement, cal) {
            balance
        } else {
            (balance - 1) as nat
        };
        match walk_spec(retirement, start, cal) {
            Some(day) => Ok(day),
            None => Err(ResolveError::InvalidDate),
        }
    }
}

/// How a result of `resolve` relates to the resolved day number.
pub open spec fn resolve_post(
    retirement: int,
    balance: nat,
    cal: Map<int, Seq<char>>,
    r: Result<Date, ResolveError>,
) -> bool {
    match r {
        Ok(date) => date.wf() && resolve_spec(retirement, balance, cal) == Ok::<
            int,
            ResolveError,
        >(date@),
        Err(e) => resolve_spec(retirement, balance, cal) == Err::<int, ResolveError>(e),
    }
}

/// The working-day classifier of the service.
pub fn is_non_working_day(date: &Date, holidays: &HolidayCalendar) -> (r: bool)
    requires
        date.wf(),
        holidays.wf(),
    ensures
        r == is_non_working_spec(date@, holidays@),
{
    if holidays.contains_date(date) {
        return true;
    }
    let w = date.weekday();
    w == 5 || w == 6
}

/// Resolves the vacation start date: the date from which continuous leave,
/// skipping non-working days, exhausts the balance exactly at the
/// retirement date.
///
/// Fails with `NoLeaveBalance` exactly on a zero balance, and with
/// `InvalidDate` exactly when the walk would step before 0001-01-01.
#[verifier::loop_isolation(false)]
pub fn resolve(retirement_date: &Date, remaining_paid_leave_days: u32, holidays: &HolidayCalendar)
    -> (r: Result<Date, ResolveError>)
    requires
        retirement_date.wf(),
        holidays.wf(),
    ensures
        resolve_post(retirement_date@, remaining_paid_leave_days as nat, holidays@, r),
        r == Err::<Date, ResolveError>(ResolveError::NoLeaveBalance) <==> remaining_paid_leave_days
            == 0,
{
    if remaining_paid_leave_days == 0 {
        return Err(ResolveError::NoLeaveBalance);
    }
    let mut cursor: Date = *retirement_date;
    let mut remaining: u32 = remaining_paid_leave_days;
    if !is_non_working_day(&cursor, holidays) {
        remaining = remaining - 1;
    }
    let ghost start = remaining as nat;
    proof {
        crate::date::lemma_day_number_nonneg(
            cursor.year as int,
            cursor.month as int,
            cursor.day as int,
        );
    }
    while remaining > 0
        invariant
            cursor.wf(),
            holidays.wf(),
            cursor@ >= 0,
            walk_spec(cursor@, remaining as nat, holidays@) == walk_spec(
                retirement_date@,
                start,
                holidays@,
            ),
        decreases cursor@,
    {
        match cursor.prev_day() {
            None => {
                return Err(ResolveError::InvalidDate);
            },
            Some(p) => {
                cursor = p;
                if !is_non_working_day(&cursor, holidays) {
                    remaining = remaining - 1;
                }
            },
        }
    }
    Ok(cursor)
}

impl Resignation {
    pub open spec fn wf(self) -> bool {
        self.retirement_date.wf() && self.created_at.wf()
    }

    pub fn new(retirement_date: Date, remaining_paid_leave_days: u32, created_at: DateTime) -> (r:
        Resignation)
        ensures
            r == (Resignation { retirement_date, remaining_paid_leave_days, created_at }),
    {
        Resignation { retirement_date, remaining_paid_leave_days, created_at }
    }

    /// The vacation start date of this record against a holiday snapshot.
    pub fn vacation_start_date(&self, holidays: &HolidayCalendar) -> (r: Result<
        Date,
        ResolveError,
    >)
        requires
            self.wf(),
            holidays.wf(),
        ensures
            resolve_post(
                self.retirement_date@,
                self.remaining_paid_leave_days as nat,
                holidays@,
                r,
            ),
            r == Err::<Date, ResolveError>(ResolveError::NoLeaveBalance)
                <==> self.remaining_paid_leave_days == 0,
    {
        resolve(&self.retirement_date, self.remaining_paid_leave_days, holidays)
    }
}

} // verus!
