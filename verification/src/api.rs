//! The decision layer behind the service's query and mutation operations.
//!
//! Transport, storage and the holiday fetch live outside this library; the
//! caller hands each operation the record, the holiday snapshot and the
//! clock readings it fetched, and receives the decided values back.

use vstd::prelude::*;
use crate::calendar::HolidayCalendar;
use crate::date::Date;
use crate::datetime::DateTime;
use crate::resignation::Resignation;
use crate::resignation::ResignationInput;
use crate::resignation::ResolveError;
use crate::resignation::resolve;
use crate::resignation::resolve_post;
use crate::validation::FutureDateValidator;
use crate::validation::ValidationError;

verus! {

/// Serves the query for the stored record's vacation start date.
pub struct VacationStartDateQuery;

impl VacationStartDateQuery {
    /// The vacation start date of the latest record, against the fetched
    /// holiday snapshot.
    pub fn vacation_start_date(&self, latest: &Resignation, holidays: &HolidayCalendar) -> (r:
        Result<Date, ResolveError>)
        requires
            latest.wf(),
            holidays.wf(),
        ensures
            resolve_post(
                latest.retirement_date@,
                latest.remaining_paid_leave_days as nat,
                holidays@,
                r,
            ),
    {
        latest.vacation_start_date(holidays)
    }
}

/// Serves the query for the latest stored record.
pub struct LatestResignationQuery;

impl LatestResignationQuery {
    /// The record as the query exposes it: unchanged.
    pub fn latest_resignation(&self, latest: &Resignation) -> (r: Resignation)
        ensures
            r == *latest,
    {
        *latest
    }
}

/// The one mutation of the service: posting a resignation record.
pub struct PostResignationMutation;

impl PostResignationMutation {
    /// Decides the record a post request stores: the input is accepted
    /// exactly when its retirement date lies strictly after `today`, and the
    /// stored record carries the input values with `now` as its creation
    /// time.
    pub fn post_resignation(&self, input: &ResignationInput, today: &Date, now: &DateTime) -> (r:
        Result<Resignation, ValidationError>)
        requires
            input.retirement_date.wf(),
            today.wf(),
        ensures
            r is Ok <==> input.retirement_date@ > today@,
            r matches Ok(rec) ==> rec == (Resignation {
                retirement_date: input.retirement_date,
                remaining_paid_leave_days: input.remaining_paid_leave_days,
                created_at: *now,
            }),
    {
        let validator = FutureDateValidator::new(*today);
        match validator.check(&input.retirement_date) {
            Ok(()) => Ok(
                Resignation::new(
                    input.retirement_date,
                    input.remaining_paid_leave_days,
                    *now,
                ),
            ),
            Err(e) => Err(e),
        }
    }
}

/// The root of the query operations.
pub struct QueryRoot;

impl QueryRoot {
    /// See `LatestResignationQuery::latest_resignation`.
    pub fn latest_resignation(&self, latest: &Resignation) -> (r: Resignation)
        ensures
            r == *latest,
    {
        LatestResignationQuery.latest_resignation(latest)
    }

    /// See `VacationStartDateQuery::vacation_start_date`.
    pub fn vacation_start_date(&self, latest: &Resignation, holidays: &HolidayCalendar) -> (r:
        Result<Date, ResolveError>)
        requires
            latest.wf(),
            holidays.wf(),
        ensures
            resolve_post(
                latest.retirement_date@,
                latest.remaining_paid_leave_days as nat,
                holidays@,
                r,
            ),
    {
        VacationStartDateQuery.vacation_start_date(latest, holidays)
    }
}

/// The root of the mutation operations.
pub struct MutationRoot;

impl MutationRoot {
    /// See `PostResignationMutation::post_resignation`.
    pub fn post_resignation(&self, input: &ResignationInput, today: &Date, now: &DateTime) -> (r:
        Result<Resignation, ValidationError>)
        requires
            input.retirement_date.wf(),
            today.wf(),
        ensures
            r is Ok <==> input.retirement_date@ > today@,
            r matches Ok(rec) ==> rec == (Resignation {
                retirement_date: input.retirement_date,
                remaining_paid_leave_days: input.remaining_paid_leave_days,
                created_at: *now,
            }),
    {
        PostResignationMutation.post_resignation(input, today, now)
    }
}

} // verus!
