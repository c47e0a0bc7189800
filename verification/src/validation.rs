//! Boundary validation of incoming resignation records.

use vstd::prelude::*;
use crate::date::Date;

verus! {

#[derive(Clone, Copy, Debug, PartialEq, Eq, Structural)]
pub enum ValidationError {
    /// The retirement date does not lie strictly after today.
    NotFutureDate,
}

/// Accepts only dates strictly after the day it was built with.
#[derive(Clone, Copy, Debug, PartialEq, Eq, Structural)]
pub struct FutureDateValidator {
    pub today: Date,
}

impl FutureDateValidator {
    pub fn new(today: Date) -> (r: FutureDateValidator)
        ensures
            r.today == today,
    {
        FutureDateValidator { today }
    }

    /// Passes exactly the dates strictly after `today`.
    pub fn check(&self, value: &Date) -> (r: Result<(), ValidationError>)
        requires
            self.today.wf(),
            value.wf(),
        ensures
            r is Ok <==> value@ > self.today@,
    {
        if value.day_number() > self.today.day_number() {
            Ok(())
        } else {
            Err(ValidationError::NotFutureDate)
        }
    }
}

} // verus!
