//! The duration value of a source record, guarded at construction: a value
//! at or above one hundred hours is refused as corrupt upstream data.

use vstd::prelude::*;

use crate::errors::ValidationError;
use crate::task_duration::{
    duration_str, hundred_hours_millis, opt_millis_ok, opt_millis_val, TaskDuration,
};

verus! {

/// A source record's elapsed time in milliseconds, validated at
/// construction to lie under one hundred hours.
#[derive(Debug, Clone, Copy, PartialEq, Eq, PartialOrd, Ord, Hash, Structural)]
pub struct ClickupDuration {
    pub millis: i64,
}

impl ClickupDuration {
    pub open spec fn wf(self) -> bool {
        0 <= self.millis
    }

    /// The duration a millisecond-count string denotes (absent means zero).
    /// A value at or above one hundred hours is refused with a
    /// `ValidationError`; anything under it is accepted.
    pub fn new(millisec_str: Option<&str>) -> (r: Result<ClickupDuration, ValidationError>)
        requires
            opt_millis_ok(millisec_str),
        ensures
            r is Ok <==> opt_millis_val(millisec_str) < hundred_hours_millis(),
            r is Ok ==> r->Ok_0.millis == opt_millis_val(millisec_str) && r->Ok_0.wf(),
    {
        match TaskDuration::from_millis_str(millisec_str) {
            Ok(d) => Ok(ClickupDuration { millis: d.as_duration() }),
            Err(e) => Err(e),
        }
    }

    /// The milliseconds this duration holds.
    pub fn as_duration(&self) -> (r: i64)
        ensures
            r == self.millis,
    {
        self.millis
    }

    /// The sum of two source durations (not re-validated, as upstream data
    /// has already passed the construction guard).
    pub fn add(&self, other: ClickupDuration) -> (r: ClickupDuration)
        requires
            self.wf(),
            other.wf(),
            self.millis + other.millis <= i64::MAX,
        ensures
            r.millis == self.millis + other.millis,
            r.wf(),
    {
        ClickupDuration { millis: self.millis + other.millis }
    }

    /// Renders the duration as `HH:MM:SS`; a zero duration renders as
    /// `00:00:00`.
    pub fn to_string(&self) -> (r: String)
        requires
            self.wf(),
        ensures
            r@ == duration_str(self.millis as int),
    {
        TaskDuration::new(self.millis).to_string()
    }
}

} // verus!
