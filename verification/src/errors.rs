//! Validation failures of the core: a date string that does not match the
//! accepted pattern, a resolved range whose end precedes its start, and a
//! duration at or above the hundred-hour guard. All are detected at
//! construction time and surfaced to the caller; none is recoverable here.

use vstd::prelude::*;

verus! {

/// A supplied date string does not match the accepted `YYYY/MM/DD` pattern
/// (or names an impossible calendar date). Carries the offending input.
#[derive(Debug, Clone, PartialEq, Eq)]
pub struct FormatError {
    pub input: String,
}

/// The resolved end date precedes the resolved start date. Carries both
/// inputs verbatim.
#[derive(Debug, Clone, PartialEq, Eq)]
pub struct RangeError {
    pub start: String,
    pub end: String,
}

/// A source duration is at or above the hundred-hour guard against corrupt
/// upstream data.
#[derive(Debug, Clone, PartialEq, Eq)]
pub struct ValidationError {
}

/// Either failure of date-range normalization.
#[derive(Debug, Clone, PartialEq, Eq)]
pub enum DateRangeError {
    Format(FormatError),
    Range(RangeError),
}

pub open spec fn format_error_message(input: Seq<char>) -> Seq<char> {
    "Invalid format. It must be 'YYYY/MM/DD'. Input is '"@ + input + "'"@
}

pub open spec fn range_error_message(start: Seq<char>, end: Seq<char>) -> Seq<char> {
    "Start date must be before end date. \nInput start: "@ + start + ", \nInput end  : "@ + end
}

pub open spec fn validation_error_message() -> Seq<char> {
    "Too many milliseconds. Please specify less than 100 hours."@
}

impl FormatError {
    pub fn message(&self) -> (r: String)
        ensures
            r@ == format_error_message(self.input@),
    {
        let mut out = String::new();
        out.append("Invalid format. It must be 'YYYY/MM/DD'. Input is '");
        out.append(self.input.as_str());
        out.append("'");
        proof {
            assert(out@ =~= format_error_message(self.input@));
        }
        out
    }
}

impl RangeError {
    pub fn message(&self) -> (r: String)
        ensures
            r@ == range_error_message(self.start@, self.end@),
    {
        let mut out = String::new();
        out.append("Start date must be before end date. \nInput start: ");
        out.append(self.start.as_str());
        out.append(", \nInput end  : ");
        out.append(self.end.as_str());
        proof {
            assert(out@ =~= range_error_message(self.start@, self.end@));
        }
        out
    }
}

impl ValidationError {
    pub fn message(&self) -> (r: String)
        ensures
            r@ == validation_error_message(),
    {
        let mut out = String::new();
        out.append("Too many milliseconds. Please specify less than 100 hours.");
        proof {
            assert(out@ =~= validation_error_message());
        }
        out
    }
}

impl DateRangeError {
    pub fn message(&self) -> (r: String)
        ensures
            self is Format ==> r@ == format_error_message(self->Format_0.input@),
            self is Range ==> r@ == range_error_message(
                self->Range_0.start@,
                self->Range_0.end@,
            ),
    {
        match self {
            DateRangeError::Format(e) => e.message(),
            DateRangeError::Range(e) => e.message(),
        }
    }
}

} // verus!
