//! The request carried from the command line to the aggregation entry
//! points: the optional date bounds and the all-records flag.

use vstd::prelude::*;

use crate::options::Opts;

verus! {

/// One aggregation request.
#[derive(Debug, Clone)]
pub struct RequestDto {
    pub start_date: Option<String>,
    pub end_date: Option<String>,
    pub all: bool,
}

impl RequestDto {
    pub fn start_date(&self) -> (r: &Option<String>)
        ensures
            *r == self.start_date,
    {
        &self.start_date
    }

    pub fn end_date(&self) -> (r: &Option<String>)
        ensures
            *r == self.end_date,
    {
        &self.end_date
    }

    pub fn all(&self) -> (r: bool)
        ensures
            r == self.all,
    {
        self.all
    }
}

impl From<Opts> for RequestDto {
    fn from(opts: Opts) -> (r: RequestDto) {
        RequestDto { start_date: opts.start_date, end_date: opts.end_date, all: opts.all }
    }
}

impl vstd::std_specs::convert::FromSpecImpl<Opts> for RequestDto {
    open spec fn obeys_from_spec() -> bool {
        true
    }

    open spec fn from_spec(v: Opts) -> RequestDto {
        RequestDto { start_date: v.start_date, end_date: v.end_date, all: v.all }
    }
}

} // verus!
