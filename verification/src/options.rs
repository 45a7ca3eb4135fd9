//! The resolved command-line options and the report view they select: one of
//! four fixed shapes, chosen by the two independent grouping flags.

use vstd::prelude::*;

verus! {

/// The command-line options, already parsed into plain values.
#[derive(Debug, Clone)]
pub struct Opts {
    pub start_date: Option<String>,
    pub end_date: Option<String>,
    pub by_charge: bool,
    pub by_daily: bool,
    pub all: bool,
    pub set_clipboard: bool,
}

impl Opts {
    pub fn start_date(&self) -> (r: &Option<String>)
        ensures
            *r == self.start_date,
    {
        &self.start_date
    }

    pub fn end_date(&self) -> (r: &Option<String>)
        ensures
            *r == self.end_date,
    {
        &self.end_date
    }

    pub fn by_charge(&self) -> (r: bool)
        ensures
            r == self.by_charge,
    {
        self.by_charge
    }

    pub fn by_daily(&self) -> (r: bool)
        ensures
            r == self.by_daily,
    {
        self.by_daily
    }

    pub fn all(&self) -> (r: bool)
        ensures
            r == self.all,
    {
        self.all
    }

    pub fn set_clipboard(&self) -> (r: bool)
        ensures
            r == self.set_clipboard,
    {
        self.set_clipboard
    }
}

/// The four report views, selected once per request.
#[derive(Debug, Clone, Copy, PartialEq, Eq, Structural)]
pub enum AggregateCondition {
    TaskAndTotalPeriod,
    ChargeAndTotalPeriod,
    TaskAndDaily,
    ChargeAndDaily,
}

/// The view the two flags select.
pub open spec fn condition_of(by_charge: bool, by_daily: bool) -> AggregateCondition {
    if !by_charge && !by_daily {
        AggregateCondition::TaskAndTotalPeriod
    } else if by_charge && !by_daily {
        AggregateCondition::ChargeAndTotalPeriod
    } else if !by_charge && by_daily {
        AggregateCondition::TaskAndDaily
    } else {
        AggregateCondition::ChargeAndDaily
    }
}

impl From<Opts> for AggregateCondition {
    fn from(opts: Opts) -> (r: AggregateCondition) {
        if !opts.by_charge() && !opts.by_daily() {
            AggregateCondition::TaskAndTotalPeriod
        } else if opts.by_charge() && !opts.by_daily() {
            AggregateCondition::ChargeAndTotalPeriod
        } else if !opts.by_charge() && opts.by_daily() {
            AggregateCondition::TaskAndDaily
        } else {
            AggregateCondition::ChargeAndDaily
        }
    }
}

impl vstd::std_specs::convert::FromSpecImpl<Opts> for AggregateCondition {
    open spec fn obeys_from_spec() -> bool {
        true
    }

    open spec fn from_spec(v: Opts) -> AggregateCondition {
        condition_of(v.by_charge, v.by_daily)
    }
}

} // verus!
