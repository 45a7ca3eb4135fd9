//! A time-entry fragment from the source service: an elapsed duration with
//! its start and end instants and the task it belongs to. Its end timestamp
//! is the recency anchor, its start timestamp the date-attribution anchor —
//! the two are kept apart on purpose.

use vstd::prelude::*;

use crate::clickup_task::{lemma_nonneg_instant_attribution, parse_timestamp, timestamp_str_ok};
use crate::date_range::DateRange;
use crate::jst::JstDateTime;
use crate::strfmt::digits_val;
use crate::errors::ValidationError;
use crate::task_duration::{hundred_hours_millis, opt_millis_ok, opt_millis_val, TaskDuration};
use crate::task_record::TaskRecord;

verus! {

/// A time-entry fragment.
#[derive(Debug)]
pub struct ClickupTimeEntry {
    pub id: String,
    pub duration: TaskDuration,
    pub start: JstDateTime,
    pub end: JstDateTime,
    pub task_id: String,
    pub task_name: String,
    pub task_url: String,
    pub task_status: String,
    pub parent_list_name: String,
}

impl ClickupTimeEntry {
    pub open spec fn wf(self) -> bool {
        &&& self.duration.wf()
        &&& self.start.wf()
        &&& self.end.wf()
        &&& self.start.millis >= 0
        &&& self.end.millis >= 0
    }

    /// Builds a fragment from the source fields: the duration as a
    /// millisecond-count string, start and end as epoch-millisecond strings.
    /// A duration at or above one hundred hours is refused with a
    /// `ValidationError`, the construction-time guard against corrupt
    /// upstream data.
    pub fn new(
        id: &str,
        duration: &str,
        start: &str,
        end: &str,
        task_id: &str,
        task_name: &str,
        task_url: &str,
        task_status: &str,
        list_name: &str,
    ) -> (r: Result<ClickupTimeEntry, ValidationError>)
        requires
            opt_millis_ok(Some(duration)),
            timestamp_str_ok(start@),
            timestamp_str_ok(end@),
        ensures
            r is Ok <==> opt_millis_val(Some(duration)) < hundred_hours_millis(),
            r is Ok ==> {
                let te = r->Ok_0;
                &&& te.id@ == id@
                &&& te.duration.millis == opt_millis_val(Some(duration))
                &&& te.start.millis == digits_val(start@)
                &&& te.end.millis == digits_val(end@)
                &&& te.task_id@ == task_id@
                &&& te.task_name@ == task_name@
                &&& te.task_url@ == task_url@
                &&& te.task_status@ == task_status@
                &&& te.parent_list_name@ == list_name@
                &&& te.wf()
            },
    {
        let dur = match TaskDuration::from_millis_str(Some(duration)) {
            Ok(d) => d,
            Err(e) => {
                return Err(e);
            },
        };
        Ok(ClickupTimeEntry {
            id: id.to_owned(),
            duration: dur,
            start: parse_timestamp(start),
            end: parse_timestamp(end),
            task_id: task_id.to_owned(),
            task_name: task_name.to_owned(),
            task_url: task_url.to_owned(),
            task_status: task_status.to_owned(),
            parent_list_name: list_name.to_owned(),
        })
    }

    /// The canonical record of this fragment: the start instant fixes the
    /// attributed date, the end instant serves as the recency timestamp.
    pub fn to_task_record(self) -> (r: TaskRecord)
        requires
            self.wf(),
        ensures
            r.task_id == self.task_id,
            r.task_name == self.task_name,
            r.task_url == self.task_url,
            r.task_status == self.task_status,
            r.charge_name == self.parent_list_name,
            r.duration == self.duration,
            r.updated_at == self.end,
            r.target_date.day_number() == DateRange::attributed_day_number(self.start),
            r.wf(),
    {
        proof {
            lemma_nonneg_instant_attribution(self.start);
        }
        let target_date = DateRange::convert_datetime_to_date(self.start);
        TaskRecord {
            task_id: self.task_id,
            task_name: self.task_name,
            task_url: self.task_url,
            task_status: self.task_status,
            charge_name: self.parent_list_name,
            duration: self.duration,
            target_date,
            updated_at: self.end,
        }
    }
}

impl Clone for ClickupTimeEntry {
    fn clone(&self) -> (r: Self)
        ensures
            r == *self,
    {
        ClickupTimeEntry {
            id: self.id.clone(),
            duration: self.duration,
            start: self.start,
            end: self.end,
            task_id: self.task_id.clone(),
            task_name: self.task_name.clone(),
            task_url: self.task_url.clone(),
            task_status: self.task_status.clone(),
            parent_list_name: self.parent_list_name.clone(),
        }
    }
}

impl PartialEq for ClickupTimeEntry {
    /// Fragments compare by the task they belong to.
    fn eq(&self, other: &Self) -> (r: bool) {
        self.task_id == other.task_id
    }
}

impl vstd::std_specs::cmp::PartialEqSpecImpl for ClickupTimeEntry {
    open spec fn obeys_eq_spec() -> bool {
        true
    }

    open spec fn eq_spec(&self, other: &ClickupTimeEntry) -> bool {
        self.task_id@ == other.task_id@
    }
}

} // verus!
