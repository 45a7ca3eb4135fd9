//! The canonical record: the single shape that task snapshots and time-entry
//! fragments are both brought to before aggregation. Records sharing a task
//! identifier are not deduplicated here; the aggregation views collapse them.

use vstd::prelude::*;

use crate::jst::{Date, JstDateTime};
use crate::task_duration::TaskDuration;

verus! {

/// One canonical time-tracking record. `target_date` is the calendar day the
/// record counts toward under the 05:00 rule; `updated_at` is the recency
/// timestamp deciding whose metadata wins within an aggregation group.
#[derive(Debug)]
pub struct TaskRecord {
    pub task_id: String,
    pub task_name: String,
    pub task_url: String,
    pub task_status: String,
    pub charge_name: String,
    pub duration: TaskDuration,
    pub target_date: Date,
    pub updated_at: JstDateTime,
}

impl TaskRecord {
    pub open spec fn wf(self) -> bool {
        &&& self.duration.wf()
        &&& self.target_date.wf()
        &&& self.updated_at.wf()
    }
}

impl Clone for TaskRecord {
    fn clone(&self) -> (r: Self)
        ensures
            r == *self,
    {
        TaskRecord {
            task_id: self.task_id.clone(),
            task_name: self.task_name.clone(),
            task_url: self.task_url.clone(),
            task_status: self.task_status.clone(),
            charge_name: self.charge_name.clone(),
            duration: self.duration,
            target_date: self.target_date,
            updated_at: self.updated_at,
        }
    }
}

impl PartialEq for TaskRecord {
    fn eq(&self, other: &Self) -> (r: bool) {
        self.task_id == other.task_id && self.task_name == other.task_name && self.task_url
            == other.task_url && self.task_status == other.task_status && self.charge_name
            == other.charge_name && self.duration == other.duration && self.target_date
            == other.target_date && self.updated_at == other.updated_at
    }
}

impl vstd::std_specs::cmp::PartialEqSpecImpl for TaskRecord {
    open spec fn obeys_eq_spec() -> bool {
        true
    }

    open spec fn eq_spec(&self, other: &TaskRecord) -> bool {
        &&& self.task_id@ == other.task_id@
        &&& self.task_name@ == other.task_name@
        &&& self.task_url@ == other.task_url@
        &&& self.task_status@ == other.task_status@
        &&& self.charge_name@ == other.charge_name@
        &&& self.duration == other.duration
        &&& self.target_date == other.target_date
        &&& self.updated_at == other.updated_at
    }
}

} // verus!
