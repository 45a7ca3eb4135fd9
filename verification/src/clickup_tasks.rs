//! The task-snapshot collection and its conversion into canonical records.

use vstd::prelude::*;

use crate::as_vec::{without, AsVec};
use crate::clickup_task::ClickupTask;
use crate::date_range::DateRange;
use crate::task_record::TaskRecord;
use crate::task_records::TaskRecords;
use vstd::std_specs::cmp::PartialEqSpec;

verus! {

/// The canonical record a task snapshot maps to: the same identity and
/// metadata, the list name as the charge name, and the update timestamp as
/// both recency and (under the 05:00 rule) date attribution.
pub open spec fn is_record_of_task(t: ClickupTask, r: TaskRecord) -> bool {
    &&& r.task_id == t.task_id
    &&& r.task_name == t.task_name
    &&& r.task_url == t.task_url
    &&& r.task_status == t.task_status
    &&& r.charge_name == t.parent_list_name
    &&& r.duration == t.duration
    &&& r.updated_at == t.updated_at
    &&& r.target_date.day_number() == DateRange::attributed_day_number(t.updated_at)
    &&& r.wf()
}

/// The task-snapshot collection, in source order.
#[derive(Debug, Clone, PartialEq)]
pub struct ClickupTasks(pub Vec<ClickupTask>);

impl AsVec for ClickupTasks {
    type Item = ClickupTask;

    open spec fn items(&self) -> Seq<ClickupTask> {
        self.0@
    }

    fn into_inner(self) -> (r: Vec<ClickupTask>) {
        self.0
    }

    fn as_vec(&self) -> (r: &Vec<ClickupTask>) {
        &self.0
    }

    fn as_mut_vec(&mut self) -> (r: &mut Vec<ClickupTask>) {
        &mut self.0
    }

    fn is_empty(&self) -> (r: bool) {
        self.0.len() == 0
    }

    fn exclude(&mut self, other: &ClickupTask) {
        let ghost orig = self.0@;
        let n = self.0.len();
        let mut out: Vec<ClickupTask> = Vec::new();
        let mut i: usize = 0;
        proof {
            reveal(Seq::filter);
            assert(orig.subrange(0, 0) =~= Seq::<ClickupTask>::empty());
        }
        while i < n
            invariant
                i <= n,
                n == orig.len(),
                self.0@ == orig,
                out@ == without(orig.subrange(0, i as int), *other),
            decreases n - i,
        {
            proof {
                reveal(Seq::filter);
                assert(orig.subrange(0, i + 1).drop_last() =~= orig.subrange(0, i as int));
                assert(orig.subrange(0, i + 1).last() == orig[i as int]);
            }
            if !(self.0[i] == *other) {
                out.push(self.0[i].clone());
            }
            i = i + 1;
        }
        proof {
            assert(orig.subrange(0, n as int) =~= orig);
        }
        self.0 = out;
    }
}

impl ClickupTasks {
    /// Wraps a snapshot vector.
    pub fn new(tasks: Vec<ClickupTask>) -> (r: ClickupTasks)
        ensures
            r.items() == tasks@,
    {
        ClickupTasks(tasks)
    }

    /// Converts every snapshot into its canonical record, keeping order.
    pub fn to_task_records(self) -> (r: TaskRecords)
        requires
            forall|i: int| 0 <= i < self.items().len() ==> (#[trigger] self.items()[i]).wf(),
        ensures
            r.items().len() == self.items().len(),
            forall|i: int|
                0 <= i < self.items().len() ==> is_record_of_task(
                    self.items()[i],
                    #[trigger] r.items()[i],
                ),
    {
        let ghost orig = self.0@;
        proof {
            assert forall|j: int| 0 <= j < orig.len() implies (#[trigger] orig[j]).wf() by {
                assert(self.items()[j].wf());
            }
        }
        let n = self.0.len();
        let mut out: Vec<TaskRecord> = Vec::new();
        let mut i: usize = 0;
        while i < n
            invariant
                i <= n,
                n == orig.len(),
                self.0@ == orig,
                forall|j: int| 0 <= j < orig.len() ==> (#[trigger] orig[j]).wf(),
                out@.len() == i,
                forall|j: int|
                    0 <= j < i ==> is_record_of_task(orig[j], #[trigger] out@[j]),
            decreases n - i,
        {
            let rec = self.0[i].clone().to_task_record();
            out.push(rec);
            i = i + 1;
        }
        TaskRecords(out)
    }
}

} // verus!
