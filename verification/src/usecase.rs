//! The reconciliation step of one aggregation request: both source
//! collections brought to the canonical shape and unioned, nothing merged —
//! the view constructors perform the grouping.

use vstd::prelude::*;

use crate::as_vec::AsVec;
use crate::clickup_task::ClickupTask;
use crate::clickup_tasks::{is_record_of_task, ClickupTasks};
use crate::clickup_time_entries::{is_record_of_entry, ClickupTimeEntries};
use crate::clickup_time_entry::ClickupTimeEntry;
use crate::task_records::TaskRecords;

verus! {

/// Converts the task snapshots and the time-entry fragments to canonical
/// records and concatenates them: one record per source record, snapshots
/// first, fragments after, in their source orders.
pub fn reconcile_task_records(tasks: ClickupTasks, time_entries: ClickupTimeEntries) -> (r:
    TaskRecords)
    requires
        forall|i: int| 0 <= i < tasks.items().len() ==> (#[trigger] tasks.items()[i]).wf(),
        forall|i: int|
            0 <= i < time_entries.items().len() ==> (#[trigger] time_entries.items()[i]).wf(),
    ensures
        r.items().len() == tasks.items().len() + time_entries.items().len(),
        forall|i: int|
            0 <= i < tasks.items().len() ==> is_record_of_task(
                tasks.items()[i],
                #[trigger] r.items()[i],
            ),
        forall|i: int|
            0 <= i < time_entries.items().len() ==> is_record_of_entry(
                time_entries.items()[i],
                #[trigger] r.items()[tasks.items().len() + i],
            ),
{
    let ghost tasks_view = tasks.items();
    let ghost entries_view = time_entries.items();
    let records_from_tasks = tasks.to_task_records();
    let records_from_time_entries = time_entries.to_task_records();
    let records = records_from_tasks.concat(&records_from_time_entries);
    proof {
        assert forall|i: int|
            0 <= i < entries_view.len() implies is_record_of_entry(
            entries_view[i],
            #[trigger] records.items()[tasks_view.len() + i],
        ) by {
            assert(records.items()[tasks_view.len() + i]
                == records_from_time_entries.items()[i]);
        }
    }
    records
}

} // verus!
