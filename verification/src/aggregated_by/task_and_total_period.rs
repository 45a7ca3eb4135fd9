//! The task × whole-period view: one row per task identifier over the whole
//! window, rendered as a bracketed TSV block with a grand-total row.

use vstd::prelude::*;

use crate::aggregated_by::engine::{
    push_title, records_total, records_wf_all, sort_rows, spec_rows, stable_sorted, title_str,
    aggregate, AggRow,
};
use crate::date_range::DateRange;
use crate::grouping::{lemma_sum_by_prefix_le, sum_by};
use crate::jst::{datetime_space_str, JstDateTime};
use crate::task_duration::{duration_str, TaskDuration};
use crate::task_records::TaskRecords;
use crate::as_vec::AsVec;

verus! {

/// One row: the latest-updated record's metadata for a task, and the task's
/// summed duration over the window.
#[derive(Debug, Clone, PartialEq)]
pub struct TaskAndTotalPeriodRecord {
    pub updated_at: JstDateTime,
    pub charge_name: String,
    pub task_id: String,
    pub task_name: String,
    pub task_url: String,
    pub task_status: String,
    pub total_duration: TaskDuration,
}

impl TaskAndTotalPeriodRecord {
    pub open spec fn wf(self) -> bool {
        self.updated_at.wf() && self.total_duration.wf()
    }
}

/// The view's row of an engine row.
pub open spec fn of_row(row: AggRow) -> TaskAndTotalPeriodRecord {
    TaskAndTotalPeriodRecord {
        updated_at: row.updated_at,
        charge_name: row.charge_name,
        task_id: row.task_id,
        task_name: row.task_name,
        task_url: row.task_url,
        task_status: row.task_status,
        total_duration: row.total_duration,
    }
}

pub open spec fn records_of_rows(rows: Seq<AggRow>) -> Seq<TaskAndTotalPeriodRecord> {
    rows.map_values(|row: AggRow| of_row(row))
}

/// One data line: update instant, duration, charge name, status, task name,
/// tab-separated.
pub open spec fn record_line(rec: TaskAndTotalPeriodRecord) -> Seq<char> {
    datetime_space_str(rec.updated_at) + "\t"@ + duration_str(rec.total_duration.millis as int)
        + "\t"@ + rec.charge_name@ + "\t"@ + rec.task_status@ + "\t"@ + rec.task_name@
}

/// The data lines, each preceded by a newline.
pub open spec fn record_lines(rs: Seq<TaskAndTotalPeriodRecord>) -> Seq<char>
    decreases rs.len(),
{
    if rs.len() == 0 {
        Seq::<char>::empty()
    } else {
        record_lines(rs.drop_last()) + "\n"@ + record_line(rs.last())
    }
}

/// The summed duration of the view's rows, in milliseconds.
pub open spec fn rows_sum(rs: Seq<TaskAndTotalPeriodRecord>) -> int {
    sum_by(rs, |rec: TaskAndTotalPeriodRecord| rec.total_duration.millis as int)
}

/// The task × whole-period report: the window and its rows, in rendering
/// order.
#[derive(Debug, Clone, PartialEq)]
pub struct TaskAndTotalPeriodRecords {
    pub date_range: DateRange,
    pub records: Vec<TaskAndTotalPeriodRecord>,
}

impl TaskAndTotalPeriodRecords {
    pub open spec fn wf(self) -> bool {
        &&& self.date_range.wf()
        &&& forall|i: int| 0 <= i < self.records@.len() ==> (#[trigger] self.records@[i]).wf()
        &&& rows_sum(self.records@) <= i64::MAX
    }

    /// The whole report text: title, blank line, then the bracketed TSV
    /// block of header, data rows and the grand-total row.
    pub open spec fn report_str(self) -> Seq<char> {
        title_str(self.date_range)
            + "\n\n[\nupdated_at\ttotal_duration\tcharge_name\ttask_status\ttask_name"@
            + record_lines(self.records@) + "\ngrand total\t"@ + duration_str(
            rows_sum(self.records@),
        ) + "\n]"@
    }

    /// Aggregates the records by task identifier over the whole window and
    /// puts the rows in rendering order: charge name, then status, then
    /// duration, ties keeping their first-occurrence order.
    pub fn new(date_range: DateRange, task_records: TaskRecords) -> (r: TaskAndTotalPeriodRecords)
        requires
            date_range.wf(),
            records_wf_all(task_records.items()),
            records_total(task_records.items()) <= i64::MAX,
        ensures
            r.date_range == date_range,
            r.records@ == records_of_rows(
                stable_sorted(spec_rows(task_records.items(), false, false), false, false),
            ),
            r.wf(),
    {
        proof {
            crate::aggregated_by::engine::lemma_rows_total(task_records.items(), false, false);
        }
        let ghost items = task_records.items();
        let rows = aggregate(task_records.into_inner(), false, false);
        let sorted = sort_rows(rows, false, false);
        let ghost sorted_view = sorted@;
        let n = sorted.len();
        let mut records: Vec<TaskAndTotalPeriodRecord> = Vec::new();
        let mut i: usize = 0;
        while i < n
            invariant
                i <= n,
                n == sorted@.len(),
                sorted@ == sorted_view,
                forall|k: int| 0 <= k < sorted@.len() ==> (#[trigger] sorted@[k]).wf(),
                records@.len() == i,
                forall|j: int| 0 <= j < i ==> #[trigger] records@[j] == of_row(sorted@[j]),
                forall|j: int| 0 <= j < i ==> (#[trigger] records@[j]).wf(),
            decreases n - i,
        {
            let row = sorted[i].clone();
            let rec = TaskAndTotalPeriodRecord {
                updated_at: row.updated_at,
                charge_name: row.charge_name,
                task_id: row.task_id,
                task_name: row.task_name,
                task_url: row.task_url,
                task_status: row.task_status,
                total_duration: row.total_duration,
            };
            records.push(rec);
            i = i + 1;
        }
        proof {
            assert(records@ =~= records_of_rows(sorted_view));
            crate::grouping::lemma_sum_by_pointwise(
                records@,
                sorted_view,
                |rec: TaskAndTotalPeriodRecord| rec.total_duration.millis as int,
                |row: AggRow| row.total_duration.millis as int,
            );
        }
        TaskAndTotalPeriodRecords { date_range, records }
    }

    /// Renders the report.
    #[verifier::rlimit(100)]
    pub fn to_string(&self) -> (r: String)
        requires
            self.wf(),
        ensures
            r@ == self.report_str(),
    {
        let mut out = String::new();
        push_title(&mut out, &self.date_range);
        out.append("\n\n[\nupdated_at\ttotal_duration\tcharge_name\ttask_status\ttask_name");
        let ghost base = out@;
        let n = self.records.len();
        let mut i: usize = 0;
        proof {
            assert(self.records@.subrange(0, 0) =~= Seq::<TaskAndTotalPeriodRecord>::empty());
        }
        while i < n
            invariant
                i <= n,
                n == self.records@.len(),
                forall|k: int| 0 <= k < self.records@.len() ==> (#[trigger] self.records@[k]).wf(),
                out@ == base + record_lines(self.records@.subrange(0, i as int)),
            decreases n - i,
        {
            proof {
                assert(self.records@.subrange(0, i + 1).drop_last() =~= self.records@.subrange(
                    0,
                    i as int,
                ));
                assert(self.records@.subrange(0, i + 1).last() == self.records@[i as int]);
            }
            let rec = &self.records[i];
            out.append("\n");
            let dt = rec.updated_at.format_slash_space();
            out.append(dt.as_str());
            out.append("\t");
            let dur = rec.total_duration.to_string();
            out.append(dur.as_str());
            out.append("\t");
            out.append(rec.charge_name.as_str());
            out.append("\t");
            out.append(rec.task_status.as_str());
            out.append("\t");
            out.append(rec.task_name.as_str());
            proof {
                assert(out@ =~= base + record_lines(self.records@.subrange(0, i + 1)));
            }
            i = i + 1;
        }
        proof {
            assert(self.records@.subrange(0, n as int) =~= self.records@);
        }
        let mut total = TaskDuration::zero();
        let mut j: usize = 0;
        proof {
            assert(self.records@.subrange(0, 0) =~= Seq::<TaskAndTotalPeriodRecord>::empty());
        }
        while j < n
            invariant
                j <= n,
                n == self.records@.len(),
                forall|k: int| 0 <= k < self.records@.len() ==> (#[trigger] self.records@[k]).wf(),
                rows_sum(self.records@) <= i64::MAX,
                total.millis == rows_sum(self.records@.subrange(0, j as int)),
                total.wf(),
            decreases n - j,
        {
            proof {
                assert(self.records@.subrange(0, j + 1).drop_last() =~= self.records@.subrange(
                    0,
                    j as int,
                ));
                assert(self.records@.subrange(0, j + 1).last() == self.records@[j as int]);
                lemma_sum_by_prefix_le(
                    self.records@,
                    j + 1,
                    |rec: TaskAndTotalPeriodRecord| rec.total_duration.millis as int,
                );
            }
            total = total.add(self.records[j].total_duration);
            j = j + 1;
        }
        proof {
            assert(self.records@.subrange(0, n as int) =~= self.records@);
        }
        out.append("\ngrand total\t");
        let total_str = total.to_string();
        out.append(total_str.as_str());
        out.append("\n]");
        proof {
            assert(out@ =~= self.report_str());
        }
        out
    }
}

} // verus!
