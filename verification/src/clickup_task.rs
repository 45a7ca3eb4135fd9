//! A task snapshot from the source service: identity, display metadata, an
//! optional elapsed duration, and the snapshot's update timestamp, which
//! serves as both its recency and its date-attribution anchor.

use vstd::prelude::*;

use crate::date_range::DateRange;
use crate::jst::{
    days_before_year, jst_instant_in_range, lemma_day_number_range, lemma_days_before_year_bounds,
    Jst, JstDateTime,
};
use crate::strfmt::{
    all_digits, digits_val, lemma_digits_val_bound, lemma_pow10_mono, pow10, read_digits,
};
use crate::errors::ValidationError;
use crate::task_duration::{hundred_hours_millis, opt_millis_ok, opt_millis_val, TaskDuration};
use crate::task_record::TaskRecord;

verus! {

/// An accepted epoch-millisecond timestamp string: one to eighteen decimal
/// digits whose value lies in the supported instant range.
pub open spec fn timestamp_str_ok(s: Seq<char>) -> bool {
    1 <= s.len() <= 18 && all_digits(s) && jst_instant_in_range(digits_val(s))
}

/// Reads an epoch-millisecond string as an instant.
pub fn parse_timestamp(s: &str) -> (r: JstDateTime)
    requires
        timestamp_str_ok(s@),
    ensures
        r.wf(),
        r.millis == digits_val(s@),
        r.millis >= 0,
{
    proof {
        lemma_digits_val_bound(s@);
        lemma_pow10_mono(s@.len(), 18);
        assert(pow10(18) == 1_000_000_000_000_000_000) by {
            reveal_with_fuel(pow10, 19);
        }
    }
    let n = s.unicode_len();
    let v = match read_digits(s, 0, n) {
        Some(v) => v,
        None => {
            proof {
                assert(s@.subrange(0, n as int) =~= s@);
                assert(false);
            }
            0
        },
    };
    proof {
        assert(s@.subrange(0, n as int) =~= s@);
    }
    Jst::timestamp_millis(v as i64)
}

/// An instant at or after the Unix epoch is attributed to a day at or after
/// 1970, so the 05:00 rule never steps before the calendar's origin.
pub proof fn lemma_nonneg_instant_attribution(t: JstDateTime)
    requires
        t.wf(),
        t.millis >= 0,
    ensures
        t.date.day_number() >= days_before_year(1970),
        DateRange::attributed_day_number(t) >= 1,
{
    let abs = t.abs_millis();
    let dn = t.date.day_number();
    assert(abs >= days_before_year(1970) * 86400000 + 32400000);
    assert(86400000 * (abs / 86400000) + abs % 86400000 == abs);
    if dn < days_before_year(1970) {
        assert(86400000 * dn + 86400000 <= 86400000 * days_before_year(1970));
        assert(false);
    }
    lemma_days_before_year_bounds(1970);
}

/// A task snapshot.
#[derive(Debug)]
pub struct ClickupTask {
    pub task_id: String,
    pub task_name: String,
    pub task_url: String,
    pub task_status: String,
    pub parent_list_name: String,
    pub duration: TaskDuration,
    pub updated_at: JstDateTime,
}

impl ClickupTask {
    pub open spec fn wf(self) -> bool {
        &&& self.duration.wf()
        &&& self.updated_at.wf()
        &&& self.updated_at.millis >= 0
    }

    /// Builds a snapshot from the source fields: an optional duration as a
    /// millisecond-count string and the update timestamp as an
    /// epoch-millisecond string. A duration at or above one hundred hours is
    /// refused with a `ValidationError`, the construction-time guard against
    /// corrupt upstream data.
    pub fn new(
        task_id: &str,
        task_name: &str,
        task_url: &str,
        task_status: &str,
        list_name: &str,
        duration: Option<&str>,
        updated_at: &str,
    ) -> (r: Result<ClickupTask, ValidationError>)
        requires
            opt_millis_ok(duration),
            timestamp_str_ok(updated_at@),
        ensures
            r is Ok <==> opt_millis_val(duration) < hundred_hours_millis(),
            r is Ok ==> {
                let t = r->Ok_0;
                &&& t.task_id@ == task_id@
                &&& t.task_name@ == task_name@
                &&& t.task_url@ == task_url@
                &&& t.task_status@ == task_status@
                &&& t.parent_list_name@ == list_name@
                &&& t.duration.millis == opt_millis_val(duration)
                &&& t.updated_at.millis == digits_val(updated_at@)
                &&& t.wf()
            },
    {
        let dur = match TaskDuration::from_millis_str(duration) {
            Ok(d) => d,
            Err(e) => {
                return Err(e);
            },
        };
        Ok(ClickupTask {
            task_id: task_id.to_owned(),
            task_name: task_name.to_owned(),
            task_url: task_url.to_owned(),
            task_status: task_status.to_owned(),
            parent_list_name: list_name.to_owned(),
            duration: dur,
            updated_at: parse_timestamp(updated_at),
        })
    }

    /// The canonical record of this snapshot: its update timestamp is both
    /// the recency anchor and, under the 05:00 rule, the attributed date.
    pub fn to_task_record(self) -> (r: TaskRecord)
        requires
            self.wf(),
        ensures
            r.task_id == self.task_id,
            r.task_name == self.task_name,
            r.task_url == self.task_url,
            r.task_status == self.task_status,
            r.charge_name == self.parent_list_name,
            r.duration == self.duration,
            r.updated_at == self.updated_at,
            r.target_date.day_number() == DateRange::attributed_day_number(self.updated_at),
            r.wf(),
    {
        proof {
            lemma_nonneg_instant_attribution(self.updated_at);
        }
        let target_date = DateRange::convert_datetime_to_date(self.updated_at);
        TaskRecord {
            task_id: self.task_id,
            task_name: self.task_name,
            task_url: self.task_url,
            task_status: self.task_status,
            charge_name: self.parent_list_name,
            duration: self.duration,
            target_date,
            updated_at: self.updated_at,
        }
    }
}

impl Clone for ClickupTask {
    fn clone(&self) -> (r: Self)
        ensures
            r == *self,
    {
        ClickupTask {
            task_id: self.task_id.clone(),
            task_name: self.task_name.clone(),
            task_url: self.task_url.clone(),
            task_status: self.task_status.clone(),
            parent_list_name: self.parent_list_name.clone(),
            duration: self.duration,
            updated_at: self.updated_at,
        }
    }
}

impl PartialEq for ClickupTask {
    /// Snapshots compare by task identity alone.
    fn eq(&self, other: &Self) -> (r: bool) {
        self.task_id == other.task_id
    }
}

impl vstd::std_specs::cmp::PartialEqSpecImpl for ClickupTask {
    open spec fn obeys_eq_spec() -> bool {
        true
    }

    open spec fn eq_spec(&self, other: &ClickupTask) -> bool {
        self.task_id@ == other.task_id@
    }
}

} // verus!
