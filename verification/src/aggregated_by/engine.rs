//! The aggregation engine behind the four report views. Records are grouped
//! by a key chosen from two independent axes — task identity or charge name,
//! whole period or per day — then each group folds to one row: the
//! most-recently-updated member's metadata (the later of equal recency
//! timestamps winning) and the group's summed duration. Rows are then put in
//! the view's rendering order by a stable insertion sort.

use vstd::prelude::*;

use crate::grouping::{
    find_group, group_keys, groups_wf, latest, lemma_find_group, lemma_group_sum_le_total,
    lemma_latest_props, lemma_spec_groups_members, lemma_spec_groups_wf, lemma_sum_by_concat,
    lemma_sum_by_prefix_le, lemma_sum_groups_partition, spec_groups, sum_by,
};
use crate::jst::{day_number_x, Date, JstDateTime};
use crate::strfmt::{seq_lt, str_eq, str_lt};
use crate::task_duration::TaskDuration;
use crate::task_record::TaskRecord;

verus! {

/// The grouping key of a record under the two view axes.
pub open spec fn record_key(r: TaskRecord, by_charge: bool, daily: bool) -> (
    Seq<char>,
    Option<Date>,
) {
    (
        if by_charge {
            r.charge_name@
        } else {
            r.task_id@
        },
        if daily {
            Some(r.target_date)
        } else {
            None
        },
    )
}

/// The records of `s` grouped by the view's key, groups in first-occurrence
/// order.
pub open spec fn record_groups(s: Seq<TaskRecord>, by_charge: bool, daily: bool) -> Seq<
    Seq<TaskRecord>,
> {
    spec_groups(s, |r: TaskRecord| record_key(r, by_charge, daily))
}

/// The group member with the greatest recency timestamp (of equals, the
/// later in input order).
pub open spec fn record_latest(g: Seq<TaskRecord>) -> TaskRecord {
    latest(g, |r: TaskRecord| r.updated_at.millis as int)
}

/// The summed duration of a record group, in milliseconds.
pub open spec fn record_sum(g: Seq<TaskRecord>) -> int {
    sum_by(g, |r: TaskRecord| r.duration.millis as int)
}

/// The summed duration of a whole record sequence, in milliseconds.
pub open spec fn records_total(s: Seq<TaskRecord>) -> int {
    sum_by(s, |r: TaskRecord| r.duration.millis as int)
}

pub open spec fn records_wf_all(s: Seq<TaskRecord>) -> bool {
    forall|i: int| 0 <= i < s.len() ==> (#[trigger] s[i]).wf()
}

/// One aggregate row before a view picks its columns: the recency winner's
/// metadata and the group's total duration.
#[derive(Debug)]
pub struct AggRow {
    pub target_date: Date,
    pub updated_at: JstDateTime,
    pub charge_name: String,
    pub task_id: String,
    pub task_name: String,
    pub task_url: String,
    pub task_status: String,
    pub total_duration: TaskDuration,
}

impl AggRow {
    pub open spec fn wf(self) -> bool {
        &&& self.target_date.wf()
        &&& self.updated_at.wf()
        &&& self.total_duration.wf()
    }
}

impl Clone for AggRow {
    fn clone(&self) -> (r: Self)
        ensures
            r == *self,
    {
        AggRow {
            target_date: self.target_date,
            updated_at: self.updated_at,
            charge_name: self.charge_name.clone(),
            task_id: self.task_id.clone(),
            task_name: self.task_name.clone(),
            task_url: self.task_url.clone(),
            task_status: self.task_status.clone(),
            total_duration: self.total_duration,
        }
    }
}

/// The row a record group folds to.
pub open spec fn row_of_group(g: Seq<TaskRecord>) -> AggRow {
    let w = record_latest(g);
    AggRow {
        target_date: w.target_date,
        updated_at: w.updated_at,
        charge_name: w.charge_name,
        task_id: w.task_id,
        task_name: w.task_name,
        task_url: w.task_url,
        task_status: w.task_status,
        total_duration: TaskDuration { millis: record_sum(g) as i64 },
    }
}

/// The rows of every group of `s` under the view's key, in group order
/// (before sorting).
pub open spec fn spec_rows(s: Seq<TaskRecord>, by_charge: bool, daily: bool) -> Seq<AggRow> {
    record_groups(s, by_charge, daily).map_values(|g: Seq<TaskRecord>| row_of_group(g))
}

/// Builds one row per group of `records` under the view axes.
pub fn aggregate(records: Vec<TaskRecord>, by_charge: bool, daily: bool) -> (r: Vec<AggRow>)
    requires
        records_wf_all(records@),
        records_total(records@) <= i64::MAX,
    ensures
        r@ == spec_rows(records@, by_charge, daily),
        forall|i: int| 0 <= i < r@.len() ==> (#[trigger] r@[i]).wf(),
{
    proof {
        lemma_spec_groups_wf(records@, |r: TaskRecord| record_key(r, by_charge, daily));
        lemma_spec_groups_members(records@, |r: TaskRecord| record_key(r, by_charge, daily));
    }
    let groups = group_records(&records, by_charge, daily);
    let ghost gviews = rec_group_views(groups@);
    let n = groups.len();
    let mut rows: Vec<AggRow> = Vec::new();
    let mut i: usize = 0;
    while i < n
        invariant
            i <= n,
            n == groups@.len(),
            gviews == rec_group_views(groups@),
            gviews == record_groups(records@, by_charge, daily),
            records_wf_all(records@),
            records_total(records@) <= i64::MAX,
            groups_wf(gviews, |r: TaskRecord| record_key(r, by_charge, daily)),
            forall|a: int, b: int|
                0 <= a < gviews.len() && 0 <= b < gviews[a].len() ==> records@.contains(
                    #[trigger] gviews[a][b],
                ),
            rows@.len() == i,
            forall|j: int| 0 <= j < i ==> #[trigger] rows@[j] == row_of_group(gviews[j]),
            forall|j: int| 0 <= j < i ==> (#[trigger] rows@[j]).wf(),
        decreases n - i,
    {
        proof {
            assert(rec_group_views(groups@)[i as int] == groups@[i as int]@);
            assert forall|b: int|
                0 <= b < gviews[i as int].len() implies (#[trigger] gviews[i as int][b]).wf() by {
                assert(records@.contains(gviews[i as int][b]));
                let j = choose|j: int|
                    0 <= j < records@.len() && records@[j] == gviews[i as int][b];
            }
            lemma_group_sum_le_total(
                records@,
                |r: TaskRecord| record_key(r, by_charge, daily),
                |r: TaskRecord| r.duration.millis as int,
                i as int,
            );
            lemma_latest_props(gviews[i as int], |r: TaskRecord| r.updated_at.millis as int);
        }
        let group = &groups[i];
        let winner = latest_record(group);
        let total = sum_group(group);
        let row = AggRow {
            target_date: winner.target_date,
            updated_at: winner.updated_at,
            charge_name: winner.charge_name.clone(),
            task_id: winner.task_id.clone(),
            task_name: winner.task_name.clone(),
            task_url: winner.task_url.clone(),
            task_status: winner.task_status.clone(),
            total_duration: total,
        };
        proof {
            let w = record_latest(gviews[i as int]);
            assert(records@.contains(w));
            let j = choose|j: int| 0 <= j < records@.len() && records@[j] == w;
            assert(row == row_of_group(gviews[i as int]));
        }
        rows.push(row);
        i = i + 1;
    }
    proof {
        assert(rows@ =~= spec_rows(records@, by_charge, daily));
    }
    rows
}

/// The views of a vector of record groups.
pub open spec fn rec_group_views(gs: Seq<Vec<TaskRecord>>) -> Seq<Seq<TaskRecord>> {
    gs.map_values(|g: Vec<TaskRecord>| g@)
}

/// Groups the records by the view's key, groups in first-occurrence order
/// and records in input order within each group.
fn group_records(records: &Vec<TaskRecord>, by_charge: bool, daily: bool) -> (r: Vec<
    Vec<TaskRecord>,
>)
    ensures
        rec_group_views(r@) == record_groups(records@, by_charge, daily),
{
    let ghost orig = records@;
    let n = records.len();
    let mut groups: Vec<Vec<TaskRecord>> = Vec::new();
    let mut i: usize = 0;
    proof {
        assert(orig.subrange(0, 0) =~= Seq::<TaskRecord>::empty());
        assert(rec_group_views(groups@) =~= record_groups(orig.subrange(0, 0), by_charge, daily));
    }
    while i < n
        invariant
            i <= n,
            n == orig.len(),
            records@ == orig,
            rec_group_views(groups@) == record_groups(orig.subrange(0, i as int), by_charge, daily),
        decreases n - i,
    {
        let ghost prefix = orig.subrange(0, i as int);
        let ghost prev = record_groups(prefix, by_charge, daily);
        proof {
            lemma_spec_groups_wf(prefix, |r: TaskRecord| record_key(r, by_charge, daily));
            assert(orig.subrange(0, i + 1).drop_last() =~= prefix);
            assert(orig.subrange(0, i + 1).last() == orig[i as int]);
            lemma_find_group(
                group_keys(prev, |r: TaskRecord| record_key(r, by_charge, daily)),
                record_key(orig[i as int], by_charge, daily),
            );
        }
        let rec = records[i].clone();
        let glen = groups.len();
        let mut j: usize = 0;
        let mut found = false;
        while j < glen && !found
            invariant
                j <= glen,
                glen == groups@.len(),
                rec_group_views(groups@) == prev,
                groups_wf(prev, |r: TaskRecord| record_key(r, by_charge, daily)),
                rec == orig[i as int],
                i < n == orig.len(),
                records@ == orig,
                !found ==> forall|jj: int|
                    0 <= jj < j ==> record_key(#[trigger] prev[jj][0], by_charge, daily)
                        != record_key(orig[i as int], by_charge, daily),
                found ==> j < glen && record_key(prev[j as int][0], by_charge, daily)
                    == record_key(orig[i as int], by_charge, daily) && forall|jj: int|
                    0 <= jj < j ==> record_key(#[trigger] prev[jj][0], by_charge, daily)
                        != record_key(orig[i as int], by_charge, daily),
            decreases glen - j + (if found {
                0int
            } else {
                1int
            }),
        {
            proof {
                assert(rec_group_views(groups@)[j as int] == groups@[j as int]@);
                assert(prev[j as int].len() > 0);
            }
            let head_matches: bool;
            if groups[j].len() > 0 {
                let head = &groups[j][0];
                let name_eq = if by_charge {
                    str_eq(head.charge_name.as_str(), rec.charge_name.as_str())
                } else {
                    str_eq(head.task_id.as_str(), rec.task_id.as_str())
                };
                let date_eq = if daily {
                    head.target_date == rec.target_date
                } else {
                    true
                };
                head_matches = name_eq && date_eq;
            } else {
                head_matches = false;
            }
            if head_matches {
                found = true;
            } else {
                j = j + 1;
            }
        }
        proof {
            assert forall|jj: int|
                0 <= jj < group_keys(prev, |r: TaskRecord| record_key(r, by_charge, daily)).len()
                    implies group_keys(prev, |r: TaskRecord| record_key(r, by_charge, daily))[jj]
                == record_key(prev[jj][0], by_charge, daily) by {}
        }
        if found {
            proof {
                match find_group(
                    group_keys(prev, |r: TaskRecord| record_key(r, by_charge, daily)),
                    record_key(orig[i as int], by_charge, daily),
                ) {
                    Some(fi) => {
                        assert(fi == j as int);
                    },
                    None => {
                        assert(false);
                    },
                }
            }
            let mut g = groups.remove(j);
            g.push(rec);
            groups.insert(j, g);
            proof {
                assert(rec_group_views(groups@) =~= prev.update(
                    j as int,
                    prev[j as int].push(orig[i as int]),
                ));
                assert(rec_group_views(groups@) =~= record_groups(
                    orig.subrange(0, i + 1),
                    by_charge,
                    daily,
                ));
            }
        } else {
            proof {
                match find_group(
                    group_keys(prev, |r: TaskRecord| record_key(r, by_charge, daily)),
                    record_key(orig[i as int], by_charge, daily),
                ) {
                    Some(fi) => {
                        assert(record_key(prev[fi][0], by_charge, daily) == record_key(
                            orig[i as int],
                            by_charge,
                            daily,
                        ));
                        assert(false);
                    },
                    None => {},
                }
            }
            let mut g: Vec<TaskRecord> = Vec::new();
            g.push(rec);
            groups.push(g);
            proof {
                assert(g@ =~= seq![orig[i as int]]);
                assert(rec_group_views(groups@) =~= prev.push(seq![orig[i as int]]));
                assert(rec_group_views(groups@) =~= record_groups(
                    orig.subrange(0, i + 1),
                    by_charge,
                    daily,
                ));
            }
        }
        i = i + 1;
    }
    proof {
        assert(orig.subrange(0, n as int) =~= orig);
    }
    groups
}

/// The group member with the greatest recency timestamp; of equals, the
/// later in input order.
fn latest_record<'a>(g: &'a Vec<TaskRecord>) -> (r: &'a TaskRecord)
    requires
        g@.len() > 0,
    ensures
        *r == record_latest(g@),
{
    let len = g.len();
    let mut best: usize = 0;
    let mut i: usize = 1;
    proof {
        assert(g@.subrange(0, 1) =~= seq![g@[0]]);
        assert(latest(g@.subrange(0, 1), |r: TaskRecord| r.updated_at.millis as int) == g@[0]);
    }
    while i < len
        invariant
            1 <= i <= len,
            best < i,
            len == g@.len(),
            g@[best as int] == latest(
                g@.subrange(0, i as int),
                |r: TaskRecord| r.updated_at.millis as int,
            ),
        decreases len - i,
    {
        proof {
            assert(g@.subrange(0, i + 1).drop_last() =~= g@.subrange(0, i as int));
            assert(g@.subrange(0, i + 1).last() == g@[i as int]);
        }
        if g[i].updated_at.millis >= g[best].updated_at.millis {
            best = i;
        }
        i = i + 1;
    }
    proof {
        assert(g@.subrange(0, len as int) =~= g@);
    }
    &g[best]
}

/// The summed duration of a record group.
fn sum_group(g: &Vec<TaskRecord>) -> (r: TaskDuration)
    requires
        forall|i: int| 0 <= i < g@.len() ==> (#[trigger] g@[i]).wf(),
        record_sum(g@) <= i64::MAX,
    ensures
        r.millis == record_sum(g@),
        r.wf(),
{
    let len = g.len();
    let mut acc = TaskDuration::zero();
    let mut i: usize = 0;
    proof {
        assert(g@.subrange(0, 0) =~= Seq::<TaskRecord>::empty());
    }
    while i < len
        invariant
            i <= len,
            len == g@.len(),
            forall|j: int| 0 <= j < g@.len() ==> (#[trigger] g@[j]).wf(),
            record_sum(g@) <= i64::MAX,
            acc.millis == record_sum(g@.subrange(0, i as int)),
            acc.wf(),
        decreases len - i,
    {
        proof {
            assert(g@.subrange(0, i + 1).drop_last() =~= g@.subrange(0, i as int));
            assert(g@.subrange(0, i + 1).last() == g@[i as int]);
            lemma_sum_by_prefix_le(g@, i + 1, |r: TaskRecord| r.duration.millis as int);
        }
        acc = acc.add(g[i].duration);
        i = i + 1;
    }
    proof {
        assert(g@.subrange(0, len as int) =~= g@);
    }
    acc
}

/// The view's row order: date first for daily views, then charge name, then
/// — for task views — the task status, then the summed duration.
pub open spec fn row_le(a: AggRow, b: AggRow, by_charge: bool, daily: bool) -> bool {
    if daily && a.target_date.day_number() != b.target_date.day_number() {
        a.target_date.day_number() < b.target_date.day_number()
    } else if a.charge_name@ != b.charge_name@ {
        seq_lt(a.charge_name@, b.charge_name@)
    } else if !by_charge && a.task_status@ != b.task_status@ {
        seq_lt(a.task_status@, b.task_status@)
    } else {
        a.total_duration.millis <= b.total_duration.millis
    }
}

/// Compares two rows in the view's order.
fn row_le_x(a: &AggRow, b: &AggRow, by_charge: bool, daily: bool) -> (r: bool)
    requires
        a.wf(),
        b.wf(),
    ensures
        r == row_le(*a, *b, by_charge, daily),
{
    if daily {
        let ad = day_number_x(&a.target_date);
        let bd = day_number_x(&b.target_date);
        if ad != bd {
            return ad < bd;
        }
    }
    if !str_eq(a.charge_name.as_str(), b.charge_name.as_str()) {
        return str_lt(a.charge_name.as_str(), b.charge_name.as_str());
    }
    if !by_charge {
        if !str_eq(a.task_status.as_str(), b.task_status.as_str()) {
            return str_lt(a.task_status.as_str(), b.task_status.as_str());
        }
    }
    a.total_duration.millis <= b.total_duration.millis
}

/// Where a stable insertion puts `x`: after every row ordered at or before
/// it, before the first ordered strictly after it.
pub open spec fn insert_pos(s: Seq<AggRow>, x: AggRow, by_charge: bool, daily: bool) -> int
    decreases s.len(),
{
    if s.len() == 0 {
        0
    } else if !row_le(s[0], x, by_charge, daily) {
        0
    } else {
        1 + insert_pos(s.skip(1), x, by_charge, daily)
    }
}

pub proof fn lemma_insert_pos(s: Seq<AggRow>, x: AggRow, by_charge: bool, daily: bool)
    ensures
        0 <= insert_pos(s, x, by_charge, daily) <= s.len(),
        forall|j: int|
            0 <= j < insert_pos(s, x, by_charge, daily) ==> row_le(
                #[trigger] s[j],
                x,
                by_charge,
                daily,
            ),
        insert_pos(s, x, by_charge, daily) < s.len() ==> !row_le(
            s[insert_pos(s, x, by_charge, daily)],
            x,
            by_charge,
            daily,
        ),
    decreases s.len(),
{
    if s.len() > 0 && row_le(s[0], x, by_charge, daily) {
        lemma_insert_pos(s.skip(1), x, by_charge, daily);
        let p = insert_pos(s, x, by_charge, daily);
        assert forall|j: int| 0 <= j < p implies row_le(#[trigger] s[j], x, by_charge, daily) by {
            if j > 0 {
                assert(s.skip(1)[j - 1] == s[j]);
            }
        }
        if p < s.len() {
            assert(s.skip(1)[p - 1] == s[p]);
        }
    }
}

/// One stable insertion.
pub open spec fn sorted_insert(s: Seq<AggRow>, x: AggRow, by_charge: bool, daily: bool) -> Seq<
    AggRow,
> {
    s.insert(insert_pos(s, x, by_charge, daily), x)
}

/// The stable sort of `s` in the view's order: rows inserted left to right,
/// each after all rows ordered at or before it, so rows with equal keys keep
/// their relative order.
pub open spec fn stable_sorted(s: Seq<AggRow>, by_charge: bool, daily: bool) -> Seq<AggRow>
    decreases s.len(),
{
    if s.len() == 0 {
        Seq::empty()
    } else {
        sorted_insert(stable_sorted(s.drop_last(), by_charge, daily), s.last(), by_charge, daily)
    }
}

/// Sorts the rows in the view's order, stably.
pub fn sort_rows(rows: Vec<AggRow>, by_charge: bool, daily: bool) -> (r: Vec<AggRow>)
    requires
        forall|i: int| 0 <= i < rows@.len() ==> (#[trigger] rows@[i]).wf(),
    ensures
        r@ == stable_sorted(rows@, by_charge, daily),
        forall|i: int| 0 <= i < r@.len() ==> (#[trigger] r@[i]).wf(),
{
    let n = rows.len();
    let mut out: Vec<AggRow> = Vec::new();
    let mut i: usize = 0;
    proof {
        assert(rows@.subrange(0, 0) =~= Seq::<AggRow>::empty());
    }
    while i < n
        invariant
            i <= n,
            n == rows@.len(),
            forall|k: int| 0 <= k < rows@.len() ==> (#[trigger] rows@[k]).wf(),
            out@ == stable_sorted(rows@.subrange(0, i as int), by_charge, daily),
            forall|k: int| 0 <= k < out@.len() ==> (#[trigger] out@[k]).wf(),
        decreases n - i,
    {
        proof {
            assert(rows@.subrange(0, i + 1).drop_last() =~= rows@.subrange(0, i as int));
            assert(rows@.subrange(0, i + 1).last() == rows@[i as int]);
            lemma_insert_pos(out@, rows@[i as int], by_charge, daily);
        }
        let x = rows[i].clone();
        let olen = out.len();
        let mut j: usize = 0;
        let mut stop = false;
        while j < olen && !stop
            invariant
                j <= olen,
                olen == out@.len(),
                x == rows@[i as int],
                i < n == rows@.len(),
                forall|k: int| 0 <= k < out@.len() ==> (#[trigger] out@[k]).wf(),
                (forall|k: int| 0 <= k < rows@.len() ==> (#[trigger] rows@[k]).wf()),
                !stop ==> forall|jj: int|
                    0 <= jj < j ==> row_le(#[trigger] out@[jj], x, by_charge, daily),
                stop ==> j < olen && !row_le(out@[j as int], x, by_charge, daily) && forall|
                    jj: int,
                |
                    0 <= jj < j ==> row_le(#[trigger] out@[jj], x, by_charge, daily),
            decreases olen - j + (if stop {
                0int
            } else {
                1int
            }),
        {
            if !row_le_x(&out[j], &x, by_charge, daily) {
                stop = true;
            } else {
                j = j + 1;
            }
        }
        proof {
            let p = insert_pos(out@, x, by_charge, daily);
            if (j as int) < p {
                assert(row_le(out@[j as int], x, by_charge, daily));
                assert(false);
            }
            if (j as int) > p {
                assert(row_le(out@[p], x, by_charge, daily));
                assert(false);
            }
        }
        out.insert(j, x);
        i = i + 1;
    }
    proof {
        assert(rows@.subrange(0, n as int) =~= rows@);
    }
    out
}

/// Sorting keeps the summed duration of the rows.
pub proof fn lemma_stable_sort_sum(
    s: Seq<AggRow>,
    by_charge: bool,
    daily: bool,
    f: spec_fn(AggRow) -> int,
)
    ensures
        sum_by(stable_sorted(s, by_charge, daily), f) == sum_by(s, f),
    decreases s.len(),
{
    if s.len() > 0 {
        let prev = stable_sorted(s.drop_last(), by_charge, daily);
        lemma_stable_sort_sum(s.drop_last(), by_charge, daily, f);
        let x = s.last();
        let p = insert_pos(prev, x, by_charge, daily);
        lemma_insert_pos(prev, x, by_charge, daily);
        assert(prev.insert(p, x) =~= prev.subrange(0, p) + seq![x] + prev.subrange(
            p,
            prev.len() as int,
        ));
        lemma_sum_by_concat(prev.subrange(0, p) + seq![x], prev.subrange(p, prev.len() as int), f);
        lemma_sum_by_concat(prev.subrange(0, p), seq![x], f);
        let single = seq![x];
        assert(single.len() == 1);
        assert(single.last() == x);
        assert(single.drop_last() =~= Seq::<AggRow>::empty());
        assert(sum_by(Seq::<AggRow>::empty(), f) == 0);
        assert(sum_by(single, f) == sum_by(single.drop_last(), f) + f(single.last()));
        assert(sum_by(single, f) == f(x));
        lemma_sum_by_concat(prev.subrange(0, p), prev.subrange(p, prev.len() as int), f);
        assert(prev.subrange(0, p) + prev.subrange(p, prev.len() as int) =~= prev);
    }
}

/// The summed duration of all rows of a view equals the summed duration of
/// the records aggregated: grouping partitions the records, each group sums
/// its members, and sorting only rearranges rows.
pub proof fn lemma_rows_total(s: Seq<TaskRecord>, by_charge: bool, daily: bool)
    requires
        records_wf_all(s),
        records_total(s) <= i64::MAX,
    ensures
        sum_by(
            stable_sorted(spec_rows(s, by_charge, daily), by_charge, daily),
            |r: AggRow| r.total_duration.millis as int,
        ) == records_total(s),
{
    let gs = record_groups(s, by_charge, daily);
    let fdur = |r: TaskRecord| r.duration.millis as int;
    let frow = |r: AggRow| r.total_duration.millis as int;
    let mk = |g: Seq<TaskRecord>| row_of_group(g);
    lemma_stable_sort_sum(spec_rows(s, by_charge, daily), by_charge, daily, frow);
    crate::grouping::lemma_sum_by_map(gs, mk, frow);
    assert forall|i: int| 0 <= i < gs.len() implies (|g: Seq<TaskRecord>| frow(mk(g)))(
        #[trigger] gs[i],
    ) == (|g: Seq<TaskRecord>| sum_by(g, fdur))(gs[i]) by {
        lemma_group_sum_le_total(s, |r: TaskRecord| record_key(r, by_charge, daily), fdur, i);
        lemma_spec_groups_members(s, |r: TaskRecord| record_key(r, by_charge, daily));
        assert forall|b: int| 0 <= b < gs[i].len() implies fdur(#[trigger] gs[i][b]) >= 0 by {
            assert(s.contains(gs[i][b]));
            let j = choose|j: int| 0 <= j < s.len() && s[j] == gs[i][b];
        }
        crate::grouping::lemma_sum_by_nonneg(gs[i], fdur);
        assert(0 <= record_sum(gs[i]) <= i64::MAX);
    }
    crate::grouping::lemma_sum_by_ext(
        gs,
        |g: Seq<TaskRecord>| frow(mk(g)),
        |g: Seq<TaskRecord>| sum_by(g, fdur),
    );
    lemma_sum_groups_partition(s, |r: TaskRecord| record_key(r, by_charge, daily), fdur);
}

/// `row_le` is a total preorder.
pub proof fn lemma_row_le_total(a: AggRow, b: AggRow, by_charge: bool, daily: bool)
    ensures
        row_le(a, b, by_charge, daily) || row_le(b, a, by_charge, daily),
{
    crate::strfmt::lemma_seq_lt_total(a.charge_name@, b.charge_name@);
    crate::strfmt::lemma_seq_lt_total(a.task_status@, b.task_status@);
}

/// `row_le` is transitive.
pub proof fn lemma_row_le_trans(a: AggRow, b: AggRow, c: AggRow, by_charge: bool, daily: bool)
    requires
        row_le(a, b, by_charge, daily),
        row_le(b, c, by_charge, daily),
    ensures
        row_le(a, c, by_charge, daily),
{
    if seq_lt(a.charge_name@, b.charge_name@) && seq_lt(b.charge_name@, c.charge_name@) {
        crate::strfmt::lemma_seq_lt_trans(a.charge_name@, b.charge_name@, c.charge_name@);
    }
    if seq_lt(a.task_status@, b.task_status@) && seq_lt(b.task_status@, c.task_status@) {
        crate::strfmt::lemma_seq_lt_trans(a.task_status@, b.task_status@, c.task_status@);
    }
    crate::strfmt::lemma_seq_lt_irreflexive(a.charge_name@);
    crate::strfmt::lemma_seq_lt_irreflexive(b.charge_name@);
    crate::strfmt::lemma_seq_lt_irreflexive(a.task_status@);
    crate::strfmt::lemma_seq_lt_irreflexive(b.task_status@);
    crate::strfmt::lemma_seq_lt_total(a.charge_name@, b.charge_name@);
    crate::strfmt::lemma_seq_lt_total(b.charge_name@, c.charge_name@);
    crate::strfmt::lemma_seq_lt_total(a.task_status@, b.task_status@);
    crate::strfmt::lemma_seq_lt_total(b.task_status@, c.task_status@);
}

/// The rows of a sequence stand in ascending `row_le` order.
pub open spec fn rows_sorted(s: Seq<AggRow>, by_charge: bool, daily: bool) -> bool {
    forall|i: int, j: int|
        0 <= i < j < s.len() ==> row_le(#[trigger] s[i], #[trigger] s[j], by_charge, daily)
}

proof fn lemma_sorted_insert_sorted(s: Seq<AggRow>, x: AggRow, by_charge: bool, daily: bool)
    requires
        rows_sorted(s, by_charge, daily),
    ensures
        rows_sorted(sorted_insert(s, x, by_charge, daily), by_charge, daily),
{
    let p = insert_pos(s, x, by_charge, daily);
    lemma_insert_pos(s, x, by_charge, daily);
    let out = s.insert(p, x);
    assert forall|i: int, j: int|
        0 <= i < j < out.len() implies row_le(#[trigger] out[i], #[trigger] out[j], by_charge,
        daily) by {
        if i < p {
            assert(out[i] == s[i]);
        } else if i == p {
            assert(out[i] == x);
        } else {
            assert(out[i] == s[i - 1]);
        }
        if j < p {
            assert(out[j] == s[j]);
        } else if j == p {
            assert(out[j] == x);
        } else {
            assert(out[j] == s[j - 1]);
        }
        if j == p {
            // out[i] is s[i] with i < p, ordered at or before x
        } else if i == p {
            // out[j] is s[j-1] with j - 1 >= p: x goes before the first row
            // ordered after it, and the tail stays ascending
            lemma_row_le_total(s[p], x, by_charge, daily);
            if j - 1 > p {
                lemma_row_le_trans(x, s[p], s[j - 1], by_charge, daily);
            }
        }
    }
}

/// Every view's rows stand in ascending order: the stable sort delivers
/// `row_le`-sorted rows.
pub proof fn lemma_stable_sorted_is_sorted(s: Seq<AggRow>, by_charge: bool, daily: bool)
    ensures
        rows_sorted(stable_sorted(s, by_charge, daily), by_charge, daily),
    decreases s.len(),
{
    if s.len() > 0 {
        lemma_stable_sorted_is_sorted(s.drop_last(), by_charge, daily);
        lemma_sorted_insert_sorted(
            stable_sorted(s.drop_last(), by_charge, daily),
            s.last(),
            by_charge,
            daily,
        );
    }
}

/// Aggregation is a function of the record sequence and the view alone:
/// two row sequences built from the same records under the same view — each
/// pinned, as every view's constructor ensures, to the sorted rows of the
/// grouped records — are identical.
pub proof fn lemma_aggregation_deterministic(
    r1: Seq<AggRow>,
    r2: Seq<AggRow>,
    s: Seq<TaskRecord>,
    by_charge: bool,
    daily: bool,
)
    requires
        r1 == stable_sorted(spec_rows(s, by_charge, daily), by_charge, daily),
        r2 == stable_sorted(spec_rows(s, by_charge, daily), by_charge, daily),
    ensures
        r1 == r2,
{
}

/// The title line of a report: the target date of a single-day window, the
/// target period of a longer one.
pub open spec fn title_str(dr: crate::date_range::DateRange) -> Seq<char> {
    if dr.start_date == dr.end_date {
        "target date: "@ + crate::jst::date_slash_str(dr.start_date)
    } else {
        "target period: "@ + crate::jst::date_slash_str(dr.start_date) + " \u{2013} "@
            + crate::jst::date_slash_str(dr.end_date)
    }
}

/// Appends the report title for the window.
pub fn push_title(out: &mut String, dr: &crate::date_range::DateRange)
    requires
        dr.wf(),
    ensures
        final(out)@ == old(out)@ + title_str(*dr),
{
    if dr.is_same_date() {
        out.append("target date: ");
        let d = dr.start_date_str();
        out.append(d.as_str());
        assert(final(out)@ =~= old(out)@ + title_str(*dr));
    } else {
        out.append("target period: ");
        let d = dr.start_date_str();
        out.append(d.as_str());
        out.append(" \u{2013} ");
        let e = dr.end_target_date_str();
        out.append(e.as_str());
        assert(final(out)@ =~= old(out)@ + title_str(*dr));
    }
}

} // verus!
