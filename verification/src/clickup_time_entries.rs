//! The time-entry collection: filtering by the reporting window, conversion
//! into canonical records, and the optional pre-aggregation path that merges
//! fragments by task identifier — metadata from the fragment with the latest
//! end timestamp, durations summed.

use vstd::prelude::*;

use crate::as_vec::{without, AsVec};
use crate::clickup_task::ClickupTask;
use crate::clickup_tasks::ClickupTasks;
use crate::clickup_time_entry::ClickupTimeEntry;
use crate::date_range::DateRange;
use crate::grouping::{
    find_group, group_keys, groups_wf, latest, lemma_find_group, lemma_group_sum_le_total,
    lemma_latest_props, lemma_spec_groups_members, lemma_spec_groups_wf, lemma_sum_by_prefix_le,
    spec_groups, sum_by,
};
use crate::jst::JstDateTime;
use crate::task_duration::TaskDuration;
use crate::task_record::TaskRecord;
use crate::task_records::TaskRecords;
use vstd::std_specs::cmp::PartialEqSpec;

verus! {

/// The grouping key of a fragment: its task identifier.
pub open spec fn entry_key(te: ClickupTimeEntry) -> Seq<char> {
    te.task_id@
}

/// The fragments of `s` grouped by task identifier, groups in
/// first-occurrence order.
pub open spec fn entry_groups(s: Seq<ClickupTimeEntry>) -> Seq<Seq<ClickupTimeEntry>> {
    spec_groups(s, |te: ClickupTimeEntry| entry_key(te))
}

/// The group member with the latest end timestamp (of equals, the later in
/// input order).
pub open spec fn entry_latest(g: Seq<ClickupTimeEntry>) -> ClickupTimeEntry {
    latest(g, |te: ClickupTimeEntry| te.end.millis as int)
}

/// The summed duration of a fragment group, in milliseconds.
pub open spec fn entry_sum(g: Seq<ClickupTimeEntry>) -> int {
    sum_by(g, |te: ClickupTimeEntry| te.duration.millis as int)
}

/// The task a fragment group merges into: identity and metadata from the
/// latest-ending fragment, duration the sum over the group, recency the
/// latest fragment's end.
pub open spec fn merged_task(g: Seq<ClickupTimeEntry>) -> ClickupTask {
    let w = entry_latest(g);
    ClickupTask {
        task_id: w.task_id,
        task_name: w.task_name,
        task_url: w.task_url,
        task_status: w.task_status,
        parent_list_name: w.parent_list_name,
        duration: TaskDuration { millis: entry_sum(g) as i64 },
        updated_at: w.end,
    }
}

/// The tasks all fragment groups of `s` merge into, in group order.
pub open spec fn merged_tasks(s: Seq<ClickupTimeEntry>) -> Seq<ClickupTask> {
    entry_groups(s).map_values(|g: Seq<ClickupTimeEntry>| merged_task(g))
}

/// Whether a fragment's start instant falls inside the window (both
/// boundary instants included).
pub open spec fn entry_in_range(dr: DateRange, te: ClickupTimeEntry) -> bool {
    dr.start_sec() * 1000 <= te.start.millis && te.start.millis <= dr.end_sec() * 1000
}

/// The fragments of `s` whose start instant falls inside the window.
pub open spec fn entries_in_range(s: Seq<ClickupTimeEntry>, dr: DateRange) -> Seq<
    ClickupTimeEntry,
> {
    s.filter(|te: ClickupTimeEntry| entry_in_range(dr, te))
}

/// The canonical record a fragment maps to: the start instant fixes the
/// attributed date, the end instant is the recency timestamp.
pub open spec fn is_record_of_entry(te: ClickupTimeEntry, r: TaskRecord) -> bool {
    &&& r.task_id == te.task_id
    &&& r.task_name == te.task_name
    &&& r.task_url == te.task_url
    &&& r.task_status == te.task_status
    &&& r.charge_name == te.parent_list_name
    &&& r.duration == te.duration
    &&& r.updated_at == te.end
    &&& r.target_date.day_number() == DateRange::attributed_day_number(te.start)
    &&& r.wf()
}

/// The views of a vector of fragment groups.
pub open spec fn group_views(gs: Seq<Vec<ClickupTimeEntry>>) -> Seq<Seq<ClickupTimeEntry>> {
    gs.map_values(|g: Vec<ClickupTimeEntry>| g@)
}

/// The time-entry collection, in source order.
#[derive(Debug, Clone, PartialEq)]
pub struct ClickupTimeEntries(pub Vec<ClickupTimeEntry>);

impl AsVec for ClickupTimeEntries {
    type Item = ClickupTimeEntry;

    open spec fn items(&self) -> Seq<ClickupTimeEntry> {
        self.0@
    }

    fn into_inner(self) -> (r: Vec<ClickupTimeEntry>) {
        self.0
    }

    fn as_vec(&self) -> (r: &Vec<ClickupTimeEntry>) {
        &self.0
    }

    fn as_mut_vec(&mut self) -> (r: &mut Vec<ClickupTimeEntry>) {
        &mut self.0
    }

    fn is_empty(&self) -> (r: bool) {
        self.0.len() == 0
    }

    fn exclude(&mut self, other: &ClickupTimeEntry) {
        let ghost orig = self.0@;
        let n = self.0.len();
        let mut out: Vec<ClickupTimeEntry> = Vec::new();
        let mut i: usize = 0;
        proof {
            reveal(Seq::filter);
            assert(orig.subrange(0, 0) =~= Seq::<ClickupTimeEntry>::empty());
        }
        while i < n
            invariant
                i <= n,
                n == orig.len(),
                self.0@ == orig,
                out@ == without(orig.subrange(0, i as int), *other),
            decreases n - i,
        {
            proof {
                reveal(Seq::filter);
                assert(orig.subrange(0, i + 1).drop_last() =~= orig.subrange(0, i as int));
                assert(orig.subrange(0, i + 1).last() == orig[i as int]);
            }
            if !(self.0[i] == *other) {
                out.push(self.0[i].clone());
            }
            i = i + 1;
        }
        proof {
            assert(orig.subrange(0, n as int) =~= orig);
        }
        self.0 = out;
    }
}

impl ClickupTimeEntries {
    /// Wraps a fragment vector.
    pub fn new(time_entries: Vec<ClickupTimeEntry>) -> (r: ClickupTimeEntries)
        ensures
            r.items() == time_entries@,
    {
        ClickupTimeEntries(time_entries)
    }

    /// Keeps the fragments whose start instant falls inside the window,
    /// keeping their order.
    pub fn filter_entries_by_start_with_date_range(&self, dr: &DateRange) -> (r:
        ClickupTimeEntries)
        requires
            dr.wf(),
        ensures
            r.items() == entries_in_range(self.items(), *dr),
    {
        let lo = dr.start_unixtime_millis();
        let hi = dr.end_unixtime_millis();
        let ghost orig = self.0@;
        let n = self.0.len();
        let mut out: Vec<ClickupTimeEntry> = Vec::new();
        let mut i: usize = 0;
        proof {
            reveal(Seq::filter);
            assert(orig.subrange(0, 0) =~= Seq::<ClickupTimeEntry>::empty());
        }
        while i < n
            invariant
                i <= n,
                n == orig.len(),
                self.0@ == orig,
                lo == dr.start_sec() * 1000,
                hi == dr.end_sec() * 1000,
                out@ == entries_in_range(orig.subrange(0, i as int), *dr),
            decreases n - i,
        {
            proof {
                reveal(Seq::filter);
                assert(orig.subrange(0, i + 1).drop_last() =~= orig.subrange(0, i as int));
                assert(orig.subrange(0, i + 1).last() == orig[i as int]);
            }
            let te = &self.0[i];
            if lo <= te.start.millis && te.start.millis <= hi {
                out.push(self.0[i].clone());
            }
            i = i + 1;
        }
        proof {
            assert(orig.subrange(0, n as int) =~= orig);
        }
        ClickupTimeEntries(out)
    }

    /// Converts every fragment into its canonical record, keeping order.
    pub fn to_task_records(self) -> (r: TaskRecords)
        requires
            forall|i: int| 0 <= i < self.items().len() ==> (#[trigger] self.items()[i]).wf(),
        ensures
            r.items().len() == self.items().len(),
            forall|i: int|
                0 <= i < self.items().len() ==> is_record_of_entry(
                    self.items()[i],
                    #[trigger] r.items()[i],
                ),
    {
        let ghost orig = self.0@;
        proof {
            assert forall|j: int| 0 <= j < orig.len() implies (#[trigger] orig[j]).wf() by {
                assert(self.items()[j].wf());
            }
        }
        let n = self.0.len();
        let mut out: Vec<TaskRecord> = Vec::new();
        let mut i: usize = 0;
        while i < n
            invariant
                i <= n,
                n == orig.len(),
                self.0@ == orig,
                forall|j: int| 0 <= j < orig.len() ==> (#[trigger] orig[j]).wf(),
                out@.len() == i,
                forall|j: int|
                    0 <= j < i ==> is_record_of_entry(orig[j], #[trigger] out@[j]),
            decreases n - i,
        {
            let rec = self.0[i].clone().to_task_record();
            out.push(rec);
            i = i + 1;
        }
        TaskRecords(out)
    }

    /// Merges the fragments by task identifier: one task per identifier,
    /// with metadata from the fragment with the latest end timestamp and the
    /// group's summed duration.
    pub fn to_tasks(&self) -> (r: ClickupTasks)
        requires
            forall|i: int| 0 <= i < self.items().len() ==> (#[trigger] self.items()[i]).wf(),
            entry_sum(self.items()) <= i64::MAX,
        ensures
            r.items() == merged_tasks(self.items()),
            forall|i: int| 0 <= i < r.items().len() ==> (#[trigger] r.items()[i]).wf(),
    {
        proof {
            assert forall|j: int| 0 <= j < self.0@.len() implies (#[trigger] self.0@[j]).wf() by {
                assert(self.items()[j].wf());
            }
            lemma_spec_groups_wf(self.0@, |te: ClickupTimeEntry| entry_key(te));
            lemma_spec_groups_members(self.0@, |te: ClickupTimeEntry| entry_key(te));
        }
        let groups = self.group_by_task_id();
        let ghost gviews = group_views(groups@);
        let n = groups.len();
        let mut aggregated_tasks: Vec<ClickupTask> = Vec::new();
        let mut i: usize = 0;
        while i < n
            invariant
                i <= n,
                n == groups@.len(),
                gviews == group_views(groups@),
                gviews == entry_groups(self.0@),
                self.items() == self.0@,
                forall|j: int| 0 <= j < self.0@.len() ==> (#[trigger] self.0@[j]).wf(),
                entry_sum(self.0@) <= i64::MAX,
                groups_wf(gviews, |te: ClickupTimeEntry| entry_key(te)),
                forall|a: int, b: int|
                    0 <= a < gviews.len() && 0 <= b < gviews[a].len() ==> self.0@.contains(
                        #[trigger] gviews[a][b],
                    ),
                aggregated_tasks@.len() == i,
                forall|j: int|
                    0 <= j < i ==> #[trigger] aggregated_tasks@[j] == merged_task(gviews[j]),
                forall|j: int|
                    0 <= j < i ==> (#[trigger] aggregated_tasks@[j]).wf(),
            decreases n - i,
        {
            proof {
                assert(group_views(groups@)[i as int] == groups@[i as int]@);
                assert forall|b: int|
                    0 <= b < gviews[i as int].len() implies (#[trigger] gviews[i as int][b]).wf()
                    by {
                    assert(self.0@.contains(gviews[i as int][b]));
                    let j = choose|j: int|
                        0 <= j < self.0@.len() && self.0@[j] == gviews[i as int][b];
                }
                lemma_group_sum_le_total(
                    self.0@,
                    |te: ClickupTimeEntry| entry_key(te),
                    |te: ClickupTimeEntry| te.duration.millis as int,
                    i as int,
                );
                lemma_latest_props(gviews[i as int], |te: ClickupTimeEntry| te.end.millis as int);
            }
            let group = &groups[i];
            let (task_id, task_name, task_url, task_status, parent_list_name, updated_at) = self
                .extract_task_attibute_at_end(group);
            let duration = self.sum_duration(group);
            let task = ClickupTask {
                task_id,
                task_name,
                task_url,
                task_status,
                parent_list_name,
                duration,
                updated_at,
            };
            proof {
                let w = entry_latest(gviews[i as int]);
                assert(self.0@.contains(w));
                let j = choose|j: int| 0 <= j < self.0@.len() && self.0@[j] == w;
                assert(task == merged_task(gviews[i as int]));
            }
            aggregated_tasks.push(task);
            i = i + 1;
        }
        proof {
            assert(aggregated_tasks@ =~= merged_tasks(self.0@));
        }
        ClickupTasks(aggregated_tasks)
    }

    /// Groups the fragments by task identifier, groups in first-occurrence
    /// order and fragments in input order within each group.
    fn group_by_task_id(&self) -> (r: Vec<Vec<ClickupTimeEntry>>)
        ensures
            group_views(r@) == entry_groups(self.items()),
    {
        let ghost orig = self.0@;
        let ghost key = |te: ClickupTimeEntry| entry_key(te);
        let n = self.0.len();
        let mut groups: Vec<Vec<ClickupTimeEntry>> = Vec::new();
        let mut i: usize = 0;
        proof {
            assert(orig.subrange(0, 0) =~= Seq::<ClickupTimeEntry>::empty());
            assert(group_views(groups@) =~= entry_groups(orig.subrange(0, 0)));
        }
        while i < n
            invariant
                i <= n,
                n == orig.len(),
                self.0@ == orig,
                group_views(groups@) == entry_groups(orig.subrange(0, i as int)),
            decreases n - i,
        {
            let ghost prefix = orig.subrange(0, i as int);
            let ghost prev = entry_groups(prefix);
            proof {
                lemma_spec_groups_wf(prefix, |te: ClickupTimeEntry| entry_key(te));
                assert(orig.subrange(0, i + 1).drop_last() =~= prefix);
                assert(orig.subrange(0, i + 1).last() == orig[i as int]);
                lemma_find_group(
                    group_keys(prev, |te: ClickupTimeEntry| entry_key(te)),
                    entry_key(orig[i as int]),
                );
            }
            let te = self.0[i].clone();
            let glen = groups.len();
            let mut j: usize = 0;
            let mut found = false;
            while j < glen && !found
                invariant
                    j <= glen,
                    glen == groups@.len(),
                    group_views(groups@) == prev,
                    groups_wf(prev, |te: ClickupTimeEntry| entry_key(te)),
                    te == orig[i as int],
                    i < n == orig.len(),
                    self.0@ == orig,
                    !found ==> forall|jj: int|
                        0 <= jj < j ==> entry_key(#[trigger] prev[jj][0]) != entry_key(
                            orig[i as int],
                        ),
                    found ==> j < glen && entry_key(prev[j as int][0]) == entry_key(
                        orig[i as int],
                    ) && forall|jj: int|
                        0 <= jj < j ==> entry_key(#[trigger] prev[jj][0]) != entry_key(
                            orig[i as int],
                        ),
                decreases glen - j + (if found {
                    0int
                } else {
                    1int
                }),
            {
                proof {
                    assert(group_views(groups@)[j as int] == groups@[j as int]@);
                    assert(prev[j as int].len() > 0);
                }
                if groups[j].len() > 0 && groups[j][0].task_id == te.task_id {
                    found = true;
                } else {
                    j = j + 1;
                }
            }
            proof {
                assert forall|jj: int|
                    0 <= jj < group_keys(prev, |te: ClickupTimeEntry| entry_key(te)).len()
                        implies group_keys(prev, |te: ClickupTimeEntry| entry_key(te))[jj]
                    == entry_key(prev[jj][0]) by {}
            }
            if found {
                proof {
                    match find_group(
                        group_keys(prev, |te: ClickupTimeEntry| entry_key(te)),
                        entry_key(orig[i as int]),
                    ) {
                        Some(fi) => {
                            assert(fi == j as int);
                        },
                        None => {
                            assert(false);
                        },
                    }
                }
                let mut g = groups.remove(j);
                g.push(te);
                groups.insert(j, g);
                proof {
                    assert(group_views(groups@) =~= prev.update(
                        j as int,
                        prev[j as int].push(orig[i as int]),
                    ));
                    assert(group_views(groups@) =~= entry_groups(orig.subrange(0, i + 1)));
                }
            } else {
                proof {
                    match find_group(
                        group_keys(prev, |te: ClickupTimeEntry| entry_key(te)),
                        entry_key(orig[i as int]),
                    ) {
                        Some(fi) => {
                            assert(entry_key(prev[fi][0]) == entry_key(orig[i as int]));
                            assert(false);
                        },
                        None => {},
                    }
                }
                let mut g: Vec<ClickupTimeEntry> = Vec::new();
                g.push(te);
                groups.push(g);
                proof {
                    assert(g@ =~= seq![orig[i as int]]);
                    assert(group_views(groups@) =~= prev.push(seq![orig[i as int]]));
                    assert(group_views(groups@) =~= entry_groups(orig.subrange(0, i + 1)));
                }
            }
            i = i + 1;
        }
        proof {
            assert(orig.subrange(0, n as int) =~= orig);
        }
        groups
    }

    /// The identity, metadata and end timestamp of the group member with the
    /// latest end timestamp; of equals, the later in input order.
    fn extract_task_attibute_at_end(&self, te_group: &Vec<ClickupTimeEntry>) -> (r: (
        String,
        String,
        String,
        String,
        String,
        JstDateTime,
    ))
        requires
            te_group@.len() > 0,
        ensures
            r.0 == entry_latest(te_group@).task_id,
            r.1 == entry_latest(te_group@).task_name,
            r.2 == entry_latest(te_group@).task_url,
            r.3 == entry_latest(te_group@).task_status,
            r.4 == entry_latest(te_group@).parent_list_name,
            r.5 == entry_latest(te_group@).end,
    {
        let g = te_group;
        let len = g.len();
        let mut best: usize = 0;
        let mut i: usize = 1;
        proof {
            assert(g@.subrange(0, 1) =~= seq![g@[0]]);
            assert(latest(g@.subrange(0, 1), |te: ClickupTimeEntry| te.end.millis as int)
                == g@[0]);
        }
        while i < len
            invariant
                1 <= i <= len,
                best < i,
                len == g@.len(),
                g@[best as int] == latest(
                    g@.subrange(0, i as int),
                    |te: ClickupTimeEntry| te.end.millis as int,
                ),
            decreases len - i,
        {
            proof {
                assert(g@.subrange(0, i + 1).drop_last() =~= g@.subrange(0, i as int));
                assert(g@.subrange(0, i + 1).last() == g@[i as int]);
            }
            if g[i].end.millis >= g[best].end.millis {
                best = i;
            }
            i = i + 1;
        }
        proof {
            assert(g@.subrange(0, len as int) =~= g@);
        }
        let w = &g[best];
        (
            w.task_id.clone(),
            w.task_name.clone(),
            w.task_url.clone(),
            w.task_status.clone(),
            w.parent_list_name.clone(),
            w.end,
        )
    }

    /// The summed duration of a fragment group.
    fn sum_duration(&self, te_group: &Vec<ClickupTimeEntry>) -> (r: TaskDuration)
        requires
            te_group@.len() > 0,
            forall|i: int| 0 <= i < te_group@.len() ==> (#[trigger] te_group@[i]).wf(),
            entry_sum(te_group@) <= i64::MAX,
        ensures
            r.millis == entry_sum(te_group@),
            r.wf(),
    {
        let len = te_group.len();
        let mut acc = TaskDuration::zero();
        let mut i: usize = 0;
        proof {
            assert(te_group@.subrange(0, 0) =~= Seq::<ClickupTimeEntry>::empty());
        }
        while i < len
            invariant
                i <= len,
                len == te_group@.len(),
                forall|j: int| 0 <= j < te_group@.len() ==> (#[trigger] te_group@[j]).wf(),
                entry_sum(te_group@) <= i64::MAX,
                acc.millis == entry_sum(te_group@.subrange(0, i as int)),
                acc.wf(),
            decreases len - i,
        {
            proof {
                assert(te_group@.subrange(0, i + 1).drop_last() =~= te_group@.subrange(
                    0,
                    i as int,
                ));
                assert(te_group@.subrange(0, i + 1).last() == te_group@[i as int]);
                lemma_sum_by_prefix_le(
                    te_group@,
                    i + 1,
                    |te: ClickupTimeEntry| te.duration.millis as int,
                );
            }
            acc = acc.add(te_group[i].duration);
            i = i + 1;
        }
        proof {
            assert(te_group@.subrange(0, len as int) =~= te_group@);
        }
        acc
    }
}

} // verus!
