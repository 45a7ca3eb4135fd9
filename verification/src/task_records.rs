//! The canonical record collection. Reconciliation is concatenation: the
//! records of both sources are unioned with no deduplication, because the
//! aggregation views perform the grouping.

use vstd::prelude::*;

use crate::as_vec::{without, AsVec};
use vstd::std_specs::cmp::PartialEqSpec;
use crate::task_record::TaskRecord;

verus! {

/// The canonical record collection, in source order.
#[derive(Debug, Clone, PartialEq)]
pub struct TaskRecords(pub Vec<TaskRecord>);

impl AsVec for TaskRecords {
    type Item = TaskRecord;

    open spec fn items(&self) -> Seq<TaskRecord> {
        self.0@
    }

    fn into_inner(self) -> (r: Vec<TaskRecord>) {
        self.0
    }

    fn as_vec(&self) -> (r: &Vec<TaskRecord>) {
        &self.0
    }

    fn as_mut_vec(&mut self) -> (r: &mut Vec<TaskRecord>) {
        &mut self.0
    }

    fn is_empty(&self) -> (r: bool) {
        self.0.len() == 0
    }

    fn exclude(&mut self, other: &TaskRecord) {
        let ghost orig = self.0@;
        let n = self.0.len();
        let mut out: Vec<TaskRecord> = Vec::new();
        let mut i: usize = 0;
        proof {
            reveal(Seq::filter);
            assert(orig.subrange(0, 0) =~= Seq::<TaskRecord>::empty());
        }
        while i < n
            invariant
                i <= n,
                n == orig.len(),
                self.0@ == orig,
                out@ == without(orig.subrange(0, i as int), *other),
            decreases n - i,
        {
            proof {
                reveal(Seq::filter);
                assert(orig.subrange(0, i + 1).drop_last() =~= orig.subrange(0, i as int));
                assert(orig.subrange(0, i + 1).last() == orig[i as int]);
            }
            if !(self.0[i] == *other) {
                out.push(self.0[i].clone());
            }
            i = i + 1;
        }
        proof {
            assert(orig.subrange(0, n as int) =~= orig);
        }
        self.0 = out;
    }
}

impl TaskRecords {
    /// Wraps a record vector.
    pub fn new(task_records: Vec<TaskRecord>) -> (r: TaskRecords)
        ensures
            r.items() == task_records@,
    {
        TaskRecords(task_records)
    }

    /// The union of two collections: this one's records followed by the
    /// other's, none dropped and none merged.
    pub fn concat(&self, other: &TaskRecords) -> (r: TaskRecords)
        ensures
            r.items() == self.items() + other.items(),
    {
        let mut out: Vec<TaskRecord> = Vec::new();
        let mut i: usize = 0;
        while i < self.0.len()
            invariant
                i <= self.0.len(),
                out@ == self.0@.subrange(0, i as int),
            decreases self.0.len() - i,
        {
            out.push(self.0[i].clone());
            proof {
                assert(out@ =~= self.0@.subrange(0, i + 1));
            }
            i = i + 1;
        }
        proof {
            assert(self.0@.subrange(0, self.0@.len() as int) =~= self.0@);
        }
        let mut j: usize = 0;
        while j < other.0.len()
            invariant
                j <= other.0.len(),
                out@ == self.0@ + other.0@.subrange(0, j as int),
            decreases other.0.len() - j,
        {
            out.push(other.0[j].clone());
            proof {
                assert(out@ =~= self.0@ + other.0@.subrange(0, j + 1));
            }
            j = j + 1;
        }
        proof {
            assert(out@ =~= self.0@ + other.0@);
        }
        TaskRecords(out)
    }
}

} // verus!
