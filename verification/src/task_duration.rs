//! Elapsed time with millisecond precision, combined additively during
//! aggregation and rendered as `HH:MM:SS` with seconds and minutes modulo 60
//! and hours unbounded (no day rollover).

use vstd::prelude::*;

use crate::errors::ValidationError;
use crate::strfmt::{
    all_digits, digits_val, lemma_digits_val_bound, lemma_pow10_mono, min_two_str, pow10,
    push_min_two, push_two_digit, read_digits, two_digit_str,
};

verus! {

/// A non-negative elapsed time in milliseconds.
#[derive(Debug, Clone, Copy, PartialEq, Eq, PartialOrd, Ord, Hash, Structural)]
pub struct TaskDuration {
    pub millis: i64,
}

/// `HH:MM:SS` of a second count: hours unbounded, minutes and seconds
/// modulo sixty.
pub open spec fn hhmmss_str(total_sec: int) -> Seq<char> {
    min_two_str(total_sec / 3600) + seq![':'] + two_digit_str((total_sec / 60) % 60) + seq![':']
        + two_digit_str(total_sec % 60)
}

/// The rendering of a duration: its whole seconds as `HH:MM:SS`. A zero
/// duration renders as `00:00:00`.
pub open spec fn duration_str(millis: int) -> Seq<char> {
    hhmmss_str(millis / 1000)
}

/// One hundred hours, in milliseconds: the guard a source record's
/// duration is held to at construction.
pub open spec fn hundred_hours_millis() -> int {
    360_000_000
}

/// The number a millisecond-count string denotes; an absent string denotes
/// zero.
pub open spec fn opt_millis_val(s: Option<&str>) -> int {
    match s {
        Some(st) => digits_val(st@),
        None => 0,
    }
}

/// An accepted millisecond-count string: absent, or one to eighteen decimal
/// digits.
pub open spec fn opt_millis_ok(s: Option<&str>) -> bool {
    match s {
        Some(st) => 1 <= st@.len() <= 18 && all_digits(st@),
        None => true,
    }
}

impl TaskDuration {
    pub open spec fn wf(self) -> bool {
        0 <= self.millis
    }

    /// A duration of the given milliseconds.
    pub fn new(millis: i64) -> (r: TaskDuration)
        requires
            millis >= 0,
        ensures
            r.millis == millis,
            r.wf(),
    {
        TaskDuration { millis }
    }

    /// The zero duration.
    pub fn zero() -> (r: TaskDuration)
        ensures
            r.millis == 0,
            r.wf(),
    {
        TaskDuration { millis: 0 }
    }

    /// The duration a millisecond-count string denotes; absent means zero.
    /// A value at or above one hundred hours is refused with a
    /// `ValidationError` (the guard against corrupt upstream data); anything
    /// under it is accepted.
    pub fn from_millis_str(millisec_str: Option<&str>) -> (r: Result<TaskDuration, ValidationError>)
        requires
            opt_millis_ok(millisec_str),
        ensures
            r is Ok <==> opt_millis_val(millisec_str) < hundred_hours_millis(),
            r is Ok ==> r->Ok_0.millis == opt_millis_val(millisec_str) && r->Ok_0.wf(),
    {
        match millisec_str {
            Some(st) => {
                proof {
                    lemma_digits_val_bound(st@);
                    lemma_pow10_mono(st@.len(), 18);
                    assert(pow10(18) == 1_000_000_000_000_000_000) by {
                        reveal_with_fuel(pow10, 19);
                    }
                }
                let n = st.unicode_len();
                let v = match read_digits(st, 0, n) {
                    Some(v) => v,
                    None => {
                        proof {
                            assert(st@.subrange(0, n as int) =~= st@);
                            assert(false);
                        }
                        0
                    },
                };
                proof {
                    assert(st@.subrange(0, n as int) =~= st@);
                }
                if v >= 360_000_000 {
                    Err(ValidationError {  })
                } else {
                    Ok(TaskDuration { millis: v as i64 })
                }
            },
            None => Ok(TaskDuration { millis: 0 }),
        }
    }

    /// The milliseconds this duration holds.
    pub fn as_duration(&self) -> (r: i64)
        ensures
            r == self.millis,
    {
        self.millis
    }

    /// The sum of two durations.
    pub fn add(&self, other: TaskDuration) -> (r: TaskDuration)
        requires
            self.wf(),
            other.wf(),
            self.millis + other.millis <= i64::MAX,
        ensures
            r.millis == self.millis + other.millis,
            r.wf(),
    {
        TaskDuration { millis: self.millis + other.millis }
    }

    /// Renders the duration as `HH:MM:SS`.
    pub fn to_string(&self) -> (r: String)
        requires
            self.wf(),
        ensures
            r@ == duration_str(self.millis as int),
    {
        proof {
            reveal_strlit(":");
        }
        let total_sec: u64 = (self.millis as u64) / 1000;
        let mut out = String::new();
        push_min_two(&mut out, total_sec / 3600);
        out.append(":");
        push_two_digit(&mut out, (total_sec / 60) % 60);
        out.append(":");
        push_two_digit(&mut out, total_sec % 60);
        proof {
            assert(out@ =~= duration_str(self.millis as int));
        }
        out
    }
}

/// The sum of two durations, at the specification level.
pub open spec fn spec_add(a: TaskDuration, b: TaskDuration) -> TaskDuration {
    TaskDuration { millis: (a.millis + b.millis) as i64 }
}

/// Duration addition is commutative: combining two durations gives the same
/// sum in either order.
pub proof fn lemma_add_commutative(a: TaskDuration, b: TaskDuration)
    ensures
        spec_add(a, b) == spec_add(b, a),
{
}

/// Duration addition is associative: a fold of three durations does not
/// depend on the grouping.
pub proof fn lemma_add_associative(a: TaskDuration, b: TaskDuration, c: TaskDuration)
    ensures
        spec_add(spec_add(a, b), c) == spec_add(a, spec_add(b, c)),
{
    let x = a.millis;
    let y = b.millis;
    let z = c.millis;
    assert(((x + y) as i64 + z) as i64 == (x + (y + z) as i64) as i64) by (bit_vector);
}

/// The zero duration is the identity of addition, on either side.
pub proof fn lemma_add_zero(a: TaskDuration)
    ensures
        spec_add(a, TaskDuration { millis: 0 }) == a,
        spec_add(TaskDuration { millis: 0 }, a) == a,
{
}

} // verus!
