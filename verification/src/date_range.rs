//! The reporting window: a start and an end calendar date, expanded to the
//! half-open-like instant interval from the start date at 05:00:00 +09:00 to
//! the day after the end date at 04:59:59 +09:00. A calendar "day" runs from
//! 05:00 to the next day's 04:59:59 in the fixed +09:00 zone, so a timestamp
//! before 05:00 belongs to the previous day.

use vstd::prelude::*;

use crate::errors::{DateRangeError, FormatError, RangeError};
use crate::jst::{
    date_of_day_number, date_slash_str, datetime_t_str, day_number_x, days_before_year, hms_str,
    parse_date_ok, parsed_date, lemma_day_number_injective, lemma_day_number_range,
    lemma_days_before_year_bounds, lemma_days_before_year_mono, Date, Jst, JstDateTime,
};

verus! {

/// A normalized reporting window. `start_date` and `end_date` are the
/// resolved user-level dates (both inclusive); `end_next` is the day after
/// `end_date`, on which the interval's exclusive boundary instant lies.
#[derive(Debug, Clone, Copy, PartialEq, Eq, PartialOrd, Ord, Structural)]
pub struct DateRange {
    pub start_date: Date,
    pub end_date: Date,
    pub end_next: Date,
}

impl DateRange {
    pub open spec fn wf(self) -> bool {
        &&& self.start_date.wf()
        &&& self.end_date.wf()
        &&& self.end_next.wf()
        &&& self.start_date.year <= 9999
        &&& self.end_date.year <= 9999
        &&& self.start_date.day_number() <= self.end_date.day_number()
        &&& self.end_next.day_number() == self.end_date.day_number() + 1
    }

    /// Epoch seconds of the interval's first instant: start date, 05:00 +09:00.
    pub open spec fn start_sec(self) -> int {
        (self.start_date.day_number() - days_before_year(1970)) * 86400 + 18000 - 32400
    }

    /// Epoch seconds of the interval's last instant: the day after the end
    /// date, 04:59:59 +09:00.
    pub open spec fn end_sec(self) -> int {
        (self.end_next.day_number() - days_before_year(1970)) * 86400 + 17999 - 32400
    }

    /// The date a record's date string resolves to when the user gives none:
    /// today under the 05:00 rule — today's date when the wall clock reads
    /// 05:00 or later, else yesterday's.
    pub fn default_target_date() -> (r: Date)
        ensures
            r.wf(),
            r.year <= 9999,
    {
        let now = Jst::now();
        if now.hour >= 5 {
            now.date
        } else {
            proof {
                lemma_days_before_year_bounds(1970);
                lemma_day_number_range(now.date);
            }
            let dn = day_number_x(&now.date);
            let r = date_of_day_number(dn - 1);
            proof {
                lemma_day_number_range(r);
                if r.year > now.date.year {
                    lemma_days_before_year_mono(now.date.year as int + 1, r.year as int);
                    assert(false);
                }
            }
            r
        }
    }

    /// Resolves the optional date strings to a window. A string that does not
    /// parse is answered with its `FormatError`; a resolved end date before
    /// the resolved start date with a `RangeError` carrying both inputs. An
    /// absent end date equals the start date; an absent start date is today
    /// under the 05:00 rule.
    pub fn new(start_date: Option<&str>, end_date: Option<&str>) -> (r: Result<
        DateRange,
        DateRangeError,
    >)
        ensures
            r is Ok ==> r->Ok_0.wf(),
            (match start_date {
                Some(s) => !parse_date_ok(s@) ==> (r matches Err(DateRangeError::Format(f))
                    && f.input@ == s@),
                None => true,
            }),
            (match (start_date, end_date) {
                (Some(s), Some(e)) => parse_date_ok(s@) && !parse_date_ok(e@) ==> (r matches Err(
                    DateRangeError::Format(f),
                ) && f.input@ == e@),
                (None, Some(e)) => !parse_date_ok(e@) ==> (r matches Err(DateRangeError::Format(f))
                    && f.input@ == e@),
                _ => true,
            }),
            (match (start_date, end_date) {
                (Some(s), Some(e)) => parse_date_ok(s@) && parse_date_ok(e@) ==> {
                    if parsed_date(e@).day_number() < parsed_date(s@).day_number() {
                        r matches Err(DateRangeError::Range(g)) && g.start@ == s@ && g.end@ == e@
                    } else {
                        r matches Ok(dr) && dr.start_date == parsed_date(s@) && dr.end_date
                            == parsed_date(e@)
                    }
                },
                (Some(s), None) => parse_date_ok(s@) ==> (r matches Ok(dr) && dr.start_date
                    == parsed_date(s@) && dr.end_date == parsed_date(s@)),
                (None, Some(e)) => parse_date_ok(e@) ==> ((r matches Ok(dr) ==> dr.end_date
                    == parsed_date(e@)) && (r matches Err(g_) ==> g_ matches DateRangeError::Range(
                    g,
                ) && g.end@ == e@)),
                (None, None) => r matches Ok(dr) && dr.start_date == dr.end_date,
            }),
    {
        let start: Date;
        let start_repr: String;
        match start_date {
            Some(s) => {
                match Jst::date_from_str(s) {
                    Ok(d) => {
                        start = d;
                        start_repr = s.to_owned();
                    },
                    Err(f) => {
                        return Err(DateRangeError::Format(f));
                    },
                }
            },
            None => {
                let d = Self::default_target_date();
                start = d;
                start_repr = d.format_iso();
            },
        }
        let end: Date;
        let end_repr: String;
        match end_date {
            Some(s) => {
                match Jst::date_from_str(s) {
                    Ok(d) => {
                        end = d;
                        end_repr = s.to_owned();
                    },
                    Err(f) => {
                        return Err(DateRangeError::Format(f));
                    },
                }
            },
            None => {
                end = start;
                end_repr = start_repr.clone();
            },
        }
        proof {
            lemma_day_number_range(start);
            lemma_day_number_range(end);
            lemma_days_before_year_mono(start.year as int + 1, 10000);
            lemma_days_before_year_mono(end.year as int + 1, 10000);
            assert(days_before_year(10001) == days_before_year(10000) + crate::jst::days_in_year(
                10000,
            ));
            lemma_days_before_year_bounds(10000);
        }
        let start_dn = day_number_x(&start);
        let end_dn = day_number_x(&end);
        if end_dn < start_dn {
            return Err(DateRangeError::Range(RangeError { start: start_repr, end: end_repr }));
        }
        let end_next = date_of_day_number(end_dn + 1);
        proof {
            lemma_day_number_range(end_next);
        }
        Ok(DateRange { start_date: start, end_date: end, end_next })
    }

    /// The interval's first instant: the start date at 05:00:00 +09:00.
    pub fn start(&self) -> (r: JstDateTime)
        requires
            self.wf(),
        ensures
            r.wf(),
            r.millis == self.start_sec() * 1000,
            r.date == self.start_date,
            r.hour == 5,
            r.minute == 0,
            r.second == 0,
    {
        proof {
            lemma_days_before_year_bounds(1970);
            lemma_day_number_range(self.start_date);
            lemma_days_before_year_mono(self.start_date.year as int + 1, 10001);
            lemma_days_before_year_bounds(10001);
        }
        let epoch_days = crate::jst::days_before_year_x(1970);
        let dn = day_number_x(&self.start_date);
        let sec: i64 = (dn as i64 - epoch_days as i64) * 86400 + 18000 - 32400;
        let r = Jst::timestamp_millis(sec * 1000);
        proof {
            let dtn = r.date;
            assert(r.abs_millis() == self.start_date.day_number() * 86400000 + 18000000);
            assert(86400000 * (r.abs_millis() / 86400000) + r.abs_millis() % 86400000
                == r.abs_millis());
            assert(dtn.day_number() == self.start_date.day_number());
            lemma_day_number_injective(dtn, self.start_date);
        }
        r
    }

    /// The interval's last instant: the day after the end date at 04:59:59
    /// +09:00.
    pub fn end(&self) -> (r: JstDateTime)
        requires
            self.wf(),
        ensures
            r.wf(),
            r.millis == self.end_sec() * 1000,
            r.date == self.end_next,
            r.hour == 4,
            r.minute == 59,
            r.second == 59,
    {
        proof {
            lemma_days_before_year_bounds(1970);
            lemma_day_number_range(self.end_next);
            lemma_days_before_year_mono(self.end_next.year as int + 1, 10001);
            lemma_days_before_year_bounds(10001);
        }
        let epoch_days = crate::jst::days_before_year_x(1970);
        let dn = day_number_x(&self.end_next);
        let sec: i64 = (dn as i64 - epoch_days as i64) * 86400 + 17999 - 32400;
        let r = Jst::timestamp_millis(sec * 1000);
        proof {
            let dtn = r.date;
            assert(r.abs_millis() == self.end_next.day_number() * 86400000 + 17999000);
            assert(86400000 * (r.abs_millis() / 86400000) + r.abs_millis() % 86400000
                == r.abs_millis());
            assert(dtn.day_number() == self.end_next.day_number());
            lemma_day_number_injective(dtn, self.end_next);
        }
        r
    }

    /// The start date as `YYYY/MM/DD`.
    pub fn start_date_str(&self) -> (r: String)
        requires
            self.wf(),
        ensures
            r@ == date_slash_str(self.start_date),
    {
        self.start_date.format_slash()
    }

    /// The first instant as `YYYY/MM/DDTHH:MM:SS`.
    pub fn start_datetime_str(&self) -> (r: String)
        requires
            self.wf(),
        ensures
            r@ == date_slash_str(self.start_date) + seq!['T'] + hms_str(5, 0, 0),
    {
        let s = self.start();
        let r = s.format_slash_t();
        proof {
            assert(datetime_t_str(s) == date_slash_str(self.start_date) + seq!['T'] + hms_str(
                5,
                0,
                0,
            ));
        }
        r
    }

    /// Epoch seconds of the first instant.
    pub fn start_unixtime_sec(&self) -> (r: i64)
        requires
            self.wf(),
        ensures
            r == self.start_sec(),
    {
        self.start().millis / 1000
    }

    /// Epoch milliseconds of the first instant.
    pub fn start_unixtime_millis(&self) -> (r: i64)
        requires
            self.wf(),
        ensures
            r == self.start_sec() * 1000,
    {
        self.start().millis
    }

    /// The boundary day (the day after the end date) as `YYYY/MM/DD`.
    pub fn end_date_str(&self) -> (r: String)
        requires
            self.wf(),
        ensures
            r@ == date_slash_str(self.end_next),
    {
        self.end_next.format_slash()
    }

    /// The last instant as `YYYY/MM/DDTHH:MM:SS`.
    pub fn end_datetime_str(&self) -> (r: String)
        requires
            self.wf(),
        ensures
            r@ == date_slash_str(self.end_next) + seq!['T'] + hms_str(4, 59, 59),
    {
        let s = self.end();
        let r = s.format_slash_t();
        proof {
            assert(datetime_t_str(s) == date_slash_str(self.end_next) + seq!['T'] + hms_str(
                4,
                59,
                59,
            ));
        }
        r
    }

    /// Epoch seconds of the last instant.
    pub fn end_unixtime_sec(&self) -> (r: i64)
        requires
            self.wf(),
        ensures
            r == self.end_sec(),
    {
        self.end().millis / 1000
    }

    /// Epoch milliseconds of the last instant.
    pub fn end_unixtime_millis(&self) -> (r: i64)
        requires
            self.wf(),
        ensures
            r == self.end_sec() * 1000,
    {
        self.end().millis
    }

    /// Whether the window covers a single calendar day.
    pub fn is_same_date(&self) -> (r: bool)
        requires
            self.wf(),
        ensures
            r == (self.start_date == self.end_date),
    {
        self.start_date == self.end_date
    }

    /// The end date as the user gave it, as `YYYY/MM/DD` (the boundary day
    /// minus one).
    pub fn end_target_date_str(&self) -> (r: String)
        requires
            self.wf(),
        ensures
            r@ == date_slash_str(self.end_date),
    {
        self.end_date.format_slash()
    }

    /// Every calendar date the window covers, start through end inclusive,
    /// in order.
    pub fn vec_dates_str(&self) -> (r: Vec<Date>)
        requires
            self.wf(),
        ensures
            r@.len() == self.end_date.day_number() - self.start_date.day_number() + 1,
            forall|i: int|
                0 <= i < r@.len() ==> (#[trigger] r@[i]).wf() && r@[i].day_number()
                    == self.start_date.day_number() + i,
            r@[0] == self.start_date,
            r@[r@.len() - 1] == self.end_date,
    {
        proof {
            lemma_day_number_range(self.start_date);
            lemma_day_number_range(self.end_date);
            lemma_days_before_year_mono(self.start_date.year as int + 1, 10001);
            lemma_days_before_year_mono(self.end_date.year as int + 1, 10001);
        }
        proof {
            lemma_days_before_year_bounds(10001);
        }
        let start_dn = day_number_x(&self.start_date);
        let end_dn = day_number_x(&self.end_date);
        let mut out: Vec<Date> = Vec::new();
        let mut dn = start_dn;
        while dn <= end_dn
            invariant
                start_dn <= dn <= end_dn + 1,
                start_dn == self.start_date.day_number(),
                end_dn == self.end_date.day_number(),
                end_dn < days_before_year(10001),
                end_dn < 366 * 10001,
                out@.len() == dn - start_dn,
                forall|i: int|
                    0 <= i < out@.len() ==> (#[trigger] out@[i]).wf() && out@[i].day_number()
                        == start_dn + i,
            decreases end_dn + 1 - dn,
        {
            let d = date_of_day_number(dn);
            out.push(d);
            dn = dn + 1;
        }
        proof {
            lemma_day_number_injective(out@[0], self.start_date);
            lemma_day_number_injective(out@[out@.len() - 1], self.end_date);
        }
        out
    }

    /// For every well-formed window the first instant is no later than the
    /// last, and the interval spans a whole number of 05:00-to-05:00 logical
    /// days: one per calendar day from the start date through the end date.
    pub proof fn lemma_whole_logical_days(self)
        requires
            self.wf(),
        ensures
            self.start_sec() <= self.end_sec(),
            self.end_sec() + 1 - self.start_sec() == 86400 * (self.end_date.day_number() + 1
                - self.start_date.day_number()),
            self.end_sec() + 1 - self.start_sec() >= 86400,
    {
    }

    /// The reporting day of an instant: its calendar date, or the previous
    /// day for a wall clock before 05:00.
    pub open spec fn attributed_day_number(t: JstDateTime) -> int {
        if t.hour >= 5 {
            t.date.day_number()
        } else {
            t.date.day_number() - 1
        }
    }

    /// Attributes an instant to a calendar date under the 05:00 rule.
    pub fn convert_datetime_to_date(dt: JstDateTime) -> (r: Date)
        requires
            dt.wf(),
            Self::attributed_day_number(dt) >= 0,
        ensures
            r.wf(),
            r.day_number() == Self::attributed_day_number(dt),
    {
        if dt.hour >= 5 {
            dt.date
        } else {
            proof {
                lemma_day_number_range(dt.date);
                lemma_days_before_year_mono(dt.date.year as int + 1, 10001);
            }
            let dn = day_number_x(&dt.date);
            date_of_day_number(dn - 1)
        }
    }
}

} // verus!
