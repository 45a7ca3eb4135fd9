//! Calendar and instant arithmetic for the fixed +09:00 zone.
//!
//! Dates are plain year/month/day triples in the proleptic Gregorian
//! calendar, measured by `day_number`: days since 0000-01-01. Instants are
//! epoch milliseconds paired with the wall-clock fields they denote in the
//! +09:00 zone; the well-formedness predicate ties the fields to the
//! millisecond count, so rendering and day attribution read the fields while
//! ordering and filtering compare the milliseconds.

use vstd::prelude::*;

use crate::errors::FormatError;
use crate::strfmt::{
    all_digits, digit_val, digits_val, four_digit_str, is_digit, push_four_digit, push_two_digit,
    read_digits, two_digit_str,
};

verus! {

pub open spec fn is_leap_year(y: int) -> bool {
    (y % 4 == 0 && y % 100 != 0) || y % 400 == 0
}

pub open spec fn days_in_year(y: int) -> int {
    if is_leap_year(y) {
        366
    } else {
        365
    }
}

pub open spec fn days_in_month(y: int, m: int) -> int {
    if m == 2 {
        if is_leap_year(y) {
            29
        } else {
            28
        }
    } else if m == 4 || m == 6 || m == 9 || m == 11 {
        30
    } else {
        31
    }
}

/// The calendar dates this library works on: years 0000 through 10000 (the
/// last year only so that an interval ending 9999-12-31 still has a day
/// after it; parsed dates stay within 9999).
pub open spec fn valid_ymd(y: int, m: int, d: int) -> bool {
    0 <= y <= 10000 && 1 <= m <= 12 && 1 <= d <= days_in_month(y, m)
}

/// Days in all years before `y`, counted from year 0.
pub open spec fn days_before_year(y: int) -> int
    decreases y,
{
    if y <= 0 {
        0
    } else {
        days_before_year(y - 1) + days_in_year(y - 1)
    }
}

/// Days in all months of year `y` before month `m`.
pub open spec fn days_before_month(y: int, m: int) -> int
    decreases m,
{
    if m <= 1 {
        0
    } else {
        days_before_month(y, m - 1) + days_in_month(y, m - 1)
    }
}

pub proof fn lemma_days_before_year_bounds(y: int)
    requires
        0 <= y,
    ensures
        365 * y <= days_before_year(y) <= 366 * y,
    decreases y,
{
    if y > 0 {
        lemma_days_before_year_bounds(y - 1);
    }
}

pub proof fn lemma_days_before_year_mono(a: int, b: int)
    requires
        a <= b,
    ensures
        days_before_year(a) <= days_before_year(b),
    decreases b - a,
{
    if a < b {
        lemma_days_before_year_mono(a, b - 1);
        if b > 0 {
            assert(days_before_year(b) == days_before_year(b - 1) + days_in_year(b - 1));
        }
    }
}

pub proof fn lemma_days_before_month_mono(y: int, a: int, b: int)
    requires
        a <= b,
    ensures
        days_before_month(y, a) <= days_before_month(y, b),
    decreases b - a,
{
    if a < b {
        lemma_days_before_month_mono(y, a, b - 1);
    }
}

/// The whole year's months sum to the year's days.
pub proof fn lemma_days_before_month_total(y: int)
    ensures
        days_before_month(y, 13) == days_in_year(y),
{
    reveal_with_fuel(days_before_month, 14);
}

/// Day count since 0000-01-01 of a calendar date.
pub open spec fn day_number_of(y: int, m: int, d: int) -> int {
    days_before_year(y) + days_before_month(y, m) + d - 1
}

/// A calendar date, held as plain year, month and day.
#[derive(Debug, Clone, Copy, PartialEq, Eq, PartialOrd, Ord, Structural, Hash)]
pub struct Date {
    pub year: u32,
    pub month: u32,
    pub day: u32,
}

impl Date {
    pub open spec fn wf(self) -> bool {
        valid_ymd(self.year as int, self.month as int, self.day as int)
    }

    pub open spec fn day_number(self) -> int {
        day_number_of(self.year as int, self.month as int, self.day as int)
    }
}

/// A valid date's day number lies below the day count of year 10000, and
/// distinct valid dates have distinct day numbers (the count is within the
/// date's own year and month).
pub proof fn lemma_day_number_range(dt: Date)
    requires
        dt.wf(),
    ensures
        days_before_year(dt.year as int) <= dt.day_number() < days_before_year(
            dt.year as int + 1,
        ),
        dt.day_number() < days_before_year(10001),
{
    let y = dt.year as int;
    let m = dt.month as int;
    lemma_days_before_month_mono(y, 1, m);
    assert(days_before_month(y, m + 1) == days_before_month(y, m) + days_in_month(y, m));
    lemma_days_before_month_mono(y, m + 1, 13);
    lemma_days_before_month_total(y);
    assert(days_before_year(y + 1) == days_before_year(y) + days_in_year(y));
    lemma_days_before_year_mono(y + 1, 10001);
}

/// Day numbering is injective on valid dates.
pub proof fn lemma_day_number_injective(a: Date, b: Date)
    requires
        a.wf(),
        b.wf(),
        a.day_number() == b.day_number(),
    ensures
        a == b,
{
    lemma_day_number_range(a);
    lemma_day_number_range(b);
    if a.year != b.year {
        if a.year < b.year {
            lemma_days_before_year_mono(a.year as int + 1, b.year as int);
        } else {
            lemma_days_before_year_mono(b.year as int + 1, a.year as int);
        }
        assert(false);
    }
    let y = a.year as int;
    if a.month != b.month {
        let (lo, hi) = if a.month < b.month {
            (a, b)
        } else {
            (b, a)
        };
        assert(days_before_month(y, lo.month as int + 1) == days_before_month(y, lo.month as int)
            + days_in_month(y, lo.month as int));
        lemma_days_before_month_mono(y, lo.month as int + 1, hi.month as int);
        assert(false);
    }
}

pub fn is_leap_year_x(y: u64) -> (r: bool)
    ensures
        r == is_leap_year(y as int),
{
    (y % 4 == 0 && y % 100 != 0) || y % 400 == 0
}

pub fn days_in_year_x(y: u64) -> (r: u64)
    ensures
        r == days_in_year(y as int),
{
    if is_leap_year_x(y) {
        366
    } else {
        365
    }
}

pub fn days_in_month_x(y: u64, m: u64) -> (r: u64)
    ensures
        r == days_in_month(y as int, m as int),
{
    if m == 2 {
        if is_leap_year_x(y) {
            29
        } else {
            28
        }
    } else if m == 4 || m == 6 || m == 9 || m == 11 {
        30
    } else {
        31
    }
}

pub fn days_before_year_x(y: u64) -> (r: u64)
    requires
        y <= 10001,
    ensures
        r == days_before_year(y as int),
{
    let mut k: u64 = 0;
    let mut acc: u64 = 0;
    while k < y
        invariant
            k <= y <= 10001,
            acc == days_before_year(k as int),
        decreases y - k,
    {
        proof {
            lemma_days_before_year_bounds(k as int);
        }
        acc = acc + days_in_year_x(k);
        k = k + 1;
    }
    acc
}

pub fn days_before_month_x(y: u64, m: u64) -> (r: u64)
    requires
        m <= 13,
    ensures
        r == days_before_month(y as int, m as int),
{
    let mut k: u64 = 1;
    let mut acc: u64 = 0;
    while k < m
        invariant
            1 <= k,
            m <= 13,
            k <= m || k == 1,
            acc == days_before_month(y as int, k as int),
            acc <= 366 * k,
        decreases m - k,
    {
        acc = acc + days_in_month_x(y, k);
        k = k + 1;
    }
    acc
}

/// The day number of a valid date.
pub fn day_number_x(dt: &Date) -> (r: u64)
    requires
        dt.wf(),
    ensures
        r == dt.day_number(),
        r < days_before_year(10001),
{
    proof {
        lemma_day_number_range(*dt);
        lemma_days_before_year_bounds(dt.year as int);
        lemma_days_before_month_mono(dt.year as int, 1, dt.month as int + 1);
        lemma_days_before_month_total(dt.year as int);
    }
    let by = days_before_year_x(dt.year as u64);
    let bm = days_before_month_x(dt.year as u64, dt.month as u64);
    by + bm + dt.day as u64 - 1
}

/// The valid date with the given day number.
pub fn date_of_day_number(n: u64) -> (r: Date)
    requires
        n < days_before_year(10001),
    ensures
        r.wf(),
        r.day_number() == n,
{
    let mut y: u64 = 0;
    let mut acc: u64 = 0;
    loop
        invariant
            y <= 10000,
            acc == days_before_year(y as int),
            acc <= n < days_before_year(10001),
        ensures
            y <= 10000,
            acc == days_before_year(y as int),
            acc <= n,
            n < acc + days_in_year(y as int),
        decreases 10001 - y,
    {
        let diy = days_in_year_x(y);
        proof {
            lemma_days_before_year_bounds(y as int);
        }
        if acc + diy <= n {
            proof {
                assert(days_before_year(y as int + 1) == acc + days_in_year(y as int));
                if y as int + 1 >= 10001 {
                    lemma_days_before_year_mono(10001, y as int + 1);
                    assert(false);
                }
            }
            acc = acc + diy;
            y = y + 1;
        } else {
            break;
        }
    }
    let rem = n - acc;
    proof {
        lemma_days_before_month_total(y as int);
    }
    let mut m: u64 = 1;
    let mut macc: u64 = 0;
    loop
        invariant
            1 <= m <= 12,
            macc == days_before_month(y as int, m as int),
            macc <= rem,
            rem < days_before_month(y as int, 13),
            rem <= 365,
        ensures
            1 <= m <= 12,
            macc == days_before_month(y as int, m as int),
            macc <= rem,
            rem < macc + days_in_month(y as int, m as int),
        decreases 13 - m,
    {
        let dim = days_in_month_x(y, m);
        if macc + dim <= rem {
            proof {
                assert(days_before_month(y as int, m as int + 1) == macc + days_in_month(
                    y as int,
                    m as int,
                ));
                if m as int + 1 >= 13 {
                    lemma_days_before_month_mono(y as int, 13, m as int + 1);
                    assert(false);
                }
            }
            macc = macc + dim;
            m = m + 1;
        } else {
            break;
        }
    }
    let d = rem - macc + 1;
    Date { year: y as u32, month: m as u32, day: d as u32 }
}

/// Wall-clock milliseconds of the +09:00 zone, counted from 0000-01-01
/// 00:00:00 local, for the instant `ms` epoch milliseconds after the Unix
/// epoch.
pub open spec fn jst_epoch_offset_millis() -> int {
    (days_before_year(1970) * 86400 + 9 * 3600) * 1000
}

pub open spec fn jst_total_span_millis() -> int {
    days_before_year(10001) * 86400000
}

/// Epoch milliseconds whose +09:00 wall clock falls in years 0000 - 9999.
pub open spec fn jst_instant_in_range(ms: int) -> bool {
    0 <= ms + jst_epoch_offset_millis() < jst_total_span_millis()
}

/// An instant: epoch milliseconds, paired with the +09:00 wall-clock fields
/// it denotes (seconds truncated). Ordering compares `millis`.
#[derive(Debug, Clone, Copy, PartialEq, Eq, PartialOrd, Ord, Structural)]
pub struct JstDateTime {
    pub millis: i64,
    pub date: Date,
    pub hour: u32,
    pub minute: u32,
    pub second: u32,
}

impl JstDateTime {
    pub open spec fn abs_millis(self) -> int {
        self.millis + jst_epoch_offset_millis()
    }

    pub open spec fn abs_second_of_day(self) -> int {
        (self.abs_millis() % 86400000) / 1000
    }

    pub open spec fn wf(self) -> bool {
        &&& jst_instant_in_range(self.millis as int)
        &&& self.date.wf()
        &&& self.date.day_number() == self.abs_millis() / 86400000
        &&& self.hour == self.abs_second_of_day() / 3600
        &&& self.minute == (self.abs_second_of_day() / 60) % 60
        &&& self.second == self.abs_second_of_day() % 60
        &&& self.hour < 24
        &&& self.minute < 60
        &&& self.second < 60
    }
}

/// Year rendering: four digits zero-padded, plain decimal above 9999.
pub open spec fn year_str(y: int) -> Seq<char> {
    if y < 10000 {
        four_digit_str(y)
    } else {
        crate::strfmt::dec_str(y)
    }
}

/// `YYYY/MM/DD` rendering of a date.
pub open spec fn date_slash_str(dt: Date) -> Seq<char> {
    year_str(dt.year as int) + seq!['/'] + two_digit_str(dt.month as int) + seq!['/']
        + two_digit_str(dt.day as int)
}

/// `YYYY-MM-DD` rendering of a date.
pub open spec fn date_iso_str(dt: Date) -> Seq<char> {
    year_str(dt.year as int) + seq!['-'] + two_digit_str(dt.month as int) + seq!['-']
        + two_digit_str(dt.day as int)
}

/// Appends `year_str(y)` to `out`.
fn push_year(out: &mut String, y: u64)
    ensures
        final(out)@ == old(out)@ + year_str(y as int),
{
    if y < 10000 {
        push_four_digit(out, y);
    } else {
        crate::strfmt::push_dec(out, y);
    }
}

/// `HH:MM:SS` rendering of a time of day.
pub open spec fn hms_str(h: int, mi: int, s: int) -> Seq<char> {
    two_digit_str(h) + seq![':'] + two_digit_str(mi) + seq![':'] + two_digit_str(s)
}

/// `YYYY/MM/DDTHH:MM:SS` rendering of an instant.
pub open spec fn datetime_t_str(t: JstDateTime) -> Seq<char> {
    date_slash_str(t.date) + seq!['T'] + hms_str(t.hour as int, t.minute as int, t.second as int)
}

/// `YYYY/MM/DD HH:MM:SS` rendering of an instant.
pub open spec fn datetime_space_str(t: JstDateTime) -> Seq<char> {
    date_slash_str(t.date) + seq![' '] + hms_str(t.hour as int, t.minute as int, t.second as int)
}

/// `YYYY-MM-DD HH:MM:SS +09:00` rendering of an instant.
pub open spec fn datetime_display_str(t: JstDateTime) -> Seq<char> {
    date_iso_str(t.date) + seq![' '] + hms_str(t.hour as int, t.minute as int, t.second as int)
        + " +09:00"@
}

impl Date {
    /// Renders the date as `YYYY/MM/DD`.
    pub fn format_slash(&self) -> (r: String)
        requires
            self.wf(),
        ensures
            r@ == date_slash_str(*self),
    {
        proof {
            reveal_strlit("/");
        }
        let mut out = String::new();
        push_year(&mut out, self.year as u64);
        out.append("/");
        push_two_digit(&mut out, self.month as u64);
        out.append("/");
        push_two_digit(&mut out, self.day as u64);
        proof {
            assert(out@ =~= date_slash_str(*self));
        }
        out
    }

    /// Renders the date as `YYYY-MM-DD`.
    pub fn format_iso(&self) -> (r: String)
        requires
            self.wf(),
        ensures
            r@ == date_iso_str(*self),
    {
        proof {
            reveal_strlit("-");
        }
        let mut out = String::new();
        push_year(&mut out, self.year as u64);
        out.append("-");
        push_two_digit(&mut out, self.month as u64);
        out.append("-");
        push_two_digit(&mut out, self.day as u64);
        proof {
            assert(out@ =~= date_iso_str(*self));
        }
        out
    }
}

/// Appends `HH:MM:SS` for the instant's time of day.
fn push_hms(out: &mut String, t: &JstDateTime)
    requires
        t.wf(),
    ensures
        final(out)@ == old(out)@ + hms_str(t.hour as int, t.minute as int, t.second as int),
{
    proof {
        reveal_strlit(":");
    }
    push_two_digit(out, t.hour as u64);
    out.append(":");
    push_two_digit(out, t.minute as u64);
    out.append(":");
    push_two_digit(out, t.second as u64);
    assert(final(out)@ =~= old(out)@ + hms_str(t.hour as int, t.minute as int, t.second as int));
}

impl JstDateTime {
    /// Renders the instant as `YYYY/MM/DDTHH:MM:SS`.
    pub fn format_slash_t(&self) -> (r: String)
        requires
            self.wf(),
        ensures
            r@ == datetime_t_str(*self),
    {
        proof {
            reveal_strlit("T");
        }
        let mut out = self.date.format_slash();
        out.append("T");
        push_hms(&mut out, self);
        proof {
            assert(out@ =~= datetime_t_str(*self));
        }
        out
    }

    /// Renders the instant as `YYYY/MM/DD HH:MM:SS`.
    pub fn format_slash_space(&self) -> (r: String)
        requires
            self.wf(),
        ensures
            r@ == datetime_space_str(*self),
    {
        proof {
            reveal_strlit(" ");
        }
        let mut out = self.date.format_slash();
        out.append(" ");
        push_hms(&mut out, self);
        proof {
            assert(out@ =~= datetime_space_str(*self));
        }
        out
    }

    /// Renders the instant as `YYYY-MM-DD HH:MM:SS +09:00`, the display form
    /// of an offset datetime.
    pub fn to_string(&self) -> (r: String)
        requires
            self.wf(),
        ensures
            r@ == datetime_display_str(*self),
    {
        proof {
            reveal_strlit(" ");
        }
        let mut out = self.date.format_iso();
        out.append(" ");
        push_hms(&mut out, self);
        out.append(" +09:00");
        proof {
            assert(out@ =~= datetime_display_str(*self));
        }
        out
    }
}

/// Relies on chrono's `Utc::now` and `DateTime::timestamp_millis`: the
/// current Unix time in milliseconds. Non-negative because `Utc::now`
/// panics when the system clock reads before the Unix epoch, so every
/// return value counts forward from it.
#[verifier::external_body]
fn utc_now_millis() -> (r: i64)
    ensures
        r >= 0,
{
    chrono::Utc::now().timestamp_millis()
}

/// The fixed +09:00 zone: constructors for dates and instants under it.
#[derive(Debug, Clone, PartialEq, Eq)]
pub struct Jst;

impl Jst {
    /// The instant `millis` epoch milliseconds after the Unix epoch, with its
    /// +09:00 wall-clock fields.
    pub fn timestamp_millis(millis: i64) -> (r: JstDateTime)
        requires
            jst_instant_in_range(millis as int),
        ensures
            r.wf(),
            r.millis == millis,
    {
        proof {
            lemma_days_before_year_bounds(1970);
            lemma_days_before_year_bounds(10001);
            lemma_days_before_year_mono(1970, 10001);
        }
        let epoch_days: u64 = days_before_year_x(1970);
        let offset_ms: u64 = (epoch_days * 86400 + 32400) * 1000;
        let abs: u64 = (millis + offset_ms as i64) as u64;
        let daynum: u64 = abs / 86400000;
        assert(86400000 * (abs as int / 86400000) <= abs);
        assert(daynum < days_before_year(10001));
        let date = date_of_day_number(daynum);
        let rem: u64 = abs % 86400000;
        let s: u64 = rem / 1000;
        let hour: u32 = (s / 3600) as u32;
        let minute: u32 = ((s / 60) % 60) as u32;
        let second: u32 = (s % 60) as u32;
        JstDateTime { millis, date, hour, minute, second }
    }

    /// The current instant under +09:00. A system clock past the supported
    /// year range (end of 9999) is held to the last supported instant.
    pub fn now() -> (r: JstDateTime)
        ensures
            r.wf(),
            r.millis >= 0,
            r.date.year <= 9999,
            r.date.day_number() >= days_before_year(1970),
    {
        proof {
            lemma_days_before_year_bounds(1970);
            lemma_days_before_year_mono(1970, 10000);
            lemma_days_before_year_bounds(10000);
        }
        let ms = utc_now_millis();
        let epoch_days: u64 = days_before_year_x(1970);
        let span_days: u64 = days_before_year_x(10000);
        let max_ms: i64 = (((span_days - epoch_days) * 86400) as i64 - 32400) * 1000 - 1;
        let bounded = if ms > max_ms {
            max_ms
        } else {
            ms
        };
        let r = Jst::timestamp_millis(bounded);
        proof {
            let abs = r.abs_millis();
            assert(abs < days_before_year(10000) * 86400000);
            let dn = r.date.day_number();
            assert(86400000 * (abs / 86400000) <= abs);
            assert(dn < days_before_year(10000));
            lemma_day_number_range(r.date);
            if r.date.year >= 10000 {
                lemma_days_before_year_mono(10000, r.date.year as int);
                assert(false);
            }
            assert(abs >= days_before_year(1970) * 86400000 + 32400000);
            if dn < days_before_year(1970) {
                assert(86400000 * dn + 86400000 <= 86400000 * days_before_year(1970));
                assert(abs < 86400000 * dn + 86400000);
                assert(false);
            }
        }
        r
    }

    /// Today's calendar date under +09:00 (the plain date of `now`, with no
    /// day-boundary rule applied).
    pub fn today() -> (r: Date)
        ensures
            r.wf(),
    {
        Jst::now().date
    }

    /// The calendar date with the given fields, which must name a real date.
    pub fn ymd(year: u32, month: u32, day: u32) -> (r: Date)
        requires
            valid_ymd(year as int, month as int, day as int),
        ensures
            r == (Date { year, month, day }),
            r.wf(),
    {
        Date { year, month, day }
    }
}

/// The year, month and day fields a well-shaped date string denotes.
pub open spec fn shape_year(s: Seq<char>) -> int {
    digits_val(s.subrange(0, 4))
}

pub open spec fn shape_month(s: Seq<char>) -> int {
    if is_sep(s[6]) {
        digit_val(s[5])
    } else {
        digits_val(s.subrange(5, 7))
    }
}

pub open spec fn shape_day(s: Seq<char>) -> int {
    if is_sep(s[6]) {
        digits_val(s.subrange(7, s.len() as int))
    } else {
        digits_val(s.subrange(8, s.len() as int))
    }
}

pub open spec fn is_sep(c: char) -> bool {
    c == '/' || c == '-'
}

/// The accepted date-string pattern: four year digits, a `/` or `-`
/// separator, one or two month digits, a separator, one or two day digits.
pub open spec fn date_shape(s: Seq<char>) -> bool {
    &&& 8 <= s.len() <= 10
    &&& all_digits(s.subrange(0, 4))
    &&& is_sep(s[4])
    &&& if is_sep(s[6]) {
        &&& is_digit(s[5])
        &&& s.len() <= 9
        &&& all_digits(s.subrange(7, s.len() as int))
    } else {
        &&& is_digit(s[5])
        &&& is_digit(s[6])
        &&& is_sep(s[7])
        &&& s.len() >= 9
        &&& all_digits(s.subrange(8, s.len() as int))
    }
}

/// A date string is accepted when it has the shape and its fields name a
/// real calendar date.
pub open spec fn parse_date_ok(s: Seq<char>) -> bool {
    date_shape(s) && valid_ymd(shape_year(s), shape_month(s), shape_day(s))
}

/// The date an accepted string denotes.
pub open spec fn parsed_date(s: Seq<char>) -> Date {
    Date { year: shape_year(s) as u32, month: shape_month(s) as u32, day: shape_day(s) as u32 }
}

fn is_sep_x(c: char) -> (r: bool)
    ensures
        r == is_sep(c),
{
    c == '/' || c == '-'
}

impl Jst {
    /// Parses a `YYYY/MM/DD` (or `YYYY-MM-DD`) string, one- or two-digit
    /// month and day permitted, to a calendar date; a string of any other
    /// shape, or naming an impossible date, is answered with a `FormatError`
    /// carrying it.
    pub fn date_from_str(s: &str) -> (r: Result<Date, FormatError>)
        ensures
            r is Ok <==> parse_date_ok(s@),
            r is Ok ==> r->Ok_0.wf() && r->Ok_0 == parsed_date(s@) && r->Ok_0.year <= 9999,
            r is Err ==> r->Err_0.input@ == s@,
    {
        let n = s.unicode_len();
        if n < 8 || n > 10 {
            return Err(FormatError { input: s.to_owned() });
        }
        let year = match read_digits(s, 0, 4) {
            Some(v) => v,
            None => {
                return Err(FormatError { input: s.to_owned() });
            },
        };
        proof {
            crate::strfmt::lemma_digits_val_bound(s@.subrange(0, 4));
            crate::strfmt::lemma_pow10_mono(4, 4);
            assert(crate::strfmt::pow10(4) == 10000) by {
                reveal_with_fuel(crate::strfmt::pow10, 5);
            }
        }
        if !is_sep_x(s.get_char(4)) {
            return Err(FormatError { input: s.to_owned() });
        }
        let (month, day) = if is_sep_x(s.get_char(6)) {
            if n > 9 {
                return Err(FormatError { input: s.to_owned() });
            }
            let m = match read_digits(s, 5, 6) {
                Some(v) => v,
                None => {
                    proof {
                        assert(s@.subrange(5, 6)[0] == s@[5]);
                    }
                    return Err(FormatError { input: s.to_owned() });
                },
            };
            proof {
                let sub = s@.subrange(5, 6);
                assert(sub[0] == s@[5]);
                assert(sub.len() == 1);
                assert(sub.last() == s@[5]);
                assert(sub.drop_last() =~= Seq::<char>::empty());
                assert(digits_val(Seq::<char>::empty()) == 0);
                assert(digits_val(sub) == digits_val(sub.drop_last()) * 10 + digit_val(sub.last()));
                assert(m == digit_val(s@[5]));
            }
            let d = match read_digits(s, 7, n) {
                Some(v) => v,
                None => {
                    return Err(FormatError { input: s.to_owned() });
                },
            };
            proof {
                crate::strfmt::lemma_digits_val_bound(s@.subrange(7, n as int));
                assert(crate::strfmt::pow10(3) == 1000) by {
                    reveal_with_fuel(crate::strfmt::pow10, 4);
                }
                crate::strfmt::lemma_pow10_mono((n - 7) as nat, 3);
            }
            (m, d)
        } else {
            if !is_sep_x(s.get_char(7)) || n < 9 {
                return Err(FormatError { input: s.to_owned() });
            }
            let m = match read_digits(s, 5, 7) {
                Some(v) => v,
                None => {
                    proof {
                        assert(s@.subrange(5, 7)[0] == s@[5]);
                        assert(s@.subrange(5, 7)[1] == s@[6]);
                    }
                    return Err(FormatError { input: s.to_owned() });
                },
            };
            proof {
                assert(s@.subrange(5, 7)[0] == s@[5]);
                assert(s@.subrange(5, 7)[1] == s@[6]);
                crate::strfmt::lemma_digits_val_bound(s@.subrange(5, 7));
                assert(crate::strfmt::pow10(2) == 100) by {
                    reveal_with_fuel(crate::strfmt::pow10, 3);
                }
            }
            let d = match read_digits(s, 8, n) {
                Some(v) => v,
                None => {
                    return Err(FormatError { input: s.to_owned() });
                },
            };
            proof {
                crate::strfmt::lemma_digits_val_bound(s@.subrange(8, n as int));
                assert(crate::strfmt::pow10(2) == 100) by {
                    reveal_with_fuel(crate::strfmt::pow10, 3);
                }
                crate::strfmt::lemma_pow10_mono((n - 8) as nat, 2);
            }
            (m, d)
        };
        if month < 1 || month > 12 {
            return Err(FormatError { input: s.to_owned() });
        }
        if day < 1 || day > days_in_month_x(year, month) {
            return Err(FormatError { input: s.to_owned() });
        }
        Ok(Date { year: year as u32, month: month as u32, day: day as u32 })
    }
}

} // verus!
