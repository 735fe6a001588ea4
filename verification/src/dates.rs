//! A verified calendar-date model: proleptic Gregorian dates with four-digit
//! years, a linear day index for ordering and spans, stepping by single days,
//! and the `YYYY-MM-DD` key format used by the upstream schedule endpoint.

use crate::errors::PipelineError;
use crate::text::digit_char;
use crate::text::push_digit;
use vstd::prelude::*;

verus! {

/// A calendar date (no time component).  Only values satisfying [`Date::valid`]
/// represent real days; every function of the library that takes a `Date`
/// requires validity.
#[derive(Clone, Copy, Debug, PartialEq, Eq, Structural)]
pub struct Date {
    pub year: u32,
    pub month: u32,
    pub day: u32,
}

pub open spec fn is_leap_year(y: int) -> bool {
    y % 4 == 0 && (y % 100 != 0 || y % 400 == 0)
}

pub open spec fn days_in_month(y: int, m: int) -> int {
    if m == 2 {
        if is_leap_year(y) {
            29
        } else {
            28
        }
    } else if m == 4 || m == 6 || m == 9 || m == 11 {
        30
    } else {
        31
    }
}

/// Days in all the months of year `y` strictly before month `m`.
pub open spec fn days_before_month(y: int, m: int) -> int
    decreases m,
{
    if m <= 1 {
        0
    } else {
        days_before_month(y, m - 1) + days_in_month(y, m - 1)
    }
}

/// Days in all the years strictly before year `y` (year 0 is the origin).
pub open spec fn days_before_year(y: int) -> int
    decreases y,
{
    if y <= 0 {
        0
    } else {
        days_before_year(y - 1) + if is_leap_year(y - 1) {
            366int
        } else {
            365int
        }
    }
}

/// The linear index of `d`: days from the calendar origin (year 0, January 1).
/// Chronological order and day spans are both read off this index.
pub open spec fn day_index(d: Date) -> int {
    days_before_year(d.year as int) + days_before_month(d.year as int, d.month as int) + d.day - 1
}

impl Date {
    pub open spec fn valid(self) -> bool {
        &&& self.year <= 9999
        &&& 1 <= self.month <= 12
        &&& 1 <= self.day <= days_in_month(self.year as int, self.month as int)
    }
}

pub proof fn lemma_days_before_year_bounds(y: int)
    requires
        0 <= y,
    ensures
        365 * y <= days_before_year(y) <= 366 * y,
    decreases y,
{
    if y > 0 {
        lemma_days_before_year_bounds(y - 1);
    }
}

pub proof fn lemma_days_before_month_bounds(y: int, m: int)
    requires
        1 <= m <= 13,
    ensures
        0 <= days_before_month(y, m) <= 31 * (m - 1),
    decreases m,
{
    if m > 1 {
        lemma_days_before_month_bounds(y, m - 1);
    }
}

/// The latest representable date.
pub open spec fn max_date() -> Date {
    Date { year: 9999, month: 12, day: 31 }
}

pub fn leap_year(y: u32) -> (r: bool)
    ensures
        r == is_leap_year(y as int),
{
    y % 4 == 0 && (y % 100 != 0 || y % 400 == 0)
}

pub fn month_length(y: u32, m: u32) -> (r: u32)
    requires
        1 <= m <= 12,
    ensures
        r == days_in_month(y as int, m as int),
{
    if m == 2 {
        if leap_year(y) {
            29
        } else {
            28
        }
    } else if m == 4 || m == 6 || m == 9 || m == 11 {
        30
    } else {
        31
    }
}

impl Date {
    /// Build a date from its components, validating them; mirrors how callers
    /// obtain dates from year/month/day triples.
    pub fn from_ymd(year: u32, month: u32, day: u32) -> (r: Option<Date>)
        ensures
            match r {
                Some(d) => d == (Date { year, month, day }) && d.valid(),
                None => !(Date { year, month, day }).valid(),
            },
    {
        if year <= 9999 && 1 <= month && month <= 12 && 1 <= day && day <= month_length(
            year,
            month,
        ) {
            Some(Date { year, month, day })
        } else {
            None
        }
    }

    /// Compute the linear day index of this date.
    pub fn to_day_index(&self) -> (n: u32)
        requires
            self.valid(),
        ensures
            n == day_index(*self),
            n <= 3_660_005,
    {
        let mut acc: u32 = 0;
        let mut i: u32 = 0;
        while i < self.year
            invariant
                i <= self.year,
                self.year <= 9999,
                acc == days_before_year(i as int),
                acc <= 366 * i,
            decreases self.year - i,
        {
            if leap_year(i) {
                acc = acc + 366;
            } else {
                acc = acc + 365;
            }
            i = i + 1;
        }
        let mut m: u32 = 1;
        while m < self.month
            invariant
                1 <= m <= self.month,
                self.month <= 12,
                self.year <= 9999,
                acc == days_before_year(self.year as int) + days_before_month(
                    self.year as int,
                    m as int,
                ),
                acc <= 366 * self.year as int + 31 * (m - 1),
            decreases self.month - m,
        {
            acc = acc + month_length(self.year, m);
            m = m + 1;
        }
        acc + self.day - 1
    }

    /// The calendar day after this one, or `None` past the last representable
    /// date.
    pub fn next_day(&self) -> (r: Option<Date>)
        requires
            self.valid(),
        ensures
            match r {
                Some(d) => d.valid() && day_index(d) == day_index(*self) + 1,
                None => *self == max_date(),
            },
    {
        if self.day < month_length(self.year, self.month) {
            Some(Date { year: self.year, month: self.month, day: self.day + 1 })
        } else if self.month < 12 {
            Some(Date { year: self.year, month: self.month + 1, day: 1 })
        } else if self.year < 9999 {
            proof {
                reveal_with_fuel(days_before_month, 13);
            }
            Some(Date { year: self.year + 1, month: 1, day: 1 })
        } else {
            None
        }
    }

    /// The calendar day before this one, or `None` before the first
    /// representable date.
    pub fn prev_day(&self) -> (r: Option<Date>)
        requires
            self.valid(),
        ensures
            match r {
                Some(d) => d.valid() && day_index(d) == day_index(*self) - 1,
                None => *self == (Date { year: 0, month: 1, day: 1 }),
            },
    {
        if self.day > 1 {
            Some(Date { year: self.year, month: self.month, day: self.day - 1 })
        } else if self.month > 1 {
            Some(
                Date {
                    year: self.year,
                    month: self.month - 1,
                    day: month_length(self.year, self.month - 1),
                },
            )
        } else if self.year > 0 {
            proof {
                reveal_with_fuel(days_before_month, 13);
            }
            Some(Date { year: self.year - 1, month: 12, day: 31 })
        } else {
            None
        }
    }
}

pub proof fn lemma_days_before_month_monotone(y: int, m1: int, m2: int)
    requires
        1 <= m1 <= m2 <= 13,
    ensures
        days_before_month(y, m1) <= days_before_month(y, m2),
    decreases m2 - m1,
{
    if m1 < m2 {
        lemma_days_before_month_monotone(y, m1, m2 - 1);
    }
}

pub proof fn lemma_days_before_year_monotone(y1: int, y2: int)
    requires
        0 <= y1 <= y2,
    ensures
        days_before_year(y1) <= days_before_year(y2),
    decreases y2 - y1,
{
    if y1 < y2 {
        lemma_days_before_year_monotone(y1, y2 - 1);
    }
}

/// Every valid date sits between the calendar origin and the latest
/// representable date.
pub proof fn lemma_day_index_range(d: Date)
    requires
        d.valid(),
    ensures
        0 <= day_index(d) <= day_index(max_date()),
{
    reveal_with_fuel(days_before_month, 13);
    lemma_days_before_year_bounds(d.year as int);
    lemma_days_before_month_bounds(d.year as int, d.month as int);
    lemma_days_before_month_monotone(d.year as int, d.month as int + 1, 13);
    if d.year < 9999 {
        lemma_days_before_year_monotone(d.year as int + 1, 9999);
    }
}

/// The day index determines the date: no two valid dates share one.  A
/// contract that pins a result's day index therefore pins the date itself.
pub proof fn lemma_day_index_injective(d1: Date, d2: Date)
    requires
        d1.valid(),
        d2.valid(),
        day_index(d1) == day_index(d2),
    ensures
        d1 == d2,
{
    reveal_with_fuel(days_before_month, 13);
    lemma_in_year_interval(d1);
    lemma_in_year_interval(d2);
    if d1.year < d2.year {
        lemma_days_before_year_monotone(d1.year as int + 1, d2.year as int);
    }
    if d2.year < d1.year {
        lemma_days_before_year_monotone(d2.year as int + 1, d1.year as int);
    }
    let y = d1.year as int;
    if d1.month < d2.month {
        lemma_days_before_month_monotone(y, d1.month as int + 1, d2.month as int);
    }
    if d2.month < d1.month {
        lemma_days_before_month_monotone(y, d2.month as int + 1, d1.month as int);
    }
}

/// A valid date's index lies in the half-open interval of its own year.
proof fn lemma_in_year_interval(d: Date)
    requires
        d.valid(),
    ensures
        days_before_year(d.year as int) <= day_index(d) < days_before_year(d.year as int + 1),
{
    reveal_with_fuel(days_before_month, 13);
    lemma_days_before_month_bounds(d.year as int, d.month as int);
    lemma_days_before_month_monotone(d.year as int, d.month as int + 1, 13);
}

/// The canonical `YYYY-MM-DD` key of a date.
pub open spec fn date_key(d: Date) -> Seq<char> {
    seq![
        digit_char(d.year as int / 1000),
        digit_char((d.year as int / 100) % 10),
        digit_char((d.year as int / 10) % 10),
        digit_char(d.year as int % 10),
        '-',
        digit_char(d.month as int / 10),
        digit_char(d.month as int % 10),
        '-',
        digit_char(d.day as int / 10),
        digit_char(d.day as int % 10),
    ]
}

/// Render a date as its `YYYY-MM-DD` key.
pub fn date_key_string(d: &Date) -> (s: String)
    requires
        d.valid(),
    ensures
        s@ == date_key(*d),
{
    let mut s = String::new();
    push_digit((d.year / 1000) as u64, &mut s);
    push_digit(((d.year / 100) % 10) as u64, &mut s);
    push_digit(((d.year / 10) % 10) as u64, &mut s);
    push_digit((d.year % 10) as u64, &mut s);
    proof {
        reveal_strlit("-");
    }
    s.append("-");
    push_digit((d.month / 10) as u64, &mut s);
    push_digit((d.month % 10) as u64, &mut s);
    s.append("-");
    push_digit((d.day / 10) as u64, &mut s);
    push_digit((d.day % 10) as u64, &mut s);
    proof {
        assert(s@ =~= date_key(*d));
    }
    s
}

/// The numeric value of a decimal digit character, `-1` for any other
/// character.
pub open spec fn digit_val(c: char) -> int {
    if c == '0' {
        0
    } else if c == '1' {
        1
    } else if c == '2' {
        2
    } else if c == '3' {
        3
    } else if c == '4' {
        4
    } else if c == '5' {
        5
    } else if c == '6' {
        6
    } else if c == '7' {
        7
    } else if c == '8' {
        8
    } else if c == '9' {
        9
    } else {
        -1
    }
}

pub open spec fn is_digit(c: char) -> bool {
    digit_val(c) >= 0
}

/// Read a decimal digit character.
pub fn char_digit(c: char) -> (r: Option<u32>)
    ensures
        match r {
            Some(v) => is_digit(c) && v == digit_val(c),
            None => !is_digit(c),
        },
{
    match c {
        '0' => Some(0),
        '1' => Some(1),
        '2' => Some(2),
        '3' => Some(3),
        '4' => Some(4),
        '5' => Some(5),
        '6' => Some(6),
        '7' => Some(7),
        '8' => Some(8),
        '9' => Some(9),
        _ => None,
    }
}

/// The date a well-formed `YYYY-MM-DD` key denotes.
pub open spec fn key_date(s: Seq<char>) -> Date {
    Date {
        year: (digit_val(s[0]) * 1000 + digit_val(s[1]) * 100 + digit_val(s[2]) * 10 + digit_val(
            s[3],
        )) as u32,
        month: (digit_val(s[5]) * 10 + digit_val(s[6])) as u32,
        day: (digit_val(s[8]) * 10 + digit_val(s[9])) as u32,
    }
}

/// Whether `s` is a `YYYY-MM-DD` key denoting a valid calendar date.
pub open spec fn is_date_key(s: Seq<char>) -> bool {
    &&& s.len() == 10
    &&& is_digit(s[0]) && is_digit(s[1]) && is_digit(s[2]) && is_digit(s[3])
    &&& s[4] == '-'
    &&& is_digit(s[5]) && is_digit(s[6])
    &&& s[7] == '-'
    &&& is_digit(s[8]) && is_digit(s[9])
    &&& key_date(s).valid()
}

/// Parse a `YYYY-MM-DD` date key.
pub fn parse_date(s: &str) -> (r: Option<Date>)
    ensures
        match r {
            Some(d) => is_date_key(s@) && d == key_date(s@) && d.valid(),
            None => !is_date_key(s@),
        },
{
    if s.unicode_len() != 10 {
        return None;
    }
    let y0 = match char_digit(s.get_char(0)) {
        Some(v) => v,
        None => {
            return None;
        },
    };
    let y1 = match char_digit(s.get_char(1)) {
        Some(v) => v,
        None => {
            return None;
        },
    };
    let y2 = match char_digit(s.get_char(2)) {
        Some(v) => v,
        None => {
            return None;
        },
    };
    let y3 = match char_digit(s.get_char(3)) {
        Some(v) => v,
        None => {
            return None;
        },
    };
    if s.get_char(4) != '-' {
        return None;
    }
    let m0 = match char_digit(s.get_char(5)) {
        Some(v) => v,
        None => {
            return None;
        },
    };
    let m1 = match char_digit(s.get_char(6)) {
        Some(v) => v,
        None => {
            return None;
        },
    };
    if s.get_char(7) != '-' {
        return None;
    }
    let d0 = match char_digit(s.get_char(8)) {
        Some(v) => v,
        None => {
            return None;
        },
    };
    let d1 = match char_digit(s.get_char(9)) {
        Some(v) => v,
        None => {
            return None;
        },
    };
    let year = y0 * 1000 + y1 * 100 + y2 * 10 + y3;
    let month = m0 * 10 + m1;
    let day = d0 * 10 + d1;
    Date::from_ymd(year, month, day)
}

/// Whether `s` is a `YYYY-MM-DD::YYYY-MM-DD` date-range key.
pub open spec fn is_date_range_key(s: Seq<char>) -> bool {
    &&& s.len() == 22
    &&& s[10] == ':' && s[11] == ':'
    &&& is_date_key(s.subrange(0, 10))
    &&& is_date_key(s.subrange(12, 22))
}

/// Read an inclusive date range from a `YYYY-MM-DD::YYYY-MM-DD` argument.
/// Rejected when either date is malformed, when the shape is not two dates
/// joined by `::`, or when the ending date comes before the starting date.
pub fn parse_date_args(arg: &str) -> (r: Result<(Date, Date), PipelineError>)
    ensures
        (r is Ok) <==> (is_date_range_key(arg@) && day_index(key_date(arg@.subrange(0, 10)))
            <= day_index(key_date(arg@.subrange(12, 22)))),
        r is Ok ==> {
            &&& r->Ok_0.0 == key_date(arg@.subrange(0, 10))
            &&& r->Ok_0.1 == key_date(arg@.subrange(12, 22))
            &&& r->Ok_0.0.valid()
            &&& r->Ok_0.1.valid()
        },
        r is Err ==> (r->Err_0 matches PipelineError::InvalidArguments { .. }),
{
    if arg.unicode_len() != 22 {
        return Err(
            PipelineError::InvalidArguments {
                reason: String::from_str("expected two dates in YYYY-MM-DD::YYYY-MM-DD form"),
            },
        );
    }
    if arg.get_char(10) != ':' || arg.get_char(11) != ':' {
        return Err(
            PipelineError::InvalidArguments {
                reason: String::from_str("expected two dates in YYYY-MM-DD::YYYY-MM-DD form"),
            },
        );
    }
    let first = arg.substring_char(0, 10);
    let second = arg.substring_char(12, 22);
    let start_date = match parse_date(first) {
        Some(d) => d,
        None => {
            return Err(
                PipelineError::InvalidArguments { reason: String::from_str("invalid start date") },
            );
        },
    };
    let end_date = match parse_date(second) {
        Some(d) => d,
        None => {
            return Err(
                PipelineError::InvalidArguments { reason: String::from_str("invalid end date") },
            );
        },
    };
    if end_date.to_day_index() < start_date.to_day_index() {
        return Err(
            PipelineError::InvalidArguments {
                reason: String::from_str("ending date comes before starting date"),
            },
        );
    }
    Ok((start_date, end_date))
}

/// A wall-clock instant in UTC.
#[derive(Clone, Copy, Debug, PartialEq, Eq, Structural)]
pub struct UtcDateTime {
    pub date: Date,
    pub hour: u32,
    pub minute: u32,
    pub second: u32,
}

impl UtcDateTime {
    pub open spec fn valid(self) -> bool {
        &&& self.date.valid()
        &&& self.hour < 24
        &&& self.minute < 60
        &&& self.second < 60
    }
}

/// Whether `s` is a `±hh:mm` venue offset.
pub open spec fn is_offset_key(s: Seq<char>) -> bool {
    &&& s.len() == 6
    &&& (s[0] == '+' || s[0] == '-')
    &&& is_digit(s[1]) && is_digit(s[2])
    &&& s[3] == ':'
    &&& is_digit(s[4]) && is_digit(s[5])
}

/// The minute adjustment a `±hh:mm` venue offset encodes; the sign applies to
/// the hour part.
pub open spec fn offset_minutes(s: Seq<char>) -> int {
    let h = digit_val(s[1]) * 10 + digit_val(s[2]);
    let m = digit_val(s[4]) * 10 + digit_val(s[5]);
    if s[0] == '-' {
        m - h * 60
    } else {
        h * 60 + m
    }
}

/// The day index of the calendar day local to the venue: the offset-adjusted
/// time of day carries whole days (rounding down) into the date.
pub open spec fn adjusted_day_index(t: UtcDateTime, off: Seq<char>) -> int {
    day_index(t.date) + (t.hour * 3600 + t.minute * 60 + t.second + offset_minutes(off) * 60)
        / 86400
}

/// Adjust a game's start time in UTC to the venue-local calendar date, using
/// the `±hh:mm` venue UTC offset reported by the schedule endpoint.
pub fn adjust_to_local_time(start_time_utc: &UtcDateTime, venue_offset: &str) -> (r: Result<
    Date,
    PipelineError,
>)
    requires
        start_time_utc.valid(),
    ensures
        (r is Ok) <==> (is_offset_key(venue_offset@) && 0 <= adjusted_day_index(
            *start_time_utc,
            venue_offset@,
        ) <= day_index(max_date())),
        r is Ok ==> r->Ok_0.valid() && day_index(r->Ok_0) == adjusted_day_index(
            *start_time_utc,
            venue_offset@,
        ),
        r is Err ==> (r->Err_0 matches PipelineError::InvalidArguments { .. }),
{
    if venue_offset.unicode_len() != 6 {
        return Err(
            PipelineError::InvalidArguments { reason: String::from_str("malformed venue offset") },
        );
    }
    let sign = venue_offset.get_char(0);
    if !(sign == '+' || sign == '-') {
        return Err(
            PipelineError::InvalidArguments { reason: String::from_str("malformed venue offset") },
        );
    }
    let h_tens = match char_digit(venue_offset.get_char(1)) {
        Some(v) => v,
        None => {
            return Err(
                PipelineError::InvalidArguments {
                    reason: String::from_str("malformed venue offset"),
                },
            );
        },
    };
    let h_ones = match char_digit(venue_offset.get_char(2)) {
        Some(v) => v,
        None => {
            return Err(
                PipelineError::InvalidArguments {
                    reason: String::from_str("malformed venue offset"),
                },
            );
        },
    };
    if venue_offset.get_char(3) != ':' {
        return Err(
            PipelineError::InvalidArguments { reason: String::from_str("malformed venue offset") },
        );
    }
    let m_tens = match char_digit(venue_offset.get_char(4)) {
        Some(v) => v,
        None => {
            return Err(
                PipelineError::InvalidArguments {
                    reason: String::from_str("malformed venue offset"),
                },
            );
        },
    };
    let m_ones = match char_digit(venue_offset.get_char(5)) {
        Some(v) => v,
        None => {
            return Err(
                PipelineError::InvalidArguments {
                    reason: String::from_str("malformed venue offset"),
                },
            );
        },
    };
    let h = h_tens * 10 + h_ones;
    let m = m_tens * 10 + m_ones;
    let off_min: i64 = if sign == '-' {
        m as i64 - (h as i64) * 60
    } else {
        (h as i64) * 60 + m as i64
    };
    proof {
        assert(off_min == offset_minutes(venue_offset@));
    }
    let tod: i64 = (start_time_utc.hour as i64) * 3600 + (start_time_utc.minute as i64) * 60 + (
    start_time_utc.second as i64);
    let total: i64 = tod + off_min * 60;
    let shifted: i64 = total + 5 * 86400;
    proof {
        vstd::arithmetic::div_mod::lemma_hoist_over_denominator(total as int, 5, 86400nat);
    }
    let delta_plus5: u64 = (shifted as u64) / 86400;
    proof {
        assert(delta_plus5 == total as int / 86400 + 5);
    }
    let ghost target: int = adjusted_day_index(*start_time_utc, venue_offset@);
    let mut d: Date = start_time_utc.date;
    if delta_plus5 >= 5 {
        let steps: u64 = delta_plus5 - 5;
        let mut k: u64 = 0;
        while k < steps
            invariant
                k <= steps,
                d.valid(),
                day_index(d) == day_index(start_time_utc.date) + k,
                target == day_index(start_time_utc.date) + steps,
                target == adjusted_day_index(*start_time_utc, venue_offset@),
            decreases steps - k,
        {
            match d.next_day() {
                Some(nd) => {
                    d = nd;
                },
                None => {
                    return Err(
                        PipelineError::InvalidArguments {
                            reason: String::from_str("adjusted date is out of range"),
                        },
                    );
                },
            }
            k = k + 1;
        }
        proof {
            lemma_day_index_range(d);
        }
        Ok(d)
    } else {
        let steps: u64 = 5 - delta_plus5;
        let mut k: u64 = 0;
        while k < steps
            invariant
                k <= steps,
                d.valid(),
                day_index(d) == day_index(start_time_utc.date) - k,
                target == day_index(start_time_utc.date) - steps,
                target == adjusted_day_index(*start_time_utc, venue_offset@),
            decreases steps - k,
        {
            match d.prev_day() {
                Some(pd) => {
                    d = pd;
                },
                None => {
                    return Err(
                        PipelineError::InvalidArguments {
                            reason: String::from_str("adjusted date is out of range"),
                        },
                    );
                },
            }
            k = k + 1;
        }
        proof {
            lemma_day_index_range(d);
        }
        Ok(d)
    }
}

} // verus!
