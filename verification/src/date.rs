//! Calendar dates and the month arithmetic behind the final payment date.
//!
//! A [`Date`] holds a proleptic Gregorian calendar date as plain year, month
//! and day fields. Adding a number of months keeps the day of the month and
//! clamps it to the length of the target month when needed, and a date is
//! rendered as the ten-character `YYYY-MM-DD` form.

use vstd::prelude::*;
use vstd::string::StringExecFns;

use chrono::Datelike;

verus! {

/// The largest year a [`Date`] may hold, so that it always renders as four digits.
pub const MAX_YEAR: u16 = 9999;

/// A calendar date: year, month and day as plain values.
#[derive(Debug, Clone, Copy, PartialEq, Eq, Structural)]
pub struct Date {
    pub year: u16,
    pub month: u8,
    pub day: u8,
}

/// Whether `year` is a leap year in the Gregorian calendar.
pub open spec fn is_leap_year(year: int) -> bool {
    (year % 4 == 0 && year % 100 != 0) || year % 400 == 0
}

/// The number of days of month `month` of year `year`.
pub open spec fn spec_days_in_month(year: int, month: int) -> int {
    if month == 2 {
        if is_leap_year(year) { 29 } else { 28 }
    } else if month == 4 || month == 6 || month == 9 || month == 11 {
        30
    } else {
        31
    }
}

impl Date {
    /// A well-formed date: the month and day exist in the given year.
    pub open spec fn wf(self) -> bool {
        &&& 1 <= self.month <= 12
        &&& 1 <= self.day <= spec_days_in_month(self.year as int, self.month as int)
        &&& self.year <= MAX_YEAR
    }

    /// Builds a date after validating the fields, `None` when they name no real date.
    pub fn new(year: u16, month: u8, day: u8) -> (r: Option<Date>)
        ensures
            r is Some <==> (1 <= month <= 12 && 1 <= day
                <= spec_days_in_month(year as int, month as int) && year <= MAX_YEAR),
            r matches Some(d) ==> d == (Date { year, month, day }) && d.wf(),
    {
        if 1 <= month && month <= 12 && year <= MAX_YEAR && 1 <= day
            && day <= days_in_month(year, month) {
            Some(Date { year, month, day })
        } else {
            None
        }
    }
}

/// The number of days of month `month` of year `year`.
pub fn days_in_month(year: u16, month: u8) -> (r: u8)
    requires
        1 <= month <= 12,
    ensures
        r == spec_days_in_month(year as int, month as int),
{
    if month == 2 {
        if (year % 4 == 0 && year % 100 != 0) || year % 400 == 0 { 29 } else { 28 }
    } else if month == 4 || month == 6 || month == 9 || month == 11 {
        30
    } else {
        31
    }
}

/// The date `months` months after `d`: the day of the month is kept and
/// clamped to the length of the target month.
pub open spec fn spec_add_months(d: Date, months: int) -> Date {
    let total = d.month - 1 + months;
    let year = d.year + total / 12;
    let month = total % 12 + 1;
    let day = if d.day <= spec_days_in_month(year, month) {
        d.day as int
    } else {
        spec_days_in_month(year, month)
    };
    Date { year: year as u16, month: month as u8, day: day as u8 }
}

impl Date {
    /// Adds `months` calendar months, clamping the day to the target month.
    pub fn add_months(self, months: u8) -> (r: Date)
        requires
            self.wf(),
            self.year + (self.month - 1 + months) / 12 <= MAX_YEAR,
        ensures
            r == spec_add_months(self, months as int),
            r.wf(),
    {
        let total: u32 = (self.month - 1) as u32 + months as u32;
        let year: u16 = self.year + (total / 12) as u16;
        let month: u8 = (total % 12) as u8 + 1;
        let cap: u8 = days_in_month(year, month);
        let day: u8 = if self.day <= cap { self.day } else { cap };
        Date { year, month, day }
    }
}

/// The decimal digit character of `d`.
pub open spec fn spec_digit(d: int) -> char {
    if d == 0 {
        '0'
    } else if d == 1 {
        '1'
    } else if d == 2 {
        '2'
    } else if d == 3 {
        '3'
    } else if d == 4 {
        '4'
    } else if d == 5 {
        '5'
    } else if d == 6 {
        '6'
    } else if d == 7 {
        '7'
    } else if d == 8 {
        '8'
    } else {
        '9'
    }
}

/// The ten-character `YYYY-MM-DD` rendering of a date: a four-digit year,
/// then a two-digit month and day, zero-padded, separated by hyphens.
pub open spec fn spec_ymd(d: Date) -> Seq<char> {
    seq![
        spec_digit(d.year as int / 1000),
        spec_digit((d.year as int / 100) % 10),
        spec_digit((d.year as int / 10) % 10),
        spec_digit(d.year as int % 10),
        '-',
        spec_digit(d.month as int / 10),
        spec_digit(d.month as int % 10),
        '-',
        spec_digit(d.day as int / 10),
        spec_digit(d.day as int % 10),
    ]
}

/// The one-character decimal rendering of a digit.
fn digit_str(d: u8) -> (r: &'static str)
    requires
        d <= 9,
    ensures
        r@ =~= seq![spec_digit(d as int)],
{
    proof {
        reveal_strlit("0");
        reveal_strlit("1");
        reveal_strlit("2");
        reveal_strlit("3");
        reveal_strlit("4");
        reveal_strlit("5");
        reveal_strlit("6");
        reveal_strlit("7");
        reveal_strlit("8");
        reveal_strlit("9");
    }
    match d {
        0 => "0",
        1 => "1",
        2 => "2",
        3 => "3",
        4 => "4",
        5 => "5",
        6 => "6",
        7 => "7",
        8 => "8",
        _ => "9",
    }
}

/// Renders a date as `YYYY-MM-DD`.
pub fn ymd_string(d: Date) -> (r: String)
    requires
        d.wf(),
    ensures
        r@ == spec_ymd(d),
{
    proof {
        reveal_strlit("-");
    }
    let mut out: String = String::new();
    out.append(digit_str((d.year / 1000) as u8));
    out.append(digit_str(((d.year / 100) % 10) as u8));
    out.append(digit_str(((d.year / 10) % 10) as u8));
    out.append(digit_str((d.year % 10) as u8));
    out.append("-");
    out.append(digit_str(d.month / 10));
    out.append(digit_str(d.month % 10));
    out.append("-");
    out.append(digit_str(d.day / 10));
    out.append(digit_str(d.day % 10));
    proof {
        assert(out@ =~= spec_ymd(d));
    }
    out
}

/// Relies on chrono's `Utc::now` and the `Datelike` accessors: whatever
/// instant the clock reports, the month lies in 1..=12 and the day in 1..=31.
#[verifier::external_body]
fn today_ymd_utc() -> (r: (i64, u8, u8))
    ensures
        1 <= r.1 <= 12,
        1 <= r.2 <= 31,
{
    let now = chrono::Utc::now();
    (now.year() as i64, now.month() as u8, now.day() as u8)
}

/// The current UTC date, `None` when the clock reports an instant that does
/// not fit a [`Date`].
pub fn current_date() -> (r: Option<Date>)
    ensures
        r matches Some(d) ==> d.wf(),
{
    let (y, m, d) = today_ymd_utc();
    if 0 <= y && y <= MAX_YEAR as i64 {
        Date::new(y as u16, m, d)
    } else {
        None
    }
}

} // verus!
