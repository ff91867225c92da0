//! Calendar dates in the proleptic Gregorian calendar, as plain values, and
//! the calendar arithmetic that chrono performs on them.

use vstd::prelude::*;
use chrono::Datelike;

verus! {

/// The smallest year that a chrono date can hold.
pub const FIRST_YEAR: i32 = -262143;

/// The largest year that a chrono date can hold.
pub const LAST_YEAR: i32 = 262142;

/// A day of the calendar: year, month (1 to 12) and day of the month.
#[derive(Clone, Copy, Debug, PartialEq, Eq, Structural)]
pub struct Date {
    pub year: i32,
    pub month: u32,
    pub day: u32,
}

pub open spec fn is_leap_year(year: int) -> bool {
    year % 4 == 0 && (year % 100 != 0 || year % 400 == 0)
}

pub open spec fn days_in_month(year: int, month: int) -> int {
    if month == 2 {
        if is_leap_year(year) { 29 } else { 28 }
    } else if month == 4 || month == 6 || month == 9 || month == 11 {
        30
    } else {
        31
    }
}

/// The year lies in the range that chrono's dates cover.
pub open spec fn year_in_range(year: int) -> bool {
    FIRST_YEAR <= year <= LAST_YEAR
}

/// Year, month and day name an existing day within chrono's range.
pub open spec fn valid_ymd(year: int, month: int, day: int) -> bool {
    &&& year_in_range(year)
    &&& 1 <= month <= 12
    &&& 1 <= day <= days_in_month(year, month)
}

impl Date {
    pub open spec fn wf(self) -> bool {
        valid_ymd(self.year as int, self.month as int, self.day as int)
    }
}

/// `a` is an earlier day than `b`.
pub open spec fn date_before(a: Date, b: Date) -> bool {
    a.year < b.year || (a.year == b.year && (a.month < b.month || (a.month == b.month && a.day
        < b.day)))
}

/// The date that has the same month and day as `d`, in `year`, where it exists.
pub open spec fn date_with_year(d: Date, year: int) -> Option<Date> {
    if valid_ymd(year, d.month as int, d.day as int) {
        Some(Date { year: year as i32, month: d.month, day: d.day })
    } else {
        None
    }
}

/// Months counted from January of year zero.
pub open spec fn month_number(d: Date) -> int {
    d.year * 12 + d.month - 1
}

/// `months` calendar months before `d`; a day past the end of the target month
/// becomes its last day.
pub open spec fn date_months_before(d: Date, months: int) -> Option<Date> {
    let n = month_number(d) - months;
    let year = n / 12;
    let month = n % 12 + 1;
    let last = days_in_month(year, month);
    let day = if d.day > last { last } else { d.day as int };
    if year_in_range(year) {
        Some(Date { year: year as i32, month: month as u32, day: day as u32 })
    } else {
        None
    }
}

/// What chrono's `NaiveDate::parse_from_str(s, "%Y-%m-%d")` reads from `s`.
pub uninterp spec fn ymd_parse(s: Seq<char>) -> Option<Date>;

/// Relies on chrono's `Datelike::with_year` for `NaiveDate`: the same month and
/// day in another year, or `None` where that day does not exist or lies out of
/// chrono's range.
#[verifier::external_body]
fn chrono_with_year(d: Date, year: i32) -> (r: Option<Date>)
    requires
        d.wf(),
    ensures
        r == date_with_year(d, year as int),
{
    let n = chrono::NaiveDate::from_ymd_opt(d.year, d.month, d.day).unwrap();
    n.with_year(year).map(|v| Date { year: v.year(), month: v.month(), day: v.day() })
}

/// Relies on chrono's `NaiveDate::checked_sub_months`: calendar months back,
/// the day clamped to the target month's length, `None` out of range.
#[verifier::external_body]
fn chrono_sub_months(d: Date, months: u32) -> (r: Option<Date>)
    requires
        d.wf(),
    ensures
        r == date_months_before(d, months as int),
{
    let n = chrono::NaiveDate::from_ymd_opt(d.year, d.month, d.day).unwrap();
    n.checked_sub_months(chrono::Months::new(months)).map(
        |v| Date { year: v.year(), month: v.month(), day: v.day() },
    )
}

/// Relies on chrono's `NaiveDate::parse_from_str` with the format `%Y-%m-%d`;
/// what it returns is always an existing day.
#[verifier::external_body]
pub(crate) fn chrono_parse_ymd(s: &str) -> (r: Option<Date>)
    ensures
        r == ymd_parse(s@),
        r is Some ==> r->0.wf(),
{
    match chrono::NaiveDate::parse_from_str(s, "%Y-%m-%d") {
        Ok(v) => Some(Date { year: v.year(), month: v.month(), day: v.day() }),
        Err(_) => None,
    }
}

impl Date {
    /// Whether this day comes before `other`.
    pub fn is_before(&self, other: &Date) -> (r: bool)
        ensures
            r == date_before(*self, *other),
    {
        self.year < other.year || (self.year == other.year && (self.month < other.month || (
        self.month == other.month && self.day < other.day)))
    }

    /// The same day `years` years earlier; the day itself where that day does
    /// not exist (29 February in a common year) or lies out of range.
    pub fn years_before(&self, years: u32) -> (r: Date)
        requires
            self.wf(),
        ensures
            r == match date_with_year(*self, self.year - years) {
                Some(d) => d,
                None => *self,
            },
            r.wf(),
    {
        let target: i64 = self.year as i64 - years as i64;
        if target < FIRST_YEAR as i64 {
            *self
        } else {
            match chrono_with_year(*self, target as i32) {
                Some(d) => d,
                None => *self,
            }
        }
    }

    /// The day `months` calendar months earlier, or `None` where that lies
    /// before the first day chrono can hold.
    pub fn months_before(&self, months: u32) -> (r: Option<Date>)
        requires
            self.wf(),
        ensures
            r == date_months_before(*self, months as int),
    {
        chrono_sub_months(*self, months)
    }
}

} // verus!
