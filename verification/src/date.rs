//! Calendar dates in the proleptic Gregorian calendar.

use chrono::Datelike;
use vstd::prelude::*;

verus! {

/// Smallest year a `Date` can hold.
pub const MIN_YEAR: i32 = -262143;

/// Largest year a `Date` can hold.
pub const MAX_YEAR: i32 = 262142;

/// Whether `year` is a leap year of the proleptic Gregorian calendar.
pub open spec fn is_leap_year(year: int) -> bool {
    (year % 4 == 0 && year % 100 != 0) || year % 400 == 0
}

/// Number of days of `month` (1 to 12) in `year`.
pub open spec fn days_in_month(year: int, month: int) -> int {
    if month == 2 {
        if is_leap_year(year) { 29 } else { 28 }
    } else if month == 4 || month == 6 || month == 9 || month == 11 {
        30
    } else {
        31
    }
}

/// Whether (`year`, `month`, `day`) names an existing day that a `Date` can hold.
pub open spec fn is_valid_ymd(year: int, month: int, day: int) -> bool {
    &&& MIN_YEAR <= year <= MAX_YEAR
    &&& 1 <= month <= 12
    &&& 1 <= day <= days_in_month(year, month)
}

/// Chronological order on (year, month, day) triples: `a` is on or before `b`.
pub open spec fn ymd_le(a: (int, int, int), b: (int, int, int)) -> bool {
    ||| a.0 < b.0
    ||| (a.0 == b.0 && a.1 < b.1)
    ||| (a.0 == b.0 && a.1 == b.1 && a.2 <= b.2)
}

/// What `chrono::NaiveDate::parse_from_str(s, "%Y-%m-%d")` gives back for the
/// text `s`: the parsed (year, month, day), or the text of the parse error.
pub uninterp spec fn chrono_parse_ymd(s: Seq<char>) -> Result<(i32, u32, u32), Seq<char>>;

/// A day of the calendar, such as 2024-01-15.
///
/// Every value names an existing day between `MIN_YEAR`-01-01 and
/// `MAX_YEAR`-12-31.
#[derive(Clone, Copy, Debug, PartialEq, Eq, Hash, PartialOrd, Ord)]
pub struct Date {
    year: i32,
    month: u32,
    day: u32,
}

impl View for Date {
    type V = (int, int, int);

    closed spec fn view(&self) -> (int, int, int) {
        (self.year as int, self.month as int, self.day as int)
    }
}

/// `chrono::NaiveDate::from_ymd_opt`, giving back the fields of the date it made.
///
/// Contract: `Some` exactly when the triple names an existing day with a year
/// in `MIN_YEAR..=MAX_YEAR` (chrono's `Mdf::new` and `from_mdf` checks), and then
/// the same triple.
#[verifier::external_body]
fn chrono_from_ymd(year: i32, month: u32, day: u32) -> (r: Option<(i32, u32, u32)>)
    ensures
        r is Some <==> is_valid_ymd(year as int, month as int, day as int),
        r matches Some(t) ==> t == (year, month, day),
{
    chrono::NaiveDate::from_ymd_opt(year, month, day).map(|d| (d.year(), d.month(), d.day()))
}

/// `chrono::NaiveDate::parse_from_str(s, "%Y-%m-%d")`, giving back the fields of
/// the parsed date or the text of chrono's error.
///
/// Contract: the result is what `chrono_parse_ymd` names for the text; a parsed
/// date is a day that `NaiveDate` can hold.
#[verifier::external_body]
fn chrono_parse_iso(s: &str) -> (r: Result<(i32, u32, u32), String>)
    ensures
        match r {
            Ok(t) => chrono_parse_ymd(s@) == Ok::<(i32, u32, u32), Seq<char>>(t)
                && is_valid_ymd(t.0 as int, t.1 as int, t.2 as int),
            Err(m) => chrono_parse_ymd(s@) == Err::<(i32, u32, u32), Seq<char>>(m@),
        },
{
    match chrono::NaiveDate::parse_from_str(s, "%Y-%m-%d") {
        Ok(d) => Ok((d.year(), d.month(), d.day())),
        Err(e) => Err(e.to_string()),
    }
}

impl Date {
    #[verifier::type_invariant]
    closed spec fn is_real_day(self) -> bool {
        is_valid_ymd(self.year as int, self.month as int, self.day as int)
    }

    /// The date `year`-`month`-`day`, or `None` where no such day exists or the
    /// year is out of range.
    pub fn from_ymd_opt(year: i32, month: u32, day: u32) -> (r: Option<Date>)
        ensures
            r is Some <==> is_valid_ymd(year as int, month as int, day as int),
            r matches Some(d) ==> d@ == (year as int, month as int, day as int),
    {
        match chrono_from_ymd(year, month, day) {
            Some(t) => Some(Date { year: t.0, month: t.1, day: t.2 }),
            None => None,
        }
    }

    /// The year.
    pub fn year(&self) -> (r: i32)
        ensures
            r as int == self@.0,
    {
        self.year
    }

    /// The month, from 1 to 12.
    pub fn month(&self) -> (r: u32)
        ensures
            r as int == self@.1,
    {
        self.month
    }

    /// The day of the month, from 1.
    pub fn day(&self) -> (r: u32)
        ensures
            r as int == self@.2,
    {
        self.day
    }

    /// Whether `self` is on or before `other`.
    pub fn is_on_or_before(&self, other: &Date) -> (r: bool)
        ensures
            r == ymd_le(self@, other@),
    {
        self.year < other.year || (self.year == other.year && (self.month < other.month || (
        self.month == other.month && self.day <= other.day)))
    }

    /// Whether `self` and `other` are the same day.
    pub fn same_day(&self, other: &Date) -> (r: bool)
        ensures
            r == (self@ == other@),
    {
        self.year == other.year && self.month == other.month && self.day == other.day
    }
}

/// Parses a date written as `YYYY-MM-DD`, as chrono's `%Y-%m-%d` format reads it.
///
/// Gives the date, or the text of the parse error.
pub fn parse_date(s: &str) -> (r: Result<Date, String>)
    ensures
        match r {
            Ok(d) => chrono_parse_ymd(s@) matches Ok(t) && d@ == (t.0 as int, t.1 as int, t.2 as int),
            Err(m) => chrono_parse_ymd(s@) == Err::<(i32, u32, u32), Seq<char>>(m@),
        },
{
    match chrono_parse_iso(s) {
        Ok(t) => Ok(Date { year: t.0, month: t.1, day: t.2 }),
        Err(m) => Err(m),
    }
}

/// The date order is a total order: any two dates are ordered one way or the
/// other, and both ways only when they are the same day.
pub proof fn lemma_date_order_total(a: Date, b: Date)
    ensures
        ymd_le(a@, b@) || ymd_le(b@, a@),
        ymd_le(a@, b@) && ymd_le(b@, a@) ==> a@ == b@,
{
}

} // verus!
