//! The calendar date of a run.
use vstd::prelude::*;
use chrono::Datelike;
use crate::error::Error;

verus! {

/// The smallest and largest years of a chrono `NaiveDate`.
pub const MIN_YEAR: i32 = -262143;
pub const MAX_YEAR: i32 = 262142;

/// The pattern of an ISO 8601 calendar date, as in `2020-09-04`.
pub const ISO_PATTERN: &'static str = "%Y-%m-%d";
/// The pattern of a long human-readable date, as in `4 Sep 2020`.
pub const LONG_PATTERN: &'static str = "%-e %b %Y";

/// Leap years of the proleptic Gregorian calendar.
pub open spec fn is_leap_year(year: int) -> bool {
    (year % 4 == 0 && year % 100 != 0) || year % 400 == 0
}

/// The number of days of a month of a year.
pub open spec fn days_in_month(year: int, month: int) -> int {
    if month == 2 {
        if is_leap_year(year) { 29 } else { 28 }
    } else if month == 4 || month == 6 || month == 9 || month == 11 {
        30
    } else {
        31
    }
}

/// The year, month and day form a date that chrono can hold.
pub open spec fn is_valid_date(year: int, month: int, day: int) -> bool {
    &&& MIN_YEAR <= year <= MAX_YEAR
    &&& 1 <= month <= 12
    &&& 1 <= day <= days_in_month(year, month)
}

/// What chrono's `NaiveDate::format(pattern)` writes for a date.
pub uninterp spec fn date_text(pattern: Seq<char>, year: int, month: int, day: int) -> Seq<char>;

/// What chrono's `NaiveDate::parse_from_str(s, pattern)` gives: the year,
/// month and day of the date read, or none where it fails.
pub uninterp spec fn parsed_date(s: Seq<char>, pattern: Seq<char>) -> Option<(int, int, int)>;

/// Relies on chrono's `NaiveDate::parse_from_str`: its result depends on the
/// string and the pattern alone, and a parsed value is a `NaiveDate`, so a
/// valid calendar date within chrono's range of years. A failure is passed on
/// as its description.
#[verifier::external_body]
fn parse_ymd(s: &str, pattern: &str) -> (r: Result<(i32, u32, u32), String>)
    ensures
        r is Ok <==> parsed_date(s@, pattern@) is Some,
        r matches Ok((y, m, d)) ==> parsed_date(s@, pattern@) == Some((y as int, m as int, d as int)),
        r matches Ok((y, m, d)) ==> is_valid_date(y as int, m as int, d as int),
{
    match chrono::NaiveDate::parse_from_str(s, pattern) {
        Ok(d) => Ok((d.year(), d.month(), d.day())),
        Err(e) => Err(e.to_string()),
    }
}

/// Relies on chrono's `NaiveDate::format` and its `Display`: the date written
/// after the pattern. Both patterns name date fields only, so writing does not
/// fail.
#[verifier::external_body]
fn format_ymd(year: i32, month: u32, day: u32, pattern: &str) -> (r: String)
    requires
        is_valid_date(year as int, month as int, day as int),
        pattern@ == ISO_PATTERN@ || pattern@ == LONG_PATTERN@,
    ensures
        r@ == date_text(pattern@, year as int, month as int, day as int),
{
    match chrono::NaiveDate::from_ymd_opt(year, month, day) {
        Some(d) => d.format(pattern).to_string(),
        None => String::new(),
    }
}

/// A valid calendar date.
#[derive(Debug, Clone, Copy, PartialEq, Eq)]
pub struct Date {
    year: i32,
    month: u32,
    day: u32,
}

impl Date {
    #[verifier::type_invariant]
    spec fn valid(self) -> bool {
        is_valid_date(self.year as int, self.month as int, self.day as int)
    }

    /// The year.
    pub closed spec fn year_spec(self) -> int {
        self.year as int
    }

    /// The month, from 1 to 12.
    pub closed spec fn month_spec(self) -> int {
        self.month as int
    }

    /// The day of the month, from 1.
    pub closed spec fn day_spec(self) -> int {
        self.day as int
    }

    /// The date with the given year, month and day, where they form one.
    pub fn new(year: i32, month: u32, day: u32) -> (r: Option<Date>)
        ensures
            r is Some <==> is_valid_date(year as int, month as int, day as int),
            r matches Some(d) ==> d.year_spec() == year && d.month_spec() == month
                && d.day_spec() == day,
    {
        if year < MIN_YEAR || year > MAX_YEAR || month < 1 || month > 12 || day < 1 {
            return None;
        }
        let leap = (year % 4 == 0 && year % 100 != 0) || year % 400 == 0;
        let days: u32 = if month == 2 {
            if leap { 29 } else { 28 }
        } else if month == 4 || month == 6 || month == 9 || month == 11 {
            30
        } else {
            31
        };
        if day > days {
            return None;
        }
        Some(Date { year, month, day })
    }

    /// Reads an ISO 8601 calendar date (`%Y-%m-%d`) as chrono reads it;
    /// anything chrono does not read is a date error.
    pub fn parse(s: &str) -> (r: Result<Date, Error>)
        ensures
            r is Ok <==> parsed_date(s@, ISO_PATTERN@) is Some,
            r matches Ok(d) ==> parsed_date(s@, ISO_PATTERN@) == Some(
                (d.year_spec(), d.month_spec(), d.day_spec()),
            ),
            r matches Ok(d) ==> is_valid_date(d.year_spec(), d.month_spec(), d.day_spec()),
            r matches Err(e) ==> e is Date,
    {
        match parse_ymd(s, ISO_PATTERN) {
            Ok((year, month, day)) => Ok(Date { year, month, day }),
            Err(e) => Err(Error::Date(e)),
        }
    }

    /// The year.
    pub fn year(&self) -> (r: i32)
        ensures
            r == self.year_spec(),
    {
        self.year
    }

    /// The month, from 1 to 12.
    pub fn month(&self) -> (r: u32)
        ensures
            r == self.month_spec(),
    {
        self.month
    }

    /// The day of the month, from 1.
    pub fn day(&self) -> (r: u32)
        ensures
            r == self.day_spec(),
    {
        self.day
    }

    /// The date in ISO 8601 form, as chrono writes `%Y-%m-%d`.
    pub fn iso(&self) -> (r: String)
        ensures
            r@ == date_text(ISO_PATTERN@, self.year_spec(), self.month_spec(), self.day_spec()),
    {
        proof {
            use_type_invariant(self);
        }
        format_ymd(self.year, self.month, self.day, ISO_PATTERN)
    }

    /// The date in long form, as chrono writes `%-e %b %Y`.
    pub fn human(&self) -> (r: String)
        ensures
            r@ == date_text(LONG_PATTERN@, self.year_spec(), self.month_spec(), self.day_spec()),
    {
        proof {
            use_type_invariant(self);
        }
        format_ymd(self.year, self.month, self.day, LONG_PATTERN)
    }
}

} // verus!
