//! Calendar dates without a time of day.
//!
//! A [`Date`] holds year, month and day as plain numbers, so that the ledger
//! can compare and test them. Reading a date from text, writing it as text
//! and stepping through the calendar are done by the `chrono` crate; the
//! functions that call it are marked as trusted below.

use vstd::prelude::*;
use vstd::string::*;
use chrono::Datelike;

verus! {

/// The first year that a date can have.
pub const MIN_YEAR: i32 = -262143;

/// The last year that a date can have.
pub const MAX_YEAR: i32 = 262142;

/// Whether `year` is a leap year of the proleptic Gregorian calendar.
pub open spec fn is_leap_year(year: int) -> bool {
    year % 4 == 0 && (year % 100 != 0 || year % 400 == 0)
}

/// The number of days of the given month; zero for a month that does not exist.
pub open spec fn days_in_month(year: int, month: int) -> int {
    if month == 2 {
        if is_leap_year(year) {
            29
        } else {
            28
        }
    } else if month == 4 || month == 6 || month == 9 || month == 11 {
        30
    } else if 1 <= month <= 12 {
        31
    } else {
        0
    }
}

/// Whether the three numbers are a day of the calendar, in a year that a
/// date can have.
pub open spec fn is_calendar_day(year: int, month: int, day: int) -> bool {
    &&& MIN_YEAR <= year <= MAX_YEAR
    &&& 1 <= month <= 12
    &&& 1 <= day <= days_in_month(year, month)
}

/// The year, month and day that `chrono` reads from `text` under the format
/// `%Y-%m-%d`, or `None` where it refuses the text.
pub uninterp spec fn chrono_parsed_ymd(text: Seq<char>) -> Option<(int, int, int)>;

/// The text that `chrono` writes for a calendar day under the format `%Y-%m-%d`.
pub uninterp spec fn chrono_formatted_ymd(year: int, month: int, day: int) -> Seq<char>;

/// The error of `chrono` for a text that it cannot read (`chrono::ParseError`).
/// Nothing is said of what it holds; [`Date::parse`] turns it into `None`.
#[verifier::external_type_specification]
#[verifier::external_body]
pub struct ExParseError(chrono::ParseError);

/// A day of the calendar.
#[derive(Debug, Clone, Copy, PartialEq, Eq, Structural, PartialOrd, Ord, Hash)]
pub struct Date {
    pub year: i32,
    pub month: u32,
    pub day: u32,
}

impl Date {
    /// Whether the date exists in the calendar.
    pub open spec fn is_valid(self) -> bool {
        is_calendar_day(self.year as int, self.month as int, self.day as int)
    }

    /// A number that orders dates as the calendar does: first by year, then
    /// by month, then by day.
    pub open spec fn key(self) -> int {
        (self.year as int * 0x1_0000_0000 + self.month as int) * 0x1_0000_0000 + self.day as int
    }

    /// The date made of three numbers.
    pub open spec fn of(ymd: (int, int, int)) -> Date {
        Date { year: ymd.0 as i32, month: ymd.1 as u32, day: ymd.2 as u32 }
    }

    /// The date that a text of the form `YYYY-MM-DD` holds.
    pub open spec fn parsed(text: Seq<char>) -> Option<Date> {
        match chrono_parsed_ymd(text) {
            Some(ymd) => Some(Date::of(ymd)),
            None => None,
        }
    }

    /// The text of the date in the form `YYYY-MM-DD`.
    pub open spec fn text(self) -> Seq<char> {
        chrono_formatted_ymd(self.year as int, self.month as int, self.day as int)
    }

    /// The date of the given numbers, if they are a day of the calendar.
    pub open spec fn checked(year: int, month: int, day: int) -> Option<Date> {
        if is_calendar_day(year, month, day) {
            Some(Date::of((year, month, day)))
        } else {
            None
        }
    }

    /// The day before this one, if the calendar of dates holds it.
    pub open spec fn day_before(self) -> Option<Date> {
        if self.day > 1 {
            Some(Date { day: (self.day - 1) as u32, ..self })
        } else if self.month > 1 {
            Some(
                Date {
                    month: (self.month - 1) as u32,
                    day: days_in_month(self.year as int, self.month - 1) as u32,
                    ..self
                },
            )
        } else if self.year > MIN_YEAR {
            Some(Date { year: (self.year - 1) as i32, month: 12, day: 31 })
        } else {
            None
        }
    }

    /// The first day of the month after the one of this date, if a date can
    /// have it.
    pub open spec fn next_month_start(self) -> Option<Date> {
        if self.month == 12 {
            Date::checked(self.year + 1, 1, 1)
        } else {
            Date::checked(self.year as int, self.month + 1, 1)
        }
    }

    /// The last day of the month of this date. It is found as the day before
    /// the first day of the next month, and so is missing for the last month
    /// of the last year.
    pub open spec fn month_end(self) -> Option<Date> {
        match self.next_month_start() {
            Some(next) => next.day_before(),
            None => None,
        }
    }

    /// Whether this date is earlier than `other`.
    pub fn is_before(&self, other: &Date) -> (b: bool)
        ensures
            b == (self.key() < other.key()),
    {
        self.year < other.year || (self.year == other.year && (self.month < other.month || (
        self.month == other.month && self.day < other.day)))
    }

    /// Whether this date is later than `other`.
    pub fn is_after(&self, other: &Date) -> (b: bool)
        ensures
            b == (self.key() > other.key()),
    {
        other.is_before(self)
    }

    /// Reads a date of the form `YYYY-MM-DD`.
    pub fn parse(text: &str) -> (r: Option<Date>)
        ensures
            r == Date::parsed(text@),
            r matches Some(date) ==> date.is_valid(),
    {
        match parse_ymd(text) {
            Ok(date) => Some(date),
            Err(_) => None,
        }
    }

    /// Writes the date in the form `YYYY-MM-DD`.
    pub fn to_text(&self) -> (r: String)
        requires
            self.is_valid(),
        ensures
            r@ == self.text(),
    {
        format_ymd(*self)
    }

    /// The date of the given year, month and day, if the calendar holds it.
    pub fn from_ymd(year: i32, month: u32, day: u32) -> (r: Option<Date>)
        ensures
            r == Date::checked(year as int, month as int, day as int),
    {
        checked_ymd(year, month, day)
    }

    /// The last day of the month of this date; `None` for the last month of
    /// the last year that a date can have.
    pub fn last_of_month(&self) -> (r: Option<Date>)
        requires
            self.is_valid(),
        ensures
            r == self.month_end(),
            r matches Some(end) ==> end == (Date {
                day: days_in_month(self.year as int, self.month as int) as u32,
                ..*self
            }) && end.is_valid(),
            r is None <==> self.year == MAX_YEAR && self.month == 12,
    {
        let next = if self.month == 12 {
            if self.year == i32::MAX {
                return None;
            }
            checked_ymd(self.year + 1, 1, 1)
        } else {
            checked_ymd(self.year, self.month + 1, 1)
        };
        match next {
            Some(first) => previous_day(first),
            None => None,
        }
    }
}

/// Reads a date with `chrono::NaiveDate::parse_from_str` under the format
/// `%Y-%m-%d` and takes its year, month and day. Trusted: the outcome is the
/// one that [`chrono_parsed_ymd`] names, and a date that `chrono` hands out
/// is a day of the calendar.
#[verifier::external_body]
fn parse_ymd(text: &str) -> (r: Result<Date, chrono::ParseError>)
    ensures
        match r {
            Ok(date) => chrono_parsed_ymd(text@) == Some(
                (date.year as int, date.month as int, date.day as int),
            ) && date.is_valid(),
            Err(_) => chrono_parsed_ymd(text@) is None,
        },
{
    match chrono::NaiveDate::parse_from_str(text, "%Y-%m-%d") {
        Ok(d) => Ok(Date { year: d.year(), month: d.month(), day: d.day() }),
        Err(e) => Err(e),
    }
}

/// Writes a date with `chrono::NaiveDate::format` under the format
/// `%Y-%m-%d`. Trusted: the text is the one that [`chrono_formatted_ymd`]
/// names.
#[verifier::external_body]
fn format_ymd(date: Date) -> (r: String)
    requires
        date.is_valid(),
    ensures
        r@ == chrono_formatted_ymd(date.year as int, date.month as int, date.day as int),
{
    match chrono::NaiveDate::from_ymd_opt(date.year, date.month, date.day) {
        Some(d) => d.format("%Y-%m-%d").to_string(),
        None => String::new(),
    }
}

/// Asks `chrono::NaiveDate::from_ymd_opt` for the date of three numbers.
/// Trusted: it answers with the date exactly where the numbers are a day of
/// the calendar in a year from [`MIN_YEAR`] to [`MAX_YEAR`].
#[verifier::external_body]
fn checked_ymd(year: i32, month: u32, day: u32) -> (r: Option<Date>)
    ensures
        r == Date::checked(year as int, month as int, day as int),
{
    match chrono::NaiveDate::from_ymd_opt(year, month, day) {
        Some(d) => Some(Date { year: d.year(), month: d.month(), day: d.day() }),
        None => None,
    }
}

/// Asks `chrono::NaiveDate::pred_opt` for the day before `date`. Trusted: it
/// answers with the previous day of the calendar, and with `None` only for
/// the first day of [`MIN_YEAR`].
#[verifier::external_body]
fn previous_day(date: Date) -> (r: Option<Date>)
    requires
        date.is_valid(),
    ensures
        r == date.day_before(),
{
    match chrono::NaiveDate::from_ymd_opt(date.year, date.month, date.day) {
        Some(d) => match d.pred_opt() {
            Some(p) => Some(Date { year: p.year(), month: p.month(), day: p.day() }),
            None => None,
        },
        None => None,
    }
}

/// The calendar order of dates: the key compares as year, month and day do
/// in turn, and two dates with one key are one date.
pub proof fn lemma_date_key_order(a: Date, b: Date)
    ensures
        a.key() == b.key() <==> a == b,
        a.key() < b.key() <==> (a.year < b.year || (a.year == b.year && (a.month < b.month || (
        a.month == b.month && a.day < b.day)))),
{
}

} // verus!
