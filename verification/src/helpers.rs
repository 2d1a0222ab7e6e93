//! Rounding, running balances and the dates that bound a report.

use vstd::prelude::*;
use vstd::string::*;
use crate::amount::rounded_to_cents;
use crate::date::Date;
use crate::error::CodexiError;
use crate::operation::Operation;
use crate::operation_flow::OperationFlow;
use crate::text::{chars_of, decimal_i32, parse_i32};

verus! {

/// Rounds a signed amount to hundredths; a value halfway between two
/// hundredths goes to the one further from zero.
pub fn round_to_2_dec(value: i64) -> (r: i64)
    ensures
        r == rounded_to_cents(value as int),
{
    if value >= 0 {
        let m: u64 = value as u64;
        let q: u64 = m / 100;
        let rest: u64 = m % 100;
        if rest >= 50 {
            ((q + 1) * 100) as i64
        } else {
            (q * 100) as i64
        }
    } else {
        let m: u64 = ((-(value + 1)) as u64) + 1;
        let q: u64 = m / 100;
        let rest: u64 = m % 100;
        if rest >= 50 {
            -(((q + 1) * 100) as i64)
        } else {
            -((q * 100) as i64)
        }
    }
}

/// The balance after `op` has been applied to the balance `cur_bal`: a
/// credit adds its amount, a debit takes it away, and the neutral flow
/// changes nothing. The only failure is a result outside the range of
/// balances.
pub fn calculate_new_balance(cur_bal: i64, op: &Operation) -> (r: Result<i64, CodexiError>)
    ensures
        match r {
            Ok(balance) => balance == cur_bal + op.signed_amount(),
            Err(e) => e == CodexiError::AmountOverflow && !(i64::MIN <= cur_bal
                + op.signed_amount() <= i64::MAX),
        },
{
    let next: i128 = match op.flow {
        OperationFlow::Credit => cur_bal as i128 + op.amount as i128,
        OperationFlow::Debit => cur_bal as i128 - op.amount as i128,
        OperationFlow::Neutral => cur_bal as i128,
    };
    if next < i64::MIN as i128 || next > i64::MAX as i128 {
        Err(CodexiError::AmountOverflow)
    } else {
        Ok(next as i64)
    }
}

/// The first and the last day of the month that a text of the form
/// `YYYY-MM` names: the text is read as a date once `-01` is put behind it.
pub open spec fn month_range(text: Seq<char>) -> Option<(Date, Date)> {
    match Date::parsed(text + "-01"@) {
        Some(start) => match start.month_end() {
            Some(end) => Some((start, end)),
            None => None,
        },
        None => None,
    }
}

/// The first or the last day of the year that a text holding an integer
/// names, if a date can have that year.
pub open spec fn year_bound(text: Seq<char>, is_start_date: bool) -> Option<Date> {
    match decimal_i32(text) {
        Some(year) => if is_start_date {
            Date::checked(year as int, 1, 1)
        } else {
            Date::checked(year as int, 12, 31)
        },
        None => None,
    }
}

/// The date that bounds a report, chosen among the three readings of a text
/// in this order: the day it names; else the first or last day of the month
/// it names; else the first or last day of the year it names.
pub open spec fn resolved_bound(
    day: Option<Date>,
    month: Option<(Date, Date)>,
    year_day: Option<Date>,
    is_start_date: bool,
) -> Option<Date> {
    match day {
        Some(date) => Some(date),
        None => match month {
            Some((start, end)) => Some(
                if is_start_date {
                    start
                } else {
                    end
                },
            ),
            None => year_day,
        },
    }
}

/// The date at which a report starts or ends, for a text that names a day
/// (`YYYY-MM-DD`), a month (`YYYY-MM`) or a year (`YYYY`).
pub open spec fn flexible_date(text: Seq<char>, is_start_date: bool) -> Option<Date> {
    resolved_bound(
        Date::parsed(text),
        month_range(text),
        year_bound(text, is_start_date),
        is_start_date,
    )
}

/// Chooses the bound of a report among the readings of its text; see
/// [`resolved_bound`]. A text with no reading is an invalid date.
pub fn resolve_bound(
    day: Option<Date>,
    month: Option<(Date, Date)>,
    year_day: Option<Date>,
    is_start_date: bool,
) -> (r: Result<Date, CodexiError>)
    ensures
        match r {
            Ok(date) => resolved_bound(day, month, year_day, is_start_date) == Some(date),
            Err(e) => resolved_bound(day, month, year_day, is_start_date) is None && e
                == CodexiError::InvalidDate,
        },
{
    if let Some(date) = day {
        return Ok(date);
    }
    if let Some((start, end)) = month {
        return Ok(
            if is_start_date {
                start
            } else {
                end
            },
        );
    }
    match year_day {
        Some(date) => Ok(date),
        None => Err(CodexiError::InvalidDate),
    }
}

/// Reads the bound of a report from a text that names a day, a month or a
/// year. A month or a year stands for its first day where the bound starts
/// the report, and for its last day where it ends it.
pub fn parse_flexible_date_range(date_str: &str, is_start_date: bool) -> (r: Result<
    Date,
    CodexiError,
>)
    ensures
        match r {
            Ok(date) => flexible_date(date_str@, is_start_date) == Some(date) && date.is_valid(),
            Err(e) => flexible_date(date_str@, is_start_date) is None && e
                == CodexiError::InvalidDate,
        },
{
    let day = Date::parse(date_str);
    let month = match month_bounds(date_str) {
        Ok(bounds) => Some(bounds),
        Err(_) => None,
    };
    let chars = chars_of(date_str);
    assert(chars@.subrange(0, chars@.len() as int) =~= chars@);
    let year_day = match parse_i32(&chars, 0, chars.len()) {
        Some(year) => if is_start_date {
            Date::from_ymd(year, 1, 1)
        } else {
            Date::from_ymd(year, 12, 31)
        },
        None => None,
    };
    resolve_bound(day, month, year_day, is_start_date)
}

/// The first and the last day of the month that a text of the form
/// `YYYY-MM` names.
pub fn month_bounds(month_str: &str) -> (r: Result<(Date, Date), CodexiError>)
    ensures
        match r {
            Ok(bounds) => month_range(month_str@) == Some(bounds) && bounds.0.is_valid()
                && bounds.1.is_valid(),
            Err(e) => month_range(month_str@) is None && e == CodexiError::InvalidDate,
        },
{
    let mut padded = String::from_str(month_str);
    padded.append("-01");
    match Date::parse(padded.as_str()) {
        Some(start) => match start.last_of_month() {
            Some(end) => Ok((start, end)),
            None => Err(CodexiError::InvalidDate),
        },
        None => Err(CodexiError::InvalidDate),
    }
}

} // verus!
