//! The balance of a ledger: credits, debits and their difference, over all
//! operations or over those of chosen dates.

use vstd::prelude::*;
use vstd::string::*;
use crate::amount::{is_whole_cents, rounded_to_cents, MAX_TOTAL};
use crate::codexi::{lemma_total_amount_prefix, total_amount, Codexi};
use crate::date::Date;
use crate::error::CodexiError;
use crate::helpers::{flexible_date, parse_flexible_date_range, round_to_2_dec};
use crate::operation::Operation;
use crate::operation_flow::OperationFlow;
use crate::text::{chars_of, decimal_i32, decimal_u32, find_char, first_offset_of, parse_i32, parse_u32};

verus! {

/// The credits, the debits and their difference, each rounded to hundredths.
#[derive(Debug, Clone, Copy, PartialEq, Eq, Structural)]
pub struct BalanceResult {
    pub credit: i64,
    pub debit: i64,
    pub total: i64,
}

/// The dates that a balance is taken over. Every condition that is present
/// must hold of the date of an operation for it to count.
#[derive(Debug, Clone, Copy)]
pub struct BalanceFilter {
    /// The first day that counts.
    pub from: Option<Date>,
    /// The last day that counts.
    pub to: Option<Date>,
    /// The one day that counts.
    pub day: Option<Date>,
    /// The year and the month that count.
    pub month: Option<(i32, u32)>,
    /// The year that counts.
    pub year: Option<i32>,
}

impl BalanceFilter {
    /// The filter without any condition.
    pub open spec fn all() -> BalanceFilter {
        BalanceFilter { from: None, to: None, day: None, month: None, year: None }
    }

    /// Whether an operation of the given date counts.
    pub open spec fn admits(self, date: Date) -> bool {
        &&& self.from matches Some(first) ==> date.key() >= first.key()
        &&& self.to matches Some(last) ==> date.key() <= last.key()
        &&& self.day matches Some(day) ==> date == day
        &&& self.month matches Some(ym) ==> date.year == ym.0 && date.month == ym.1
        &&& self.year matches Some(year) ==> date.year == year
    }

    /// The filter without any condition.
    pub fn none() -> (r: BalanceFilter)
        ensures
            r == BalanceFilter::all(),
    {
        BalanceFilter { from: None, to: None, day: None, month: None, year: None }
    }

    /// Whether an operation of the given date counts.
    pub fn accepts(&self, date: &Date) -> (b: bool)
        ensures
            b == self.admits(*date),
    {
        if let Some(first) = self.from {
            if date.is_before(&first) {
                return false;
            }
        }
        if let Some(last) = self.to {
            if date.is_after(&last) {
                return false;
            }
        }
        if let Some(day) = self.day {
            if *date != day {
                return false;
            }
        }
        if let Some((year, month)) = self.month {
            if date.year != year || date.month != month {
                return false;
            }
        }
        if let Some(year) = self.year {
            if date.year != year {
                return false;
            }
        }
        true
    }
}

/// The sum of the amounts of the operations of the given flow whose dates
/// the filter admits.
pub open spec fn flow_total(s: Seq<Operation>, flow: OperationFlow, filter: BalanceFilter) -> int
    decreases s.len(),
{
    if s.len() == 0 {
        0
    } else if s.last().flow == flow && filter.admits(s.last().date) {
        flow_total(s.drop_last(), flow, filter) + s.last().amount
    } else {
        flow_total(s.drop_last(), flow, filter)
    }
}

/// The balance of `s` over the dates that the filter admits: the credits,
/// the debits, and the difference of the two sums, each rounded to
/// hundredths by itself.
pub open spec fn balance_of(s: Seq<Operation>, filter: BalanceFilter) -> BalanceResult {
    let credit = flow_total(s, OperationFlow::Credit, filter);
    let debit = flow_total(s, OperationFlow::Debit, filter);
    BalanceResult {
        credit: rounded_to_cents(credit) as i64,
        debit: rounded_to_cents(debit) as i64,
        total: rounded_to_cents(credit - debit) as i64,
    }
}

/// The current balance of `s`: the rounded difference of all credits and
/// all debits. This is the figure that a new debit is held against.
pub open spec fn current_balance(s: Seq<Operation>) -> int {
    balance_of(s, BalanceFilter::all()).total as int
}

/// The balance in which every figure is zero.
pub open spec fn zero_balance() -> BalanceResult {
    BalanceResult { credit: 0, debit: 0, total: 0 }
}

/// The year and month that a text of the form `YYYY-MM` names: the text
/// before its first hyphen read as a year, the text behind it as a month
/// number. (A month number is not held against the calendar here: one that
/// no date has admits no operation.)
pub open spec fn month_filter(text: Seq<char>) -> Option<(i32, u32)> {
    let at = first_offset_of(text, '-');
    if at >= text.len() {
        None
    } else {
        match (decimal_i32(text.subrange(0, at)), decimal_u32(
            text.subrange(at + 1, text.len() as int),
        )) {
            (Some(year), Some(month)) => Some((year, month)),
            _ => None,
        }
    }
}

/// The view of a text that may be absent.
pub open spec fn text_view(text: Option<String>) -> Option<Seq<char>> {
    match text {
        Some(t) => Some(t@),
        None => None,
    }
}

/// What the five texts of a balance request ask for.
///
/// `from` and `to` are bounds that name a day, a month or a year; one that
/// cannot be read is an error. `day` must name a day and `year` must hold an
/// integer; where one of them cannot be read, nothing can match, which is
/// `Ok(None)`. A `month` that cannot be read is left out of the filter.
/// The texts are looked at in this order: `from`, `to`, `day`, `year`.
pub open spec fn balance_request(
    from: Option<Seq<char>>,
    to: Option<Seq<char>>,
    day: Option<Seq<char>>,
    month: Option<Seq<char>>,
    year: Option<Seq<char>>,
) -> Result<Option<BalanceFilter>, CodexiError> {
    if from matches Some(t) && flexible_date(t, true) is None {
        Err(CodexiError::InvalidDate)
    } else if to matches Some(t) && flexible_date(t, false) is None {
        Err(CodexiError::InvalidDate)
    } else if day matches Some(t) && Date::parsed(t) is None {
        Ok(None)
    } else if year matches Some(t) && decimal_i32(t) is None {
        Ok(None)
    } else {
        Ok(
            Some(
                BalanceFilter {
                    from: match from {
                        Some(t) => flexible_date(t, true),
                        None => None,
                    },
                    to: match to {
                        Some(t) => flexible_date(t, false),
                        None => None,
                    },
                    day: match day {
                        Some(t) => Date::parsed(t),
                        None => None,
                    },
                    month: match month {
                        Some(t) => month_filter(t),
                        None => None,
                    },
                    year: match year {
                        Some(t) => decimal_i32(t),
                        None => None,
                    },
                },
            ),
        )
    }
}

/// The sums of one flow stay within the sum of all amounts, and the sums of
/// credits and debits together do so too.
pub proof fn lemma_flow_total_bounded(s: Seq<Operation>, filter: BalanceFilter)
    ensures
        0 <= flow_total(s, OperationFlow::Credit, filter),
        0 <= flow_total(s, OperationFlow::Debit, filter),
        flow_total(s, OperationFlow::Credit, filter) + flow_total(s, OperationFlow::Debit, filter)
            <= total_amount(s),
    decreases s.len(),
{
    if s.len() > 0 {
        lemma_flow_total_bounded(s.drop_last(), filter);
    }
}

/// Reads the year and month of a text of the form `YYYY-MM`.
pub fn parse_month_filter(text: &str) -> (r: Option<(i32, u32)>)
    ensures
        r == month_filter(text@),
{
    let chars = chars_of(text);
    let at = find_char(&chars, '-');
    if at >= chars.len() {
        return None;
    }
    let year = parse_i32(&chars, 0, at);
    let month = parse_u32(&chars, at + 1, chars.len());
    match (year, month) {
        (Some(y), Some(m)) => Some((y, m)),
        _ => None,
    }
}

/// Reads the five texts of a balance request; see [`balance_request`].
pub fn parse_balance_request(
    from: &Option<String>,
    to: &Option<String>,
    day: &Option<String>,
    month: &Option<String>,
    year: &Option<String>,
) -> (r: Result<Option<BalanceFilter>, CodexiError>)
    ensures
        r == balance_request(
            text_view(*from),
            text_view(*to),
            text_view(*day),
            text_view(*month),
            text_view(*year),
        ),
{
    let start = match from {
        Some(t) => match parse_flexible_date_range(t.as_str(), true) {
            Ok(date) => Some(date),
            Err(e) => {
                return Err(e);
            },
        },
        None => None,
    };
    let end = match to {
        Some(t) => match parse_flexible_date_range(t.as_str(), false) {
            Ok(date) => Some(date),
            Err(e) => {
                return Err(e);
            },
        },
        None => None,
    };
    let one_day = match day {
        Some(t) => match Date::parse(t.as_str()) {
            Some(date) => Some(date),
            None => {
                return Ok(None);
            },
        },
        None => None,
    };
    let one_month = match month {
        Some(t) => parse_month_filter(t.as_str()),
        None => None,
    };
    let one_year = match year {
        Some(t) => {
            let chars = chars_of(t.as_str());
            assert(chars@.subrange(0, chars@.len() as int) =~= chars@);
            match parse_i32(&chars, 0, chars.len()) {
                Some(y) => Some(y),
                None => {
                    return Ok(None);
                },
            }
        },
        None => None,
    };
    Ok(Some(BalanceFilter { from: start, to: end, day: one_day, month: one_month, year: one_year }))
}

impl Codexi {
    /// The balance over the operations whose dates the filter admits.
    pub fn balance_with(&self, filter: &BalanceFilter) -> (r: BalanceResult)
        requires
            self.wf(),
        ensures
            r == balance_of(self@, *filter),
            is_whole_cents(r.credit as int),
            is_whole_cents(r.debit as int),
            is_whole_cents(r.total as int),
            r.credit >= 0,
            r.debit >= 0,
    {
        let mut credit: u64 = 0;
        let mut debit: u64 = 0;
        let mut i: usize = 0;
        while i < self.operations.len()
            invariant
                i <= self.operations.len(),
                self.wf(),
                credit == flow_total(self@.take(i as int), OperationFlow::Credit, *filter),
                debit == flow_total(self@.take(i as int), OperationFlow::Debit, *filter),
                credit + debit <= MAX_TOTAL,
            decreases self.operations.len() - i,
        {
            let op = &self.operations[i];
            proof {
                assert(self@.take(i + 1).drop_last() =~= self@.take(i as int));
                lemma_total_amount_prefix(self@, i + 1);
                lemma_flow_total_bounded(self@.take(i + 1), *filter);
            }
            if filter.accepts(&op.date) {
                match op.flow {
                    OperationFlow::Credit => {
                        credit = credit + op.amount;
                    },
                    OperationFlow::Debit => {
                        debit = debit + op.amount;
                    },
                    OperationFlow::Neutral => {},
                }
            }
            i = i + 1;
        }
        assert(self@.take(i as int) =~= self@);
        let total: i64 = credit as i64 - debit as i64;
        BalanceResult {
            credit: round_to_2_dec(credit as i64),
            debit: round_to_2_dec(debit as i64),
            total: round_to_2_dec(total),
        }
    }

    /// The balance that a request of five optional texts asks for: `from`
    /// and `to` bound the dates, by day, month or year; `day`, `month` and
    /// `year` pick the operations of one day, month or year. A bound that
    /// cannot be read is an error; a `day` or `year` that cannot be read
    /// gives the zero balance; a `month` that cannot be read is ignored.
    pub fn balance(
        &self,
        from: Option<String>,
        to: Option<String>,
        day: Option<String>,
        month: Option<String>,
        year: Option<String>,
    ) -> (r: Result<BalanceResult, CodexiError>)
        requires
            self.wf(),
        ensures
            r == match balance_request(
                text_view(from),
                text_view(to),
                text_view(day),
                text_view(month),
                text_view(year),
            ) {
                Ok(Some(filter)) => Ok(balance_of(self@, filter)),
                Ok(None) => Ok(zero_balance()),
                Err(e) => Err(e),
            },
    {
        match parse_balance_request(&from, &to, &day, &month, &year) {
            Ok(Some(filter)) => Ok(self.balance_with(&filter)),
            Ok(None) => Ok(BalanceResult { credit: 0, debit: 0, total: 0 }),
            Err(e) => Err(e),
        }
    }
}

} // verus!
