//! Changing a ledger one operation at a time: adding, removing, opening
//! and adjusting.

use vstd::prelude::*;
use vstd::string::*;
use crate::amount::{amount_text, push_amount, ADJUST_TOLERANCE, MAX_TOTAL};
use crate::balance::{current_balance, BalanceFilter};
use crate::codexi::{
    all_wf,
    lemma_total_amount_prefix,
    lemma_total_amount_remove,
    lemma_valid_history_sorted,
    total_amount,
    Codexi,
};
use crate::date::Date;
use crate::error::CodexiError;
use crate::operation::Operation;
use crate::operation_flow::OperationFlow;
use crate::operation_kind::OperationKind;
use crate::ordering::{
    is_chronological,
    lemma_remove_keeps_order,
    lemma_stable_sorted,
    sort_operations,
    stable_sorted,
};
use crate::system_kind::SystemKind;

verus! {

/// The latest date among the operations of kind `a` or `b`, if there is one.
pub open spec fn latest_date(s: Seq<Operation>, a: OperationKind, b: OperationKind) -> Option<
    Date,
>
    decreases s.len(),
{
    if s.len() == 0 {
        None
    } else {
        let earlier = latest_date(s.drop_last(), a, b);
        let op = s.last();
        if op.kind == a || op.kind == b {
            match earlier {
                Some(date) => if date.key() >= op.date.key() {
                    Some(date)
                } else {
                    Some(op.date)
                },
                None => Some(op.date),
            }
        } else {
            earlier
        }
    }
}

/// The date of the latest closing, if a period was ever closed.
pub open spec fn latest_close(s: Seq<Operation>) -> Option<Date> {
    latest_date(
        s,
        OperationKind::System(SystemKind::Close),
        OperationKind::System(SystemKind::Close),
    )
}

/// The date of the latest opening balance or adjustment, if there is one.
pub open spec fn latest_anchor(s: Seq<Operation>) -> Option<Date> {
    latest_date(
        s,
        OperationKind::System(SystemKind::Init),
        OperationKind::System(SystemKind::Adjust),
    )
}

/// Whether a new operation of the given date would stand on or before the
/// latest closing, or before the latest opening balance or adjustment.
pub open spec fn date_conflict(s: Seq<Operation>, date: Date) -> bool {
    ||| latest_close(s) matches Some(close) && date.key() <= close.key()
    ||| latest_anchor(s) matches Some(anchor) && date.key() < anchor.key()
}

/// Why a new operation is refused, if it is. The reasons are looked for in
/// this order: the date does not exist; the date conflicts with a closing or
/// an anchor; the operation is a debit of more than the current balance; the
/// amounts of the ledger would exceed [`MAX_TOTAL`].
pub open spec fn refusal(s: Seq<Operation>, flow: OperationFlow, date: Date, amount: u64) -> Option<
    CodexiError,
> {
    if !date.is_valid() {
        Some(CodexiError::InvalidDate)
    } else if date_conflict(s, date) {
        Some(CodexiError::DateConflict)
    } else if flow == OperationFlow::Debit && current_balance(s) < amount {
        Some(CodexiError::InsufficientFunds)
    } else if total_amount(s) + amount > MAX_TOTAL {
        Some(CodexiError::AmountOverflow)
    } else {
        None
    }
}

/// What adding an operation of a known date does to a history: where it is
/// refused, the error says why and nothing changes; else the new operation
/// joins the others and all are sorted by date, operations of one day
/// staying in the order in which they came.
pub open spec fn added_on(
    before: Seq<Operation>,
    after: Seq<Operation>,
    r: Result<(), CodexiError>,
    kind: OperationKind,
    flow: OperationFlow,
    date: Date,
    amount: u64,
    description: Seq<char>,
) -> bool {
    match refusal(before, flow, date, amount) {
        Some(e) => r == Err::<(), CodexiError>(e) && after == before,
        None => r is Ok && exists|op: Operation| #[trigger]
            op.is_entry(kind, flow, date, amount, description) && after == stable_sorted(
                before.push(op),
                false,
            ),
    }
}

/// What adding an operation does to a history, the date given as text: a
/// text that holds no date is refused; else see [`added_on`].
pub open spec fn added(
    before: Seq<Operation>,
    after: Seq<Operation>,
    r: Result<(), CodexiError>,
    kind: OperationKind,
    flow: OperationFlow,
    date: Seq<char>,
    amount: u64,
    description: Seq<char>,
) -> bool {
    match Date::parsed(date) {
        Some(day) => added_on(before, after, r, kind, flow, day, amount, description),
        None => r == Err::<(), CodexiError>(CodexiError::InvalidDate) && after == before,
    }
}

/// The magnitude of a signed quantity.
pub open spec fn magnitude(value: int) -> int {
    if value < 0 {
        -value
    } else {
        value
    }
}

/// The description of an adjustment by `deviation` to the counted balance
/// `target`.
pub open spec fn adjustment_description(deviation: nat, target: nat) -> Seq<char> {
    "ADJUSTMENT: Deviation of "@ + amount_text(deviation) + " to reach physical balance "@
        + amount_text(target)
}

/// The latest date is one that an operation of the kinds has, and no
/// operation of the kinds has a later one; there is none exactly where no
/// operation is of the kinds.
pub proof fn lemma_latest_date(s: Seq<Operation>, a: OperationKind, b: OperationKind)
    ensures
        match latest_date(s, a, b) {
            Some(date) => {
                &&& exists|i: int|
                    0 <= i < s.len() && (s[i].kind == a || s[i].kind == b) && #[trigger] s[i].date
                        == date
                &&& forall|j: int|
                    0 <= j < s.len() && ((#[trigger] s[j]).kind == a || s[j].kind == b)
                        ==> s[j].date.key() <= date.key()
            },
            None => forall|j: int|
                0 <= j < s.len() ==> !((#[trigger] s[j]).kind == a || s[j].kind == b),
        },
    decreases s.len(),
{
    if s.len() > 0 {
        let head = s.drop_last();
        lemma_latest_date(head, a, b);
        let op = s.last();
        match latest_date(s, a, b) {
            Some(date) => {
                if (op.kind == a || op.kind == b) && date == op.date {
                    assert(s[s.len() - 1].date == date);
                } else {
                    let i = choose|i: int|
                        0 <= i < head.len() && (head[i].kind == a || head[i].kind == b)
                            && #[trigger] head[i].date == date;
                    assert(s[i].date == date);
                }
                assert forall|j: int|
                    0 <= j < s.len() && ((#[trigger] s[j]).kind == a || s[j].kind
                        == b) implies s[j].date.key() <= date.key() by {
                    if j < head.len() {
                        assert(head[j] == s[j]);
                    }
                }
            },
            None => {
                assert forall|j: int| 0 <= j < s.len() implies !((#[trigger] s[j]).kind == a
                    || s[j].kind == b) by {
                    if j < head.len() {
                        assert(head[j] == s[j]);
                    }
                }
            },
        }
    }
}

impl Codexi {
    /// The latest date among the operations of kind `a` or `b`.
    pub fn latest_date_of(&self, a: OperationKind, b: OperationKind) -> (r: Option<Date>)
        ensures
            r == latest_date(self@, a, b),
    {
        let mut latest: Option<Date> = None;
        let mut i: usize = 0;
        while i < self.operations.len()
            invariant
                i <= self.operations.len(),
                latest == latest_date(self@.take(i as int), a, b),
            decreases self.operations.len() - i,
        {
            let op = &self.operations[i];
            assert(self@.take(i + 1).drop_last() =~= self@.take(i as int));
            if op.kind == a || op.kind == b {
                latest = match latest {
                    Some(date) => if date.is_before(&op.date) {
                        Some(op.date)
                    } else {
                        Some(date)
                    },
                    None => Some(op.date),
                };
            }
            i = i + 1;
        }
        assert(self@.take(i as int) =~= self@);
        latest
    }

    /// The sum of the amounts of all operations.
    pub fn total_of_amounts(&self) -> (r: u64)
        requires
            self.wf(),
        ensures
            r == total_amount(self@),
    {
        let mut sum: u64 = 0;
        let mut i: usize = 0;
        while i < self.operations.len()
            invariant
                i <= self.operations.len(),
                self.wf(),
                sum == total_amount(self@.take(i as int)),
            decreases self.operations.len() - i,
        {
            proof {
                assert(self@.take(i + 1).drop_last() =~= self@.take(i as int));
                lemma_total_amount_prefix(self@, i + 1);
            }
            sum = sum + self.operations[i].amount;
            i = i + 1;
        }
        assert(self@.take(i as int) =~= self@);
        sum
    }

    /// Adds an operation of a known date. It is refused, and the ledger
    /// left as it was, where [`refusal`] gives a reason. Else the operation
    /// is made with the trimmed description and put among the others by
    /// date, behind those that the ledger already holds for that day.
    pub fn add_dated_operation(
        &mut self,
        kind: OperationKind,
        flow: OperationFlow,
        date: Date,
        amount: u64,
        description: &str,
    ) -> (r: Result<(), CodexiError>)
        requires
            old(self).wf(),
        ensures
            added_on(old(self)@, final(self)@, r, kind, flow, date, amount, description@),
            r is Ok ==> is_chronological(final(self)@),
            final(self).wf(),
    {
        if Date::from_ymd(date.year, date.month, date.day).is_none() {
            return Err(CodexiError::InvalidDate);
        }
        let close = OperationKind::System(SystemKind::Close);
        if let Some(close_date) = self.latest_date_of(close, close) {
            if !date.is_after(&close_date) {
                return Err(CodexiError::DateConflict);
            }
        }
        if let Some(anchor_date) = self.latest_date_of(
            OperationKind::System(SystemKind::Init),
            OperationKind::System(SystemKind::Adjust),
        ) {
            if date.is_before(&anchor_date) {
                return Err(CodexiError::DateConflict);
            }
        }
        if flow == OperationFlow::Debit {
            let balance = self.balance_with(&BalanceFilter::none()).total;
            if (balance as i128) < (amount as i128) {
                return Err(CodexiError::InsufficientFunds);
            }
        }
        if amount > MAX_TOTAL - self.total_of_amounts() {
            return Err(CodexiError::AmountOverflow);
        }
        let op = Operation::dated(kind, flow, date, amount, description);
        let ghost joined = self@.push(op);
        self.operations.push(op);
        sort_operations(&mut self.operations, false);
        proof {
            assert(joined.drop_last() =~= old(self)@);
            assert(all_wf(joined)) by {
                assert forall|i: int| 0 <= i < joined.len() implies (#[trigger] joined[i]).wf() by {
                    if i < old(self)@.len() {
                        assert(old(self)@[i].wf());
                    }
                }
            }
            lemma_valid_history_sorted(joined, false);
            lemma_stable_sorted(joined, false);
            assert(op.is_entry(kind, flow, date, amount, description@));
        }
        Ok(())
    }

    /// Adds an operation, its date given as a text of the form
    /// `YYYY-MM-DD`. A text that holds no date is refused; so is a date on
    /// or before the latest closing, or before the latest opening balance or
    /// adjustment; so is a debit of more than the current balance. A
    /// refusal leaves the ledger as it was. Else the operation joins the
    /// ledger, which is kept sorted by date.
    pub fn add_operation(
        &mut self,
        kind: OperationKind,
        flow: OperationFlow,
        date: &str,
        amount: u64,
        description: &str,
    ) -> (r: Result<(), CodexiError>)
        requires
            old(self).wf(),
        ensures
            added(old(self)@, final(self)@, r, kind, flow, date@, amount, description@),
            r is Ok ==> is_chronological(final(self)@),
            final(self).wf(),
    {
        match Date::parse(date) {
            Some(day) => self.add_dated_operation(kind, flow, day, amount, description),
            None => Err(CodexiError::InvalidDate),
        }
    }

    /// Removes the operation at `index`; those behind it move down by one.
    /// An index that holds no operation is refused, and so is the index of a
    /// system anchor; the ledger is then left as it was.
    pub fn delete_operation(&mut self, index: usize) -> (r: Result<(), CodexiError>)
        ensures
            match r {
                Ok(_) => index < old(self)@.len() && old(self)@[index as int].kind is Regular
                    && final(self)@ == old(self)@.remove(index as int),
                Err(e) => final(self)@ == old(self)@ && if index >= old(self)@.len() {
                    e == CodexiError::OutOfBounds
                } else {
                    e == CodexiError::ProtectedOperation && old(self)@[index as int].kind is System
                },
            },
            old(self).wf() ==> final(self).wf(),
            is_chronological(old(self)@) ==> is_chronological(final(self)@),
    {
        if index >= self.operations.len() {
            return Err(CodexiError::OutOfBounds);
        }
        if self.operations[index].kind.is_system() {
            return Err(CodexiError::ProtectedOperation);
        }
        let _ = self.operations.remove(index);
        proof {
            if is_chronological(old(self)@) {
                lemma_remove_keeps_order(old(self)@, index as int, false);
            }
            if old(self).wf() {
                lemma_total_amount_remove(old(self)@, index as int);
                assert(all_wf(self@)) by {
                    assert forall|i: int| 0 <= i < self@.len() implies (#[trigger] self@[i]).wf() by {
                        if i < index {
                            assert(old(self)@[i].wf());
                        } else {
                            assert(old(self)@[i + 1].wf());
                        }
                    }
                }
            }
        }
        Ok(())
    }

    /// Opens an empty ledger with a first balance: an operation of kind
    /// `Init` whose flow is the sign of `amount` and whose amount is its
    /// magnitude. A ledger that holds operations is refused.
    pub fn initialize(&mut self, amount: i64, date_str: &str) -> (r: Result<(), CodexiError>)
        requires
            old(self).wf(),
        ensures
            if old(self)@.len() > 0 {
                r == Err::<(), CodexiError>(CodexiError::NotEmpty) && final(self)@ == old(self)@
            } else {
                added(
                    old(self)@,
                    final(self)@,
                    r,
                    OperationKind::System(SystemKind::Init),
                    OperationFlow::of_sign(amount as int),
                    date_str@,
                    magnitude(amount as int) as u64,
                    "INITIAL AMOUNT"@,
                )
            },
            r is Ok ==> is_chronological(final(self)@),
            final(self).wf(),
    {
        if self.operations.len() > 0 {
            return Err(CodexiError::NotEmpty);
        }
        let flow = OperationFlow::from_sign(amount);
        let size: u64 = if amount < 0 {
            ((-(amount + 1)) as u64) + 1
        } else {
            amount as u64
        };
        self.add_operation(
            OperationKind::System(SystemKind::Init),
            flow,
            date_str,
            size,
            "INITIAL AMOUNT",
        )
    }

    /// Brings the ledger to a balance that was counted. A negative count is
    /// ignored, and so is one within [`ADJUST_TOLERANCE`] of the current
    /// balance: both succeed and change nothing. Else an operation of kind
    /// `Adjust` is added for the difference, a credit where the count is
    /// higher than the current balance and a debit where it is lower.
    pub fn adjust_balance(&mut self, physical_balance: i64, date_str: &str) -> (r: Result<
        (),
        CodexiError,
    >)
        requires
            old(self).wf(),
        ensures
            ({
                let difference = physical_balance - current_balance(old(self)@);
                if physical_balance < 0 || magnitude(difference) < ADJUST_TOLERANCE {
                    r is Ok && final(self)@ == old(self)@
                } else {
                    added(
                        old(self)@,
                        final(self)@,
                        r,
                        OperationKind::System(SystemKind::Adjust),
                        OperationFlow::of_sign(difference),
                        date_str@,
                        magnitude(difference) as u64,
                        adjustment_description(
                            magnitude(difference) as nat,
                            physical_balance as nat,
                        ),
                    )
                }
            }),
            is_chronological(old(self)@) ==> is_chronological(final(self)@),
            final(self).wf(),
    {
        if physical_balance < 0 {
            return Ok(());
        }
        let current = self.balance_with(&BalanceFilter::none()).total;
        let difference: i128 = physical_balance as i128 - current as i128;
        let flow = if difference > 0 {
            OperationFlow::Credit
        } else if difference < 0 {
            OperationFlow::Debit
        } else {
            OperationFlow::Neutral
        };
        let size: u64 = if difference < 0 {
            (-difference) as u64
        } else {
            difference as u64
        };
        if size < ADJUST_TOLERANCE {
            return Ok(());
        }
        let mut description = String::from_str("ADJUSTMENT: Deviation of ");
        push_amount(&mut description, size);
        description.append(" to reach physical balance ");
        push_amount(&mut description, physical_balance as u64);
        self.add_operation(
            OperationKind::System(SystemKind::Adjust),
            flow,
            date_str,
            size,
            description.as_str(),
        )
    }
}

} // verus!
