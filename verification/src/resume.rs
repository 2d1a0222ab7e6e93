//! The summary of a ledger: how many operations of the main kinds it
//! holds, when the latest of each took place, and the current balance.

use vstd::prelude::*;
use vstd::string::*;
use crate::append::{latest_date, lemma_latest_date};
use crate::balance::{current_balance, BalanceFilter};
use crate::codexi::Codexi;
use crate::date::Date;
use crate::error::CodexiError;
use crate::operation::Operation;
use crate::operation_kind::OperationKind;
use crate::regular_kind::RegularKind;
use crate::system_kind::SystemKind;

verus! {

/// The summary of a ledger.
#[derive(Debug)]
pub struct ResumeResult {
    pub current_nb_transaction: usize,
    pub current_nb_init: usize,
    pub current_nb_adjust: usize,
    pub current_nb_close: usize,
    pub current_nb_op: usize,
    pub current_balance: i64,
    pub latest_transaction_date: String,
    pub latest_init_date: String,
    pub latest_adjust_date: String,
    pub latest_close_date: String,
}

impl Clone for ResumeResult {
    fn clone(&self) -> (r: Self)
        ensures
            r == *self,
    {
        ResumeResult {
            current_nb_transaction: self.current_nb_transaction,
            current_nb_init: self.current_nb_init,
            current_nb_adjust: self.current_nb_adjust,
            current_nb_close: self.current_nb_close,
            current_nb_op: self.current_nb_op,
            current_balance: self.current_balance,
            latest_transaction_date: self.latest_transaction_date.clone(),
            latest_init_date: self.latest_init_date.clone(),
            latest_adjust_date: self.latest_adjust_date.clone(),
            latest_close_date: self.latest_close_date.clone(),
        }
    }
}

/// The number of operations of the given kind.
pub open spec fn count_of(s: Seq<Operation>, kind: OperationKind) -> nat
    decreases s.len(),
{
    if s.len() == 0 {
        0
    } else if s.last().kind == kind {
        count_of(s.drop_last(), kind) + 1
    } else {
        count_of(s.drop_last(), kind)
    }
}

/// The latest date among the operations of the given kind.
pub open spec fn latest_of_kind(s: Seq<Operation>, kind: OperationKind) -> Option<Date> {
    latest_date(s, kind, kind)
}

/// How the summary shows a date: as `YYYY-MM-DD`, or as a row of
/// underscores where there is none.
pub open spec fn date_label(date: Option<Date>) -> Seq<char> {
    match date {
        Some(d) => d.text(),
        None => "__________"@,
    }
}

/// The four kinds that the summary counts.
pub open spec fn counted_kinds() -> (OperationKind, OperationKind, OperationKind, OperationKind) {
    (
        OperationKind::Regular(RegularKind::Transaction),
        OperationKind::System(SystemKind::Init),
        OperationKind::System(SystemKind::Adjust),
        OperationKind::System(SystemKind::Close),
    )
}

/// What the summary of `s` holds: the counts of the four kinds and their
/// sum, the current balance, and the latest date of each of the four kinds.
pub open spec fn summarizes(r: ResumeResult, s: Seq<Operation>) -> bool {
    let (transaction, init, adjust, close) = counted_kinds();
    &&& r.current_nb_transaction == count_of(s, transaction)
    &&& r.current_nb_init == count_of(s, init)
    &&& r.current_nb_adjust == count_of(s, adjust)
    &&& r.current_nb_close == count_of(s, close)
    &&& r.current_nb_op == count_of(s, transaction) + count_of(s, init) + count_of(s, adjust)
        + count_of(s, close)
    &&& r.current_balance == current_balance(s)
    &&& r.latest_transaction_date@ == date_label(latest_of_kind(s, transaction))
    &&& r.latest_init_date@ == date_label(latest_of_kind(s, init))
    &&& r.latest_adjust_date@ == date_label(latest_of_kind(s, adjust))
    &&& r.latest_close_date@ == date_label(latest_of_kind(s, close))
}

/// The later of a date that may be absent and another date.
fn later_of(latest: Option<Date>, date: Date) -> (r: Option<Date>)
    ensures
        r == match latest {
            Some(d) => if d.key() >= date.key() {
                Some(d)
            } else {
                Some(date)
            },
            None => Some(date),
        },
{
    match latest {
        Some(d) => if d.is_before(&date) {
            Some(date)
        } else {
            Some(d)
        },
        None => Some(date),
    }
}

impl Codexi {
    /// The text under which the summary shows the latest date of a kind.
    fn label_of(&self, latest: Option<Date>, kind: Ghost<OperationKind>) -> (r: String)
        requires
            self.wf(),
            latest == latest_of_kind(self@, kind@),
        ensures
            r@ == date_label(latest),
    {
        match latest {
            Some(date) => {
                proof {
                    lemma_latest_date(self@, kind@, kind@);
                    let i = choose|i: int|
                        0 <= i < self@.len() && (self@[i].kind == kind@ || self@[i].kind == kind@)
                            && #[trigger] self@[i].date == date;
                    assert(self@[i].wf());
                }
                date.to_text()
            },
            None => String::from_str("__________"),
        }
    }

    /// The summary of the ledger: the number of transactions, opening
    /// balances, adjustments and closings, and their sum; for each of the
    /// four the latest date, as `YYYY-MM-DD`, or a row of underscores where
    /// the ledger holds none; and the current balance. Fees, transfers and
    /// refunds are not counted.
    pub fn resume(&self) -> (r: Result<ResumeResult, CodexiError>)
        requires
            self.wf(),
        ensures
            r matches Ok(summary) && summarizes(summary, self@),
    {
        let transaction = OperationKind::Regular(RegularKind::Transaction);
        let init = OperationKind::System(SystemKind::Init);
        let adjust = OperationKind::System(SystemKind::Adjust);
        let close = OperationKind::System(SystemKind::Close);
        let mut nb_transaction: usize = 0;
        let mut nb_init: usize = 0;
        let mut nb_adjust: usize = 0;
        let mut nb_close: usize = 0;
        let mut latest_transaction: Option<Date> = None;
        let mut latest_init: Option<Date> = None;
        let mut latest_adjust: Option<Date> = None;
        let mut latest_close: Option<Date> = None;
        let mut i: usize = 0;
        while i < self.operations.len()
            invariant
                i <= self.operations.len(),
                (transaction, init, adjust, close) == counted_kinds(),
                nb_transaction == count_of(self@.take(i as int), transaction),
                nb_init == count_of(self@.take(i as int), init),
                nb_adjust == count_of(self@.take(i as int), adjust),
                nb_close == count_of(self@.take(i as int), close),
                nb_transaction + nb_init + nb_adjust + nb_close <= i,
                latest_transaction == latest_of_kind(self@.take(i as int), transaction),
                latest_init == latest_of_kind(self@.take(i as int), init),
                latest_adjust == latest_of_kind(self@.take(i as int), adjust),
                latest_close == latest_of_kind(self@.take(i as int), close),
            decreases self.operations.len() - i,
        {
            let op = &self.operations[i];
            assert(self@.take(i + 1).drop_last() =~= self@.take(i as int));
            match op.kind {
                OperationKind::Regular(RegularKind::Transaction) => {
                    nb_transaction = nb_transaction + 1;
                    latest_transaction = later_of(latest_transaction, op.date);
                },
                OperationKind::System(SystemKind::Init) => {
                    nb_init = nb_init + 1;
                    latest_init = later_of(latest_init, op.date);
                },
                OperationKind::System(SystemKind::Adjust) => {
                    nb_adjust = nb_adjust + 1;
                    latest_adjust = later_of(latest_adjust, op.date);
                },
                OperationKind::System(SystemKind::Close) => {
                    nb_close = nb_close + 1;
                    latest_close = later_of(latest_close, op.date);
                },
                _ => {},
            }
            i = i + 1;
        }
        assert(self@.take(i as int) =~= self@);
        let current_balance = self.balance_with(&BalanceFilter::none()).total;
        Ok(
            ResumeResult {
                current_nb_transaction: nb_transaction,
                current_nb_init: nb_init,
                current_nb_adjust: nb_adjust,
                current_nb_close: nb_close,
                current_nb_op: nb_transaction + nb_init + nb_adjust + nb_close,
                current_balance,
                latest_transaction_date: self.label_of(latest_transaction, Ghost(transaction)),
                latest_init_date: self.label_of(latest_init, Ghost(init)),
                latest_adjust_date: self.label_of(latest_adjust, Ghost(adjust)),
                latest_close_date: self.label_of(latest_close, Ghost(close)),
            },
        )
    }
}

} // verus!
