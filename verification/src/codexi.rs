//! The ledger: an ordered history of operations, and the sums that its
//! rules speak of.

use vstd::prelude::*;
use crate::amount::MAX_TOTAL;
use crate::date::Date;
use crate::error::CodexiError;
use crate::helpers::calculate_new_balance;
use crate::operation::Operation;
use crate::ordering::{inserted, sort_operations, stable_sorted};

verus! {

/// The sum of the amounts of all operations, whatever their flow.
pub open spec fn total_amount(s: Seq<Operation>) -> int
    decreases s.len(),
{
    if s.len() == 0 {
        0
    } else {
        total_amount(s.drop_last()) + s.last().amount
    }
}

/// The sum of the signed amounts of all operations: credits count up,
/// debits count down.
pub open spec fn net_total(s: Seq<Operation>) -> int
    decreases s.len(),
{
    if s.len() == 0 {
        0
    } else {
        net_total(s.drop_last()) + s.last().signed_amount()
    }
}

/// The running balance behind the operation at index `i`: the net total of
/// everything up to and including it, in stored order.
pub open spec fn running_balance(s: Seq<Operation>, i: int) -> int {
    net_total(s.take(i + 1))
}

/// Whether every operation of `s` is well formed.
pub open spec fn all_wf(s: Seq<Operation>) -> bool {
    forall|i: int| 0 <= i < s.len() ==> (#[trigger] s[i]).wf()
}

/// The ledger. Its operations are public, as its files are; what the
/// functions of the ledger need of them is stated by [`Codexi::wf`].
#[derive(Debug)]
pub struct Codexi {
    pub operations: Vec<Operation>,
}

impl View for Codexi {
    type V = Seq<Operation>;

    open spec fn view(&self) -> Seq<Operation> {
        self.operations@
    }
}

impl Default for Codexi {
    /// The empty ledger.
    fn default() -> (r: Codexi)
        ensures
            r@ == Seq::<Operation>::empty(),
            r.wf(),
    {
        Codexi { operations: Vec::new() }
    }
}

impl Clone for Codexi {
    fn clone(&self) -> (r: Codexi)
        ensures
            r@ == self@,
    {
        let mut operations: Vec<Operation> = Vec::new();
        let mut i: usize = 0;
        while i < self.operations.len()
            invariant
                i <= self.operations.len(),
                operations@ == self.operations@.take(i as int),
            decreases self.operations.len() - i,
        {
            operations.push(self.operations[i].clone());
            i = i + 1;
            assert(operations@ =~= self.operations@.take(i as int));
        }
        assert(operations@ =~= self.operations@);
        Codexi { operations }
    }
}

impl Codexi {
    /// Whether `s` can be the history of a ledger: every date exists in the
    /// calendar, and the amounts taken together stay within [`MAX_TOTAL`],
    /// so that every balance fits in a signed 64-bit number.
    pub open spec fn valid_history(s: Seq<Operation>) -> bool {
        &&& all_wf(s)
        &&& total_amount(s) <= MAX_TOTAL
    }

    /// Whether the ledger is well formed; see [`Codexi::valid_history`].
    pub open spec fn wf(&self) -> bool {
        Self::valid_history(self@)
    }

    /// Makes a ledger of the given operations, in the given order, if they
    /// can be the history of a ledger.
    pub fn from_operations(operations: Vec<Operation>) -> (r: Option<Codexi>)
        ensures
            match r {
                Some(codexi) => codexi@ == operations@ && codexi.wf(),
                None => !Self::valid_history(operations@),
            },
    {
        let mut sum: u64 = 0;
        let mut i: usize = 0;
        while i < operations.len()
            invariant
                i <= operations.len(),
                sum == total_amount(operations@.take(i as int)),
                sum <= MAX_TOTAL,
                all_wf(operations@.take(i as int)),
            decreases operations.len() - i,
        {
            let op = &operations[i];
            proof {
                assert(operations@.take(i + 1).drop_last() =~= operations@.take(i as int));
                lemma_total_amount_prefix(operations@, i + 1);
            }
            if Date::from_ymd(op.date.year, op.date.month, op.date.day).is_none() {
                return None;
            }
            if op.amount > MAX_TOTAL - sum {
                return None;
            }
            sum = sum + op.amount;
            i = i + 1;
            assert(all_wf(operations@.take(i as int))) by {
                assert forall|k: int| 0 <= k < i implies (#[trigger] operations@.take(
                    i as int,
                )[k]).wf() by {
                    if k < i - 1 {
                        assert(operations@.take(i - 1)[k].wf());
                    }
                }
            }
        }
        assert(operations@.take(i as int) =~= operations@);
        Some(Codexi { operations })
    }

    /// Puts the operations in ascending order of their dates; operations of
    /// one day keep their order. This is what reading a ledger from an
    /// exchange format ends with.
    pub fn sort_by_date(&mut self)
        ensures
            final(self)@ == stable_sorted(old(self)@, false),
            old(self).wf() ==> final(self).wf(),
    {
        sort_operations(&mut self.operations, false);
        proof {
            if old(self).wf() {
                lemma_valid_history_sorted(old(self)@, false);
            }
        }
    }

    /// Every operation with the running balance behind it: the net total of
    /// the operations up to and including it, in stored order.
    pub fn get_operations_with_balance(&self) -> (r: Vec<(&Operation, i64)>)
        requires
            self.wf(),
        ensures
            r@.len() == self@.len(),
            forall|i: int|
                0 <= i < self@.len() ==> *(#[trigger] r@[i]).0 == self@[i] && r@[i].1
                    == running_balance(self@, i),
    {
        let mut out: Vec<(&Operation, i64)> = Vec::new();
        let mut cur_bal: i64 = 0;
        let mut i: usize = 0;
        while i < self.operations.len()
            invariant
                i <= self.operations.len(),
                self.wf(),
                out@.len() == i,
                cur_bal == net_total(self@.take(i as int)),
                forall|k: int|
                    0 <= k < i ==> *(#[trigger] out@[k]).0 == self@[k] && out@[k].1
                        == running_balance(self@, k),
            decreases self.operations.len() - i,
        {
            let op = &self.operations[i];
            proof {
                assert(self@.take(i + 1).drop_last() =~= self@.take(i as int));
                lemma_total_amount_prefix(self@, i + 1);
                lemma_net_total_bounded(self@.take(i + 1));
            }
            match calculate_new_balance(cur_bal, op) {
                Ok(next) => {
                    cur_bal = next;
                },
                Err(_) => {
                    assert(false);
                },
            }
            out.push((op, cur_bal));
            i = i + 1;
        }
        out
    }
}

/// The amounts of a prefix add up to no more than those of the whole.
pub proof fn lemma_total_amount_prefix(s: Seq<Operation>, n: int)
    requires
        0 <= n <= s.len(),
    ensures
        0 <= total_amount(s.take(n)) <= total_amount(s),
    decreases s.len() - n,
{
    lemma_total_amount_nonnegative(s.take(n));
    if n < s.len() {
        lemma_total_amount_prefix(s, n + 1);
        assert(s.take(n + 1).drop_last() =~= s.take(n));
    } else {
        assert(s.take(n) =~= s);
    }
}

/// A sum of amounts is never negative.
pub proof fn lemma_total_amount_nonnegative(s: Seq<Operation>)
    ensures
        0 <= total_amount(s),
    decreases s.len(),
{
    if s.len() > 0 {
        lemma_total_amount_nonnegative(s.drop_last());
    }
}

/// The amounts of two histories put end to end add up.
pub proof fn lemma_total_amount_concat(a: Seq<Operation>, b: Seq<Operation>)
    ensures
        total_amount(a + b) == total_amount(a) + total_amount(b),
    decreases b.len(),
{
    if b.len() == 0 {
        assert(a + b =~= a);
    } else {
        lemma_total_amount_concat(a, b.drop_last());
        assert((a + b).drop_last() =~= a + b.drop_last());
    }
}

/// Putting an operation in adds its amount to the sum, wherever it goes.
pub proof fn lemma_total_amount_insert(s: Seq<Operation>, at: int, op: Operation)
    requires
        0 <= at <= s.len(),
    ensures
        total_amount(s.insert(at, op)) == total_amount(s) + op.amount,
{
    let head = s.subrange(0, at);
    let tail = s.subrange(at, s.len() as int);
    assert(s =~= head + tail);
    assert(head.push(op).drop_last() =~= head);
    lemma_total_amount_concat(head, tail);
    lemma_total_amount_concat(head.push(op), tail);
}

/// Taking an operation out takes its amount from the sum.
pub proof fn lemma_total_amount_remove(s: Seq<Operation>, at: int)
    requires
        0 <= at < s.len(),
    ensures
        total_amount(s.remove(at)) == total_amount(s) - s[at].amount,
{
    let rest = s.remove(at);
    assert(rest.insert(at, s[at]) =~= s);
    lemma_total_amount_insert(rest, at, s[at]);
}

/// An ordered insertion adds the amount of the new operation to the sum.
pub proof fn lemma_total_amount_inserted(s: Seq<Operation>, op: Operation, with_kind: bool)
    ensures
        total_amount(inserted(s, op, with_kind)) == total_amount(s) + op.amount,
    decreases s.len(),
{
    if s.len() == 0 || crate::ordering::sort_key(s.last(), with_kind)
        <= crate::ordering::sort_key(op, with_kind) {
        assert(s.push(op).drop_last() =~= s);
    } else {
        lemma_total_amount_inserted(s.drop_last(), op, with_kind);
        assert(inserted(s.drop_last(), op, with_kind).push(s.last()).drop_last() =~= inserted(
            s.drop_last(),
            op,
            with_kind,
        ));
    }
}

/// Sorting changes neither the sum of the amounts nor whether every
/// operation is well formed.
pub proof fn lemma_valid_history_sorted(s: Seq<Operation>, with_kind: bool)
    ensures
        total_amount(stable_sorted(s, with_kind)) == total_amount(s),
        all_wf(s) ==> all_wf(stable_sorted(s, with_kind)),
    decreases s.len(),
{
    if s.len() > 0 {
        let head = stable_sorted(s.drop_last(), with_kind);
        lemma_valid_history_sorted(s.drop_last(), with_kind);
        lemma_total_amount_inserted(head, s.last(), with_kind);
        if all_wf(s) {
            assert(all_wf(s.drop_last())) by {
                assert forall|i: int| 0 <= i < s.len() - 1 implies (#[trigger] s.drop_last()[i]).wf() by {
                    assert(s[i].wf());
                }
            }
            lemma_all_wf_inserted(head, s.last(), with_kind);
        }
    }
}

/// An ordered insertion of a well-formed operation among well-formed ones
/// leaves all of them well formed.
pub proof fn lemma_all_wf_inserted(s: Seq<Operation>, op: Operation, with_kind: bool)
    requires
        all_wf(s),
        op.wf(),
    ensures
        all_wf(inserted(s, op, with_kind)),
{
    crate::ordering::lemma_inserted_members(s, op, with_kind);
    let r = inserted(s, op, with_kind);
    assert forall|i: int| 0 <= i < r.len() implies (#[trigger] r[i]).wf() by {
        if r[i] != op {
            let k = choose|k: int| 0 <= k < s.len() && s[k] == r[i];
            assert(s[k].wf());
        }
    }
}

/// A net total lies between minus and plus the sum of the amounts.
pub proof fn lemma_net_total_bounded(s: Seq<Operation>)
    ensures
        -total_amount(s) <= net_total(s) <= total_amount(s),
    decreases s.len(),
{
    if s.len() > 0 {
        lemma_net_total_bounded(s.drop_last());
    }
}

} // verus!
