//! What holds of the ledger whatever it contains: statements that relate
//! its functions to each other, each proved from their contracts.

use vstd::prelude::*;
use crate::amount::{is_whole_cents, lemma_rounded_to_cents, rounded_to_cents, MAX_TOTAL};
use crate::append::{added_on, date_conflict, latest_close, lemma_latest_date, magnitude, refusal};
use crate::balance::{
    balance_of,
    current_balance,
    flow_total,
    lemma_flow_total_bounded,
    zero_balance,
    BalanceFilter,
};
use crate::closing::{
    archived_part,
    closed_on,
    closing_balance,
    has_reset_anchor,
    lemma_partition_dates,
    nothing_to_close,
    retained_part,
};
use crate::codexi::{net_total, total_amount};
use crate::date::Date;
use crate::error::CodexiError;
use crate::operation::Operation;
use crate::operation_flow::OperationFlow;
use crate::operation_kind::OperationKind;
use crate::ordering::{
    is_chronological,
    is_ordered,
    lemma_stable_sorted,
    lemma_stable_sorted_least_last,
    lemma_stable_sorted_members,
    sort_key,
    stable_sorted,
};
use crate::system_kind::SystemKind;

verus! {

/// Whether every amount of `s` is a whole number of hundredths.
pub open spec fn amounts_in_whole_cents(s: Seq<Operation>) -> bool {
    forall|i: int| 0 <= i < s.len() ==> is_whole_cents((#[trigger] s[i]).amount as int)
}

/// Adding an operation leaves the ledger sorted by date: after an addition
/// that succeeds the operations stand in ascending order of their dates,
/// and one that is refused changes nothing.
pub proof fn lemma_addition_keeps_date_order(
    before: Seq<Operation>,
    after: Seq<Operation>,
    r: Result<(), CodexiError>,
    kind: OperationKind,
    flow: OperationFlow,
    date: Date,
    amount: u64,
    description: Seq<char>,
)
    requires
        added_on(before, after, r, kind, flow, date, amount, description),
    ensures
        r is Ok ==> is_chronological(after),
        r is Err ==> after == before,
        is_chronological(before) ==> is_chronological(after),
{
    if r is Ok {
        let op = choose|op: Operation| #[trigger]
            op.is_entry(kind, flow, date, amount, description) && after == stable_sorted(
                before.push(op),
                false,
            );
        lemma_stable_sorted(before.push(op), false);
    }
}

/// The balance of a ledger without operations is zero in every figure,
/// whatever the filter.
pub proof fn lemma_empty_balance_is_zero(filter: BalanceFilter)
    ensures
        balance_of(Seq::<Operation>::empty(), filter) == zero_balance(),
{
}

/// The three figures of a balance are whole numbers of hundredths, and the
/// credits less the debits differ from the total by one hundredth at most.
pub proof fn lemma_balance_is_rounded(s: Seq<Operation>, filter: BalanceFilter)
    requires
        total_amount(s) <= MAX_TOTAL,
    ensures
        is_whole_cents(balance_of(s, filter).credit as int),
        is_whole_cents(balance_of(s, filter).debit as int),
        is_whole_cents(balance_of(s, filter).total as int),
        -100 <= balance_of(s, filter).credit - balance_of(s, filter).debit - balance_of(
            s,
            filter,
        ).total <= 100,
{
    let credit = flow_total(s, OperationFlow::Credit, filter);
    let debit = flow_total(s, OperationFlow::Debit, filter);
    lemma_flow_total_bounded(s, filter);
    lemma_rounded_to_cents(credit);
    lemma_rounded_to_cents(debit);
    lemma_rounded_to_cents(credit - debit);
}

/// Where every amount is a whole number of hundredths, the total of a
/// balance is exactly its credits less its debits, and nothing is lost to
/// rounding.
pub proof fn lemma_balance_total_is_credit_less_debit(s: Seq<Operation>, filter: BalanceFilter)
    requires
        total_amount(s) <= MAX_TOTAL,
        amounts_in_whole_cents(s),
    ensures
        balance_of(s, filter).credit - balance_of(s, filter).debit == balance_of(s, filter).total,
        balance_of(s, filter).credit == flow_total(s, OperationFlow::Credit, filter),
        balance_of(s, filter).debit == flow_total(s, OperationFlow::Debit, filter),
{
    let credit = flow_total(s, OperationFlow::Credit, filter);
    let debit = flow_total(s, OperationFlow::Debit, filter);
    lemma_flow_total_bounded(s, filter);
    lemma_flow_total_whole_cents(s, OperationFlow::Credit, filter);
    lemma_flow_total_whole_cents(s, OperationFlow::Debit, filter);
    lemma_rounded_to_cents(credit);
    lemma_rounded_to_cents(debit);
    lemma_rounded_to_cents(credit - debit);
}

/// A sum of whole numbers of hundredths is one.
pub proof fn lemma_flow_total_whole_cents(
    s: Seq<Operation>,
    flow: OperationFlow,
    filter: BalanceFilter,
)
    requires
        amounts_in_whole_cents(s),
    ensures
        is_whole_cents(flow_total(s, flow, filter)),
    decreases s.len(),
{
    if s.len() > 0 {
        assert(amounts_in_whole_cents(s.drop_last())) by {
            assert forall|i: int| 0 <= i < s.len() - 1 implies is_whole_cents(
                (#[trigger] s.drop_last()[i]).amount as int,
            ) by {
                assert(is_whole_cents(s[i].amount as int));
            }
        }
        lemma_flow_total_whole_cents(s.drop_last(), flow, filter);
        assert(is_whole_cents(s[s.len() - 1].amount as int));
    }
}

/// A debit of more than the current balance is never added: the ledger
/// stays as it was. The refusal names the lack of funds, unless the date is
/// refused first.
pub proof fn lemma_overdraft_is_refused(
    before: Seq<Operation>,
    after: Seq<Operation>,
    r: Result<(), CodexiError>,
    kind: OperationKind,
    date: Date,
    amount: u64,
    description: Seq<char>,
)
    requires
        added_on(before, after, r, kind, OperationFlow::Debit, date, amount, description),
        amount > current_balance(before),
    ensures
        r is Err,
        after == before,
        date.is_valid() && !date_conflict(before, date) ==> r == Err::<(), CodexiError>(
            CodexiError::InsufficientFunds,
        ),
{
}

/// An operation dated on or before a closing that the ledger holds is
/// refused with a date conflict, and the ledger stays as it was.
pub proof fn lemma_closed_period_is_sealed(
    before: Seq<Operation>,
    after: Seq<Operation>,
    r: Result<(), CodexiError>,
    kind: OperationKind,
    flow: OperationFlow,
    date: Date,
    amount: u64,
    description: Seq<char>,
    closing: int,
)
    requires
        added_on(before, after, r, kind, flow, date, amount, description),
        date.is_valid(),
        0 <= closing < before.len(),
        before[closing].kind == OperationKind::System(SystemKind::Close),
        date.key() <= before[closing].date.key(),
    ensures
        r == Err::<(), CodexiError>(CodexiError::DateConflict),
        after == before,
{
    let close = OperationKind::System(SystemKind::Close);
    lemma_latest_date(before, close, close);
    assert(latest_close(before) is Some);
}

/// What a closing leaves behind. Where something is dated on or before the
/// closing date, the operations handed back are exactly those; the ledger
/// then starts with the one new anchor, dated on the closing date, whose
/// amount is the magnitude of the closing balance, and goes on with the
/// operations that were dated later, every one of them still later than the
/// closing date.
pub proof fn lemma_closing_replaces_the_past(
    before: Seq<Operation>,
    after: Seq<Operation>,
    r: Result<Vec<Operation>, CodexiError>,
    date: Date,
    parts: Seq<Seq<char>>,
)
    requires
        closed_on(before, after, r, date, parts),
        date.is_valid(),
        total_amount(before) <= MAX_TOTAL,
        archived_part(before, date).len() > 0,
    ensures
        r matches Ok(archive) && archive@ == archived_part(before, date),
        forall|i: int|
            0 <= i < archived_part(before, date).len() ==> (#[trigger] archived_part(
                before,
                date,
            )[i]).date.key() <= date.key(),
        after.len() == retained_part(before, date).len() + 1,
        after[0].kind == OperationKind::System(SystemKind::Close),
        after[0].date == date,
        after[0].amount == magnitude(closing_balance(archived_part(before, date))),
        after[0].flow == OperationFlow::of_sign(closing_balance(archived_part(before, date))),
        after.skip(1) == stable_sorted(retained_part(before, date), true),
        forall|j: int| 1 <= j < after.len() ==> (#[trigger] after[j]).date.key() > date.key(),
        is_ordered(after, true),
{
    let carried = closing_balance(archived_part(before, date));
    let kept = retained_part(before, date);
    lemma_partition_dates(before, date);
    let anchor = choose|anchor: Operation| #[trigger]
        anchor.is_entry(
            OperationKind::System(SystemKind::Close),
            OperationFlow::of_sign(carried),
            date,
            magnitude(carried) as u64,
            crate::closing::closing_description(magnitude(carried) as nat, parts),
        ) && after == stable_sorted(kept.push(anchor), true);
    crate::closing::lemma_closing_balance_bounded(archived_part(before, date));
    crate::closing::lemma_partition(before, date);
    crate::codexi::lemma_total_amount_nonnegative(kept);
    assert forall|k: int| 0 <= k < kept.len() implies sort_key(#[trigger] kept[k], true)
        > sort_key(anchor, true) by {
        crate::operation_kind::lemma_rank_orders_kinds(kept[k].kind, anchor.kind);
    }
    lemma_stable_sorted_least_last(kept, anchor, true);
    lemma_stable_sorted(kept, true);
    lemma_stable_sorted(kept.push(anchor), true);
    lemma_stable_sorted_members(kept, true);
    let rest = stable_sorted(kept, true);
    assert(after.skip(1) =~= rest);
    assert forall|j: int| 1 <= j < after.len() implies (#[trigger] after[j]).date.key()
        > date.key() by {
        assert(after[j] == rest[j - 1]);
        assert(kept.contains(rest[j - 1]));
        let k = choose|k: int| 0 <= k < kept.len() && kept[k] == rest[j - 1];
        assert(kept[k].date.key() > date.key());
    }
}

/// The closing balance is the net total of what is archived, as long as no
/// opening balance or closing stands behind the first archived operation.
pub proof fn lemma_closing_balance_is_net_total(s: Seq<Operation>)
    requires
        forall|i: int| 1 <= i < s.len() ==> !(#[trigger] s[i]).kind.is_reset_anchor(),
    ensures
        closing_balance(s) == net_total(s),
    decreases s.len(),
{
    if s.len() > 1 {
        assert forall|i: int| 1 <= i < s.len() - 1 implies !(#[trigger] s.drop_last()[i]).kind.is_reset_anchor() by {
            assert(!s[i].kind.is_reset_anchor());
        }
        lemma_closing_balance_is_net_total(s.drop_last());
        assert(!s[s.len() - 1].kind.is_reset_anchor());
    } else if s.len() == 1 {
        assert(net_total(s.drop_last()) == 0);
        assert(closing_balance(s.drop_last()) == 0);
    }
}

/// A ledger that holds an opening balance or a closing still holds one
/// after an operation was added or refused.
pub proof fn lemma_anchor_survives_addition(
    before: Seq<Operation>,
    after: Seq<Operation>,
    r: Result<(), CodexiError>,
    kind: OperationKind,
    flow: OperationFlow,
    date: Date,
    amount: u64,
    description: Seq<char>,
)
    requires
        added_on(before, after, r, kind, flow, date, amount, description),
        has_reset_anchor(before),
    ensures
        has_reset_anchor(after),
{
    if r is Ok {
        let op = choose|op: Operation| #[trigger]
            op.is_entry(kind, flow, date, amount, description) && after == stable_sorted(
                before.push(op),
                false,
            );
        let i = choose|i: int| 0 <= i < before.len() && (#[trigger] before[i]).kind.is_reset_anchor();
        lemma_stable_sorted_members(before.push(op), false);
        assert(before.push(op)[i] == before[i]);
        assert(after.contains(before[i]));
        let k = choose|k: int| 0 <= k < after.len() && after[k] == before[i];
        assert(after[k].kind.is_reset_anchor());
    }
}

/// A ledger that holds an opening balance or a closing still holds one
/// after a regular operation was removed.
pub proof fn lemma_anchor_survives_removal(s: Seq<Operation>, index: int)
    requires
        0 <= index < s.len(),
        s[index].kind is Regular,
        has_reset_anchor(s),
    ensures
        has_reset_anchor(s.remove(index)),
{
    let i = choose|i: int| 0 <= i < s.len() && (#[trigger] s[i]).kind.is_reset_anchor();
    let k = if i < index {
        i
    } else {
        i - 1
    };
    assert(s.remove(index)[k] == s[i]);
}

/// A ledger that holds an opening balance or a closing still holds one
/// after a period was closed.
pub proof fn lemma_anchor_survives_closing(
    before: Seq<Operation>,
    after: Seq<Operation>,
    r: Result<Vec<Operation>, CodexiError>,
    date: Date,
    parts: Seq<Seq<char>>,
)
    requires
        closed_on(before, after, r, date, parts),
        has_reset_anchor(before),
    ensures
        has_reset_anchor(after),
{
    if date.is_valid() && !nothing_to_close(before, date) {
        let carried = closing_balance(archived_part(before, date));
        let kept = retained_part(before, date);
        let anchor = choose|anchor: Operation| #[trigger]
            anchor.is_entry(
                OperationKind::System(SystemKind::Close),
                OperationFlow::of_sign(carried),
                date,
                magnitude(carried) as u64,
                crate::closing::closing_description(magnitude(carried) as nat, parts),
            ) && after == stable_sorted(kept.push(anchor), true);
        lemma_stable_sorted_members(kept.push(anchor), true);
        assert(kept.push(anchor)[kept.len() as int] == anchor);
        assert(after.contains(anchor));
        let k = choose|k: int| 0 <= k < after.len() && after[k] == anchor;
        assert(after[k].kind.is_reset_anchor());
    }
}

/// Sorting a ledger by date, as reading it from an exchange format does,
/// gives the same operations, each as often as before, in ascending order of
/// their dates.
pub proof fn lemma_import_order(s: Seq<Operation>)
    ensures
        stable_sorted(s, false).to_multiset() == s.to_multiset(),
        is_chronological(stable_sorted(s, false)),
{
    lemma_stable_sorted(s, false);
}

} // verus!
