//! Closing a period: everything up to a date leaves the ledger for an
//! archive, and one anchor that carries the balance forward takes its place.

use vstd::prelude::*;
use vstd::string::*;
use crate::amount::{amount_text, push_amount, MAX_TOTAL};
use crate::append::magnitude;
use crate::codexi::{
    all_wf,
    lemma_total_amount_nonnegative,
    lemma_total_amount_prefix,
    lemma_valid_history_sorted,
    total_amount,
    Codexi,
};
use crate::date::Date;
use crate::error::CodexiError;
use crate::operation::Operation;
use crate::operation_flow::OperationFlow;
use crate::operation_kind::OperationKind;
use crate::ordering::{
    is_chronological,
    is_ordered,
    lemma_ordered_by_kind_is_chronological,
    lemma_stable_sorted,
    sort_operations,
    stable_sorted,
};
use crate::system_kind::SystemKind;

verus! {

/// The test that an operation is dated on or before `date`.
pub open spec fn on_or_before(date: Date) -> spec_fn(Operation) -> bool {
    |op: Operation| op.date.key() <= date.key()
}

/// The test that an operation is dated after `date`.
pub open spec fn after(date: Date) -> spec_fn(Operation) -> bool {
    |op: Operation| op.date.key() > date.key()
}

/// The operations that a closing at `date` takes out of the ledger: those
/// dated on or before it, in stored order.
pub open spec fn archived_part(s: Seq<Operation>, date: Date) -> Seq<Operation> {
    s.filter(on_or_before(date))
}

/// The operations that a closing at `date` leaves in the ledger: those dated
/// after it, in stored order.
pub open spec fn retained_part(s: Seq<Operation>, date: Date) -> Seq<Operation> {
    s.filter(after(date))
}

/// The balance that a closing carries forward from the operations it
/// archives. An opening balance or an earlier closing sets the balance to
/// its own signed amount; every other operation adds its signed amount.
pub open spec fn closing_balance(s: Seq<Operation>) -> int
    decreases s.len(),
{
    if s.len() == 0 {
        0
    } else if s.last().kind.is_reset_anchor() {
        s.last().signed_amount()
    } else {
        closing_balance(s.drop_last()) + s.last().signed_amount()
    }
}

/// Whether an opening balance or a closing stands among the operations.
pub open spec fn has_reset_anchor(s: Seq<Operation>) -> bool {
    exists|i: int| 0 <= i < s.len() && (#[trigger] s[i]).kind.is_reset_anchor()
}

/// Whether a closing at `date` finds nothing to do: no operation is dated
/// on or before it, and no opening balance or closing is left behind it.
pub open spec fn nothing_to_close(s: Seq<Operation>, date: Date) -> bool {
    archived_part(s, date).len() == 0 && !has_reset_anchor(retained_part(s, date))
}

/// The texts of a list of strings.
pub open spec fn texts_of(parts: Seq<String>) -> Seq<Seq<char>> {
    parts.map_values(|p: String| p@)
}

/// The texts put one behind the other with a blank between two of them.
pub open spec fn joined(parts: Seq<Seq<char>>) -> Seq<char>
    decreases parts.len(),
{
    if parts.len() == 0 {
        Seq::empty()
    } else if parts.len() == 1 {
        parts[0]
    } else {
        joined(parts.drop_last()) + " "@ + parts.last()
    }
}

/// The description of the anchor of a closing, before it is trimmed: a
/// fixed label, the balance carried forward, and the words of the caller.
pub open spec fn closing_description(carried: nat, parts: Seq<Seq<char>>) -> Seq<char> {
    "SOLDE REPORTÉ : "@ + amount_text(carried) + " "@ + joined(parts)
}

/// What closing a period at a known date does to a history, and what it
/// hands back. A date that does not exist is refused. Else the operations
/// dated on or before the date are handed back, in stored order. Where
/// there is nothing to close, the history stays as it is. Else it becomes
/// the operations dated after the date together with one new anchor of kind
/// `Close`, dated on the date, whose flow and amount are the sign and the
/// magnitude of the closing balance; all sorted by date, and by kind within
/// one day.
pub open spec fn closed_on(
    before: Seq<Operation>,
    after: Seq<Operation>,
    r: Result<Vec<Operation>, CodexiError>,
    date: Date,
    parts: Seq<Seq<char>>,
) -> bool {
    if !date.is_valid() {
        r matches Err(e) && e == CodexiError::InvalidDate && after == before
    } else {
        &&& r matches Ok(archive) && archive@ == archived_part(before, date)
        &&& if nothing_to_close(before, date) {
            after == before
        } else {
            let carried = closing_balance(archived_part(before, date));
            exists|anchor: Operation| #[trigger]
                anchor.is_entry(
                    OperationKind::System(SystemKind::Close),
                    OperationFlow::of_sign(carried),
                    date,
                    magnitude(carried) as u64,
                    closing_description(magnitude(carried) as nat, parts),
                ) && after == stable_sorted(retained_part(before, date).push(anchor), true)
        }
    }
}

/// What closing a period does, the date given as text: a text that holds no
/// date is refused; else see [`closed_on`].
pub open spec fn closed(
    before: Seq<Operation>,
    after: Seq<Operation>,
    r: Result<Vec<Operation>, CodexiError>,
    date: Seq<char>,
    parts: Seq<Seq<char>>,
) -> bool {
    match Date::parsed(date) {
        Some(day) => closed_on(before, after, r, day, parts),
        None => r matches Err(e) && e == CodexiError::InvalidDate && after == before,
    }
}

/// A closing parts a history in two: each operation goes to exactly one
/// side, so the amounts of the two sides add up to those of the whole, and
/// well-formed operations stay well formed.
pub proof fn lemma_partition(s: Seq<Operation>, date: Date)
    ensures
        total_amount(archived_part(s, date)) + total_amount(retained_part(s, date))
            == total_amount(s),
        archived_part(s, date).len() + retained_part(s, date).len() == s.len(),
        all_wf(s) ==> all_wf(archived_part(s, date)) && all_wf(retained_part(s, date)),
        archived_part(s, date).len() == 0 ==> retained_part(s, date) == s,
    decreases s.len(),
{
    reveal(Seq::filter);
    if s.len() > 0 {
        let head = s.drop_last();
        lemma_partition(head, date);
        if all_wf(s) {
            assert(all_wf(head)) by {
                assert forall|i: int| 0 <= i < head.len() implies (#[trigger] head[i]).wf() by {
                    assert(s[i].wf());
                }
            }
            assert(s.last() == s[s.len() - 1]);
        }
        if after(date)(s.last()) {
            assert(retained_part(s, date).drop_last() =~= retained_part(head, date));
            if archived_part(s, date).len() == 0 {
                assert(retained_part(s, date) =~= s);
            }
        } else {
            assert(archived_part(s, date).drop_last() =~= archived_part(head, date));
        }
    }
}

/// The two sides of a closing hold what their names say: only operations
/// dated on or before the date on one side, only later ones on the other.
pub proof fn lemma_partition_dates(s: Seq<Operation>, date: Date)
    ensures
        forall|i: int|
            0 <= i < archived_part(s, date).len() ==> (#[trigger] archived_part(
                s,
                date,
            )[i]).date.key() <= date.key(),
        forall|i: int|
            0 <= i < retained_part(s, date).len() ==> (#[trigger] retained_part(
                s,
                date,
            )[i]).date.key() > date.key(),
{
    broadcast use vstd::seq_lib::group_filter_ensures;

}

/// The balance that a closing carries forward is no larger in magnitude
/// than the sum of the amounts it is taken from.
pub proof fn lemma_closing_balance_bounded(s: Seq<Operation>)
    ensures
        magnitude(closing_balance(s)) <= total_amount(s),
    decreases s.len(),
{
    if s.len() > 0 {
        lemma_closing_balance_bounded(s.drop_last());
        lemma_total_amount_nonnegative(s.drop_last());
    }
}

/// Puts the texts one behind the other with a blank between two of them.
pub fn join_with_blanks(parts: &Vec<String>) -> (r: String)
    ensures
        r@ == joined(texts_of(parts@)),
{
    let ghost texts = texts_of(parts@);
    let mut out = String::new();
    let mut i: usize = 0;
    while i < parts.len()
        invariant
            i <= parts.len(),
            texts == texts_of(parts@),
            out@ == joined(texts.take(i as int)),
        decreases parts.len() - i,
    {
        assert(texts.take(i + 1).drop_last() =~= texts.take(i as int));
        assert(texts.take(i + 1).last() == parts@[i as int]@);
        if i > 0 {
            out.append(" ");
        }
        out.append(parts[i].as_str());
        i = i + 1;
        assert(out@ =~= joined(texts.take(i as int)));
    }
    assert(texts.take(i as int) =~= texts);
    out
}

impl Codexi {
    /// Whether the ledger holds an opening balance or a closing.
    pub fn holds_reset_anchor(&self) -> (b: bool)
        ensures
            b == has_reset_anchor(self@),
    {
        let mut i: usize = 0;
        while i < self.operations.len()
            invariant
                i <= self.operations.len(),
                forall|k: int| 0 <= k < i ==> !(#[trigger] self@[k]).kind.is_reset_anchor(),
            decreases self.operations.len() - i,
        {
            let kind = self.operations[i].kind;
            if kind == OperationKind::System(SystemKind::Init) || kind == OperationKind::System(
                SystemKind::Close,
            ) {
                return true;
            }
            i = i + 1;
        }
        false
    }

    /// Closes the period that ends on `date`; see [`closed_on`]. The
    /// operations that leave the ledger are handed back, for the caller to
    /// keep them in an archive under that date.
    pub fn close_period_on(&mut self, date: Date, description_parts: &Vec<String>) -> (r: Result<
        Vec<Operation>,
        CodexiError,
    >)
        requires
            old(self).wf(),
        ensures
            closed_on(old(self)@, final(self)@, r, date, texts_of(description_parts@)),
            final(self)@ == old(self)@ || is_ordered(final(self)@, true),
            is_chronological(old(self)@) ==> is_chronological(final(self)@),
            final(self).wf(),
    {
        broadcast use vstd::std_specs::vec::axiom_spec_into_iter;

        if Date::from_ymd(date.year, date.month, date.day).is_none() {
            return Err(CodexiError::InvalidDate);
        }
        let ghost before = self@;
        let mut history: Vec<Operation> = Vec::new();
        std::mem::swap(&mut self.operations, &mut history);
        let mut archived: Vec<Operation> = Vec::new();
        let mut carried: i64 = 0;
        proof {
            reveal(Seq::filter);
            assert(before.take(0) =~= Seq::<Operation>::empty());
        }
        for op in it: history
            invariant
                it.seq() == before,
                Self::valid_history(before),
                archived@ == archived_part(before.take(it.index()), date),
                self@ == retained_part(before.take(it.index()), date),
                carried == closing_balance(archived@),
        {
            proof {
                let i = it.index();
                assert(before.take(i + 1) =~= before.take(i).push(op));
                before.take(i).lemma_filter_push(op, on_or_before(date));
                before.take(i).lemma_filter_push(op, after(date));
                lemma_partition(before.take(i + 1), date);
                lemma_total_amount_prefix(before, i + 1);
                lemma_closing_balance_bounded(archived_part(before.take(i + 1), date));
                lemma_closing_balance_bounded(archived_part(before.take(i), date));
                lemma_total_amount_nonnegative(retained_part(before.take(i + 1), date));
                assert(archived@.push(op).drop_last() =~= archived@);
            }
            if !op.date.is_after(&date) {
                let reset = op.kind == OperationKind::System(SystemKind::Init) || op.kind
                    == OperationKind::System(SystemKind::Close);
                let base: i64 = if reset {
                    0
                } else {
                    carried
                };
                carried =
                match op.flow {
                    OperationFlow::Credit => base + op.amount as i64,
                    OperationFlow::Debit => base - op.amount as i64,
                    OperationFlow::Neutral => base,
                };
                archived.push(op);
            } else {
                self.operations.push(op);
            }
        }
        proof {
            assert(before.take(before.len() as int) =~= before);
            lemma_partition(before, date);
            lemma_closing_balance_bounded(archived@);
            lemma_total_amount_nonnegative(retained_part(before, date));
        }
        if archived.len() == 0 && !self.holds_reset_anchor() {
            return Ok(archived);
        }
        let flow = OperationFlow::from_sign(carried);
        let size: u64 = if carried < 0 {
            (-carried) as u64
        } else {
            carried as u64
        };
        let mut description = String::from_str("SOLDE REPORTÉ : ");
        push_amount(&mut description, size);
        description.append(" ");
        let words = join_with_blanks(description_parts);
        description.append(words.as_str());
        let anchor = Operation::dated(
            OperationKind::System(SystemKind::Close),
            flow,
            date,
            size,
            description.as_str(),
        );
        let ghost kept = self@.push(anchor);
        self.operations.push(anchor);
        sort_operations(&mut self.operations, true);
        proof {
            assert(kept.drop_last() =~= retained_part(before, date));
            assert(all_wf(kept)) by {
                assert forall|i: int| 0 <= i < kept.len() implies (#[trigger] kept[i]).wf() by {
                    if i < kept.len() - 1 {
                        assert(retained_part(before, date)[i].wf());
                    }
                }
            }
            lemma_valid_history_sorted(kept, true);
            lemma_stable_sorted(kept, true);
            lemma_ordered_by_kind_is_chronological(stable_sorted(kept, true));
            assert(anchor.is_entry(
                OperationKind::System(SystemKind::Close),
                OperationFlow::of_sign(carried as int),
                date,
                magnitude(carried as int) as u64,
                closing_description(
                    magnitude(carried as int) as nat,
                    texts_of(description_parts@),
                ),
            ));
        }
        Ok(archived)
    }

    /// Closes the period that ends on the date that `close_date_str` holds
    /// in the form `YYYY-MM-DD`. Every operation dated on or before that
    /// date leaves the ledger and is handed back, and a new anchor of kind
    /// `Close` carries their balance forward; the words of
    /// `description_parts` end its description. Where nothing is dated on
    /// or before the date and no opening balance or closing stands behind
    /// it, nothing changes.
    pub fn close_period(&mut self, close_date_str: &str, description_parts: Vec<String>) -> (r:
        Result<Vec<Operation>, CodexiError>)
        requires
            old(self).wf(),
        ensures
            closed(old(self)@, final(self)@, r, close_date_str@, texts_of(description_parts@)),
            final(self)@ == old(self)@ || is_ordered(final(self)@, true),
            is_chronological(old(self)@) ==> is_chronological(final(self)@),
            final(self).wf(),
    {
        match Date::parse(close_date_str) {
            Some(date) => self.close_period_on(date, &description_parts),
            None => Err(CodexiError::InvalidDate),
        }
    }
}

} // verus!
