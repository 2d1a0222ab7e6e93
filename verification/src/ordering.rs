//! The order in which a ledger keeps its operations, and a stable sort that
//! establishes it.
//!
//! Operations are ordered by date. Where a period has just been closed, two
//! operations of one day are ordered by kind as well. The sort is stable:
//! operations that the order does not tell apart stay as they were.

use vstd::prelude::*;
use crate::operation::Operation;

verus! {

/// The number by which an operation is ordered: its date, and with
/// `with_kind` also the rank of its kind among the operations of one day.
pub open spec fn sort_key(op: Operation, with_kind: bool) -> int {
    if with_kind {
        op.date.key() * 8 + op.kind.rank()
    } else {
        op.date.key()
    }
}

/// Whether the operations stand in ascending order of their keys.
pub open spec fn is_ordered(s: Seq<Operation>, with_kind: bool) -> bool {
    forall|i: int, j: int|
        0 <= i < j < s.len() ==> sort_key(#[trigger] s[i], with_kind) <= sort_key(
            #[trigger] s[j],
            with_kind,
        )
}

/// Whether the operations stand in ascending order of their dates.
pub open spec fn is_chronological(s: Seq<Operation>) -> bool {
    is_ordered(s, false)
}

/// `s` with `op` put in behind the last operation whose key is not greater.
pub open spec fn inserted(s: Seq<Operation>, op: Operation, with_kind: bool) -> Seq<Operation>
    decreases s.len(),
{
    if s.len() == 0 || sort_key(s.last(), with_kind) <= sort_key(op, with_kind) {
        s.push(op)
    } else {
        inserted(s.drop_last(), op, with_kind).push(s.last())
    }
}

/// The operations of `s` in ascending order of their keys, those of equal
/// key in the order in which they stand in `s`.
pub open spec fn stable_sorted(s: Seq<Operation>, with_kind: bool) -> Seq<Operation>
    decreases s.len(),
{
    if s.len() == 0 {
        s
    } else {
        inserted(stable_sorted(s.drop_last(), with_kind), s.last(), with_kind)
    }
}

/// Where an insertion puts the new operation: at the one place that has only
/// greater keys behind it and a key that is not greater just before it.
pub proof fn lemma_inserted_at(s: Seq<Operation>, op: Operation, with_kind: bool, at: int)
    requires
        0 <= at <= s.len(),
        forall|k: int| at <= k < s.len() ==> sort_key(s[k], with_kind) > sort_key(op, with_kind),
        at > 0 ==> sort_key(s[at - 1], with_kind) <= sort_key(op, with_kind),
    ensures
        inserted(s, op, with_kind) == s.insert(at, op),
    decreases s.len() - at,
{
    if at == s.len() {
        assert(s.insert(at, op) =~= s.push(op));
    } else {
        lemma_inserted_at(s.drop_last(), op, with_kind, at);
        assert(s.drop_last().insert(at, op).push(s.last()) =~= s.insert(at, op));
    }
}

/// An insertion adds one operation and keeps an ordered sequence ordered.
pub proof fn lemma_inserted_ordered(s: Seq<Operation>, op: Operation, with_kind: bool)
    requires
        is_ordered(s, with_kind),
    ensures
        is_ordered(inserted(s, op, with_kind), with_kind),
        inserted(s, op, with_kind).len() == s.len() + 1,
        inserted(s, op, with_kind).to_multiset() == s.to_multiset().insert(op),
    decreases s.len(),
{
    broadcast use vstd::seq_lib::group_to_multiset_ensures;

    let r = inserted(s, op, with_kind);
    if s.len() == 0 || sort_key(s.last(), with_kind) <= sort_key(op, with_kind) {
        assert forall|i: int, j: int| 0 <= i < j < r.len() implies sort_key(
            #[trigger] r[i],
            with_kind,
        ) <= sort_key(#[trigger] r[j], with_kind) by {
            if j == s.len() && i < s.len() - 1 {
                assert(sort_key(s[i], with_kind) <= sort_key(s[s.len() - 1], with_kind));
            }
        }
    } else {
        let head = s.drop_last();
        assert(is_ordered(head, with_kind)) by {
            assert forall|i: int, j: int| 0 <= i < j < head.len() implies sort_key(
                #[trigger] head[i],
                with_kind,
            ) <= sort_key(#[trigger] head[j], with_kind) by {
                assert(head[i] == s[i] && head[j] == s[j]);
            }
        }
        lemma_inserted_ordered(head, op, with_kind);
        let mid = inserted(head, op, with_kind);
        lemma_inserted_members(head, op, with_kind);
        assert forall|i: int, j: int| 0 <= i < j < r.len() implies sort_key(
            #[trigger] r[i],
            with_kind,
        ) <= sort_key(#[trigger] r[j], with_kind) by {
            if j == mid.len() {
                assert(r[j] == s.last());
                assert(r[i] == mid[i]);
                if mid[i] != op {
                    let k = choose|k: int| 0 <= k < head.len() && head[k] == mid[i];
                    assert(sort_key(s[k], with_kind) <= sort_key(s[s.len() - 1], with_kind));
                }
            } else {
                assert(r[i] == mid[i] && r[j] == mid[j]);
            }
        }
        assert(s =~= head.push(s.last()));
        assert(r.to_multiset() =~= s.to_multiset().insert(op));
    }
}

/// An insertion holds the new operation and those that were there, no other.
pub proof fn lemma_inserted_members(s: Seq<Operation>, op: Operation, with_kind: bool)
    ensures
        forall|i: int|
            0 <= i < inserted(s, op, with_kind).len() ==> #[trigger] inserted(s, op, with_kind)[i]
                == op || exists|k: int|
                0 <= k < s.len() && s[k] == inserted(s, op, with_kind)[i],
    decreases s.len(),
{
    let r = inserted(s, op, with_kind);
    if s.len() == 0 || sort_key(s.last(), with_kind) <= sort_key(op, with_kind) {
        assert forall|i: int| 0 <= i < r.len() implies #[trigger] r[i] == op || exists|k: int|
            0 <= k < s.len() && s[k] == r[i] by {
            if i < s.len() {
                assert(s[i] == r[i]);
            }
        }
    } else {
        let head = s.drop_last();
        lemma_inserted_members(head, op, with_kind);
        let mid = inserted(head, op, with_kind);
        assert forall|i: int| 0 <= i < r.len() implies #[trigger] r[i] == op || exists|k: int|
            0 <= k < s.len() && s[k] == r[i] by {
            if i < mid.len() {
                assert(r[i] == mid[i]);
                if mid[i] != op {
                    let k = choose|k: int| 0 <= k < head.len() && head[k] == mid[i];
                    assert(s[k] == r[i]);
                }
            } else {
                assert(s[s.len() - 1] == r[i]);
            }
        }
    }
}

/// Sorting gives an ordered sequence that holds the same operations, each as
/// often as before.
pub proof fn lemma_stable_sorted(s: Seq<Operation>, with_kind: bool)
    ensures
        is_ordered(stable_sorted(s, with_kind), with_kind),
        stable_sorted(s, with_kind).len() == s.len(),
        stable_sorted(s, with_kind).to_multiset() == s.to_multiset(),
    decreases s.len(),
{
    broadcast use vstd::seq_lib::group_to_multiset_ensures;

    if s.len() > 0 {
        lemma_stable_sorted(s.drop_last(), with_kind);
        lemma_inserted_ordered(stable_sorted(s.drop_last(), with_kind), s.last(), with_kind);
        assert(s =~= s.drop_last().push(s.last()));
    }
}

/// Sorting neither adds nor drops an operation: each one that stands in the
/// result stands in the source, and each one of the source in the result.
pub proof fn lemma_stable_sorted_members(s: Seq<Operation>, with_kind: bool)
    ensures
        forall|i: int|
            0 <= i < stable_sorted(s, with_kind).len() ==> s.contains(
                #[trigger] stable_sorted(s, with_kind)[i],
            ),
        forall|k: int| 0 <= k < s.len() ==> stable_sorted(s, with_kind).contains(#[trigger] s[k]),
{
    broadcast use vstd::seq_lib::group_to_multiset_ensures;

    lemma_stable_sorted(s, with_kind);
    let r = stable_sorted(s, with_kind);
    assert forall|i: int| 0 <= i < r.len() implies s.contains(#[trigger] r[i]) by {
        assert(r.contains(r[i]));
        assert(r.to_multiset().count(r[i]) > 0);
    }
    assert forall|k: int| 0 <= k < s.len() implies r.contains(#[trigger] s[k]) by {
        assert(s.contains(s[k]));
        assert(s.to_multiset().count(s[k]) > 0);
    }
}

/// An operation whose key is smaller than every other key comes first.
pub proof fn lemma_stable_sorted_least_last(s: Seq<Operation>, op: Operation, with_kind: bool)
    requires
        forall|k: int| 0 <= k < s.len() ==> sort_key(#[trigger] s[k], with_kind) > sort_key(
            op,
            with_kind,
        ),
    ensures
        stable_sorted(s.push(op), with_kind) == seq![op] + stable_sorted(s, with_kind),
{
    let sorted = stable_sorted(s, with_kind);
    lemma_stable_sorted_members(s, with_kind);
    assert(s.push(op).drop_last() =~= s);
    assert forall|k: int| 0 <= k < sorted.len() implies sort_key(sorted[k], with_kind) > sort_key(
        op,
        with_kind,
    ) by {
        assert(s.contains(sorted[k]));
        let j = choose|j: int| 0 <= j < s.len() && s[j] == sorted[k];
        assert(sort_key(s[j], with_kind) > sort_key(op, with_kind));
    }
    lemma_inserted_at(sorted, op, with_kind, 0);
    assert(sorted.insert(0, op) =~= seq![op] + sorted);
}

/// Sorting leaves an ordered sequence as it is.
pub proof fn lemma_stable_sorted_fixes_ordered(s: Seq<Operation>, with_kind: bool)
    requires
        is_ordered(s, with_kind),
    ensures
        stable_sorted(s, with_kind) == s,
    decreases s.len(),
{
    if s.len() > 0 {
        let head = s.drop_last();
        assert(is_ordered(head, with_kind)) by {
            assert forall|i: int, j: int| 0 <= i < j < head.len() implies sort_key(
                #[trigger] head[i],
                with_kind,
            ) <= sort_key(#[trigger] head[j], with_kind) by {
                assert(head[i] == s[i] && head[j] == s[j]);
            }
        }
        lemma_stable_sorted_fixes_ordered(head, with_kind);
        if head.len() > 0 {
            assert(sort_key(s[head.len() - 1], with_kind) <= sort_key(
                s[s.len() - 1],
                with_kind,
            ));
            assert(head.last() == s[head.len() - 1]);
        }
        assert(head.push(s.last()) =~= s);
    }
}

/// Sorting keeps the operations of each key in the order in which they stood.
pub proof fn lemma_stable_sorted_is_stable(s: Seq<Operation>, with_kind: bool, key: int)
    ensures
        stable_sorted(s, with_kind).filter(|op: Operation| sort_key(op, with_kind) == key)
            == s.filter(|op: Operation| sort_key(op, with_kind) == key),
    decreases s.len(),
{
    let pred = |op: Operation| sort_key(op, with_kind) == key;
    if s.len() > 0 {
        let head = s.drop_last();
        let sorted_head = stable_sorted(head, with_kind);
        lemma_stable_sorted_is_stable(head, with_kind, key);
        lemma_inserted_keeps_key_order(sorted_head, s.last(), with_kind, key);
        assert(s =~= head.push(s.last()));
        head.lemma_filter_push(s.last(), pred);
        sorted_head.lemma_filter_push(s.last(), pred);
    }
}

/// Among the operations of one key, an insertion puts the new one last.
pub proof fn lemma_inserted_keeps_key_order(
    s: Seq<Operation>,
    op: Operation,
    with_kind: bool,
    key: int,
)
    ensures
        inserted(s, op, with_kind).filter(|o: Operation| sort_key(o, with_kind) == key) == s.push(
            op,
        ).filter(|o: Operation| sort_key(o, with_kind) == key),
    decreases s.len(),
{
    let pred = |o: Operation| sort_key(o, with_kind) == key;
    if s.len() == 0 || sort_key(s.last(), with_kind) <= sort_key(op, with_kind) {
    } else {
        let head = s.drop_last();
        lemma_inserted_keeps_key_order(head, op, with_kind, key);
        let mid = inserted(head, op, with_kind);
        mid.lemma_filter_push(s.last(), pred);
        head.lemma_filter_push(op, pred);
        s.lemma_filter_push(op, pred);
        head.lemma_filter_push(s.last(), pred);
        assert(s =~= head.push(s.last()));
        // The key of `op` is smaller than that of `s.last()`, so at most one
        // of the two has the key in question.
        if pred(op) && pred(s.last()) {
            assert(false);
        }
    }
}

/// Taking an operation out of an ordered sequence leaves it ordered.
pub proof fn lemma_remove_keeps_order(s: Seq<Operation>, index: int, with_kind: bool)
    requires
        0 <= index < s.len(),
        is_ordered(s, with_kind),
    ensures
        is_ordered(s.remove(index), with_kind),
{
    let r = s.remove(index);
    assert forall|i: int, j: int| 0 <= i < j < r.len() implies sort_key(
        #[trigger] r[i],
        with_kind,
    ) <= sort_key(#[trigger] r[j], with_kind) by {
        let a = if i < index {
            i
        } else {
            i + 1
        };
        let b = if j < index {
            j
        } else {
            j + 1
        };
        assert(r[i] == s[a] && r[j] == s[b]);
    }
}

/// Operations that are ordered by date and kind are ordered by date.
pub proof fn lemma_ordered_by_kind_is_chronological(s: Seq<Operation>)
    requires
        is_ordered(s, true),
    ensures
        is_chronological(s),
{
    assert forall|i: int, j: int| 0 <= i < j < s.len() implies sort_key(#[trigger] s[i], false)
        <= sort_key(#[trigger] s[j], false) by {
        assert(sort_key(s[i], true) <= sort_key(s[j], true));
        crate::operation_kind::lemma_rank_orders_kinds(s[i].kind, s[j].kind);
    }
}

/// Whether `a` comes behind `b` in the order.
pub fn comes_after(a: &Operation, b: &Operation, with_kind: bool) -> (r: bool)
    ensures
        r == (sort_key(*a, with_kind) > sort_key(*b, with_kind)),
{
    if a.date.is_after(&b.date) {
        true
    } else if with_kind && a.date == b.date {
        a.kind.order_rank() > b.kind.order_rank()
    } else {
        false
    }
}

/// Two ordered runs put together into one: the operation with the greater
/// key goes last, and of two with one key the one of the second run.
pub open spec fn merged(a: Seq<Operation>, b: Seq<Operation>, with_kind: bool) -> Seq<Operation>
    decreases a.len() + b.len(),
{
    if a.len() == 0 {
        b
    } else if b.len() == 0 {
        a
    } else if sort_key(a.last(), with_kind) > sort_key(b.last(), with_kind) {
        merged(a.drop_last(), b, with_kind).push(a.last())
    } else {
        merged(a, b.drop_last(), with_kind).push(b.last())
    }
}

/// What two runs put together end with: the last operation of one of them.
pub proof fn lemma_merged_last(a: Seq<Operation>, b: Seq<Operation>, with_kind: bool)
    requires
        a.len() + b.len() > 0,
    ensures
        merged(a, b, with_kind).len() > 0,
        (a.len() > 0 && merged(a, b, with_kind).last() == a.last()) || (b.len() > 0 && merged(
            a,
            b,
            with_kind,
        ).last() == b.last()),
{
}

/// Inserting into two runs put together is putting the first run together
/// with the second run after the insertion into it.
pub proof fn lemma_inserted_into_merged(
    a: Seq<Operation>,
    b: Seq<Operation>,
    op: Operation,
    with_kind: bool,
)
    ensures
        inserted(merged(a, b, with_kind), op, with_kind) == merged(
            a,
            inserted(b, op, with_kind),
            with_kind,
        ),
    decreases a.len() + b.len(),
{
    let key = sort_key(op, with_kind);
    if a.len() == 0 {
    } else if b.len() == 0 {
        let one = b.push(op);
        assert(one.drop_last() =~= b);
        assert(one.last() == op);
        assert(inserted(b, op, with_kind) == one);
        if sort_key(a.last(), with_kind) > key {
            lemma_inserted_into_merged(a.drop_last(), b, op, with_kind);
            assert(merged(a.drop_last(), b, with_kind) =~= a.drop_last());
        }
    } else {
        let la = sort_key(a.last(), with_kind);
        let lb = sort_key(b.last(), with_kind);
        if lb <= key {
            let longer = b.push(op);
            assert(longer.drop_last() =~= b);
            assert(longer.last() == op);
            assert(inserted(b, op, with_kind) == longer);
            if la > key {
                let head = merged(a.drop_last(), b, with_kind);
                assert(head.push(a.last()).drop_last() =~= head);
                lemma_inserted_into_merged(a.drop_last(), b, op, with_kind);
            } else {
                lemma_merged_last(a, b, with_kind);
            }
        } else {
            let later = inserted(b.drop_last(), op, with_kind);
            let longer = later.push(b.last());
            assert(longer.drop_last() =~= later);
            assert(longer.last() == b.last());
            assert(inserted(b, op, with_kind) == longer);
            if la > lb {
                let head = merged(a.drop_last(), b, with_kind);
                assert(head.push(a.last()).drop_last() =~= head);
                lemma_inserted_into_merged(a.drop_last(), b, op, with_kind);
            } else {
                let head = merged(a, b.drop_last(), with_kind);
                assert(head.push(b.last()).drop_last() =~= head);
                lemma_inserted_into_merged(a, b.drop_last(), op, with_kind);
            }
        }
    }
}

/// Sorting two runs and putting them together sorts the two of them put end
/// to end.
pub proof fn lemma_merged_sorts(a: Seq<Operation>, b: Seq<Operation>, with_kind: bool)
    ensures
        merged(stable_sorted(a, with_kind), stable_sorted(b, with_kind), with_kind)
            == stable_sorted(a + b, with_kind),
    decreases b.len(),
{
    let first = stable_sorted(a, with_kind);
    if b.len() == 0 {
        assert(a + b =~= a);
    } else {
        lemma_merged_sorts(a, b.drop_last(), with_kind);
        lemma_inserted_into_merged(
            first,
            stable_sorted(b.drop_last(), with_kind),
            b.last(),
            with_kind,
        );
        assert((a + b).drop_last() =~= a + b.drop_last());
    }
}

/// Puts two runs together as [`merged`] says.
fn merge(left: Vec<Operation>, right: Vec<Operation>, with_kind: bool) -> (out: Vec<Operation>)
    ensures
        out@ == merged(left@, right@, with_kind),
{
    let ghost whole = merged(left@, right@, with_kind);
    let mut left = left;
    let mut right = right;
    // The greatest operation is taken first, so the run is built back to front.
    let mut backwards: Vec<Operation> = Vec::new();
    let ghost mut tail: Seq<Operation> = Seq::empty();
    while left.len() > 0 || right.len() > 0
        invariant
            whole == merged(left@, right@, with_kind) + tail,
            backwards@.len() == tail.len(),
            forall|i: int|
                0 <= i < tail.len() ==> backwards@[i] == #[trigger] tail[tail.len() - 1 - i],
        decreases left.len() + right.len(),
    {
        let from_left = if right.len() == 0 {
            true
        } else if left.len() == 0 {
            false
        } else {
            comes_after(&left[left.len() - 1], &right[right.len() - 1], with_kind)
        };
        let ghost before = merged(left@, right@, with_kind);
        let taken = if from_left {
            left.pop()
        } else {
            right.pop()
        };
        if let Some(op) = taken {
            proof {
                assert(before =~= merged(left@, right@, with_kind).push(op));
                assert(whole =~= merged(left@, right@, with_kind) + (seq![op] + tail));
                let longer = seq![op] + tail;
                assert forall|i: int| 0 <= i < longer.len() implies backwards@.push(op)[i]
                    == #[trigger] longer[longer.len() - 1 - i] by {
                    if i < tail.len() {
                        assert(backwards@[i] == tail[tail.len() - 1 - i]);
                    }
                }
                tail = longer;
            }
            backwards.push(op);
        }
    }
    assert(whole =~= tail);
    let mut out: Vec<Operation> = Vec::new();
    while backwards.len() > 0
        invariant
            out@.len() + backwards@.len() == tail.len(),
            out@ == tail.take(out@.len() as int),
            forall|i: int|
                0 <= i < backwards@.len() ==> backwards@[i] == #[trigger] tail[tail.len() - 1 - i],
        decreases backwards.len(),
    {
        let ghost place = out@.len() as int;
        let ghost rest = backwards@;
        if let Some(op) = backwards.pop() {
            proof {
                assert(op == rest[rest.len() - 1]);
                assert(op == tail[tail.len() - 1 - (rest.len() - 1)]);
                assert(tail.take(place + 1) =~= tail.take(place).push(op));
                assert forall|i: int| 0 <= i < backwards@.len() implies backwards@[i]
                    == #[trigger] tail[tail.len() - 1 - i] by {
                    assert(backwards@[i] == rest[i]);
                }
            }
            out.push(op);
        }
    }
    assert(out@ =~= tail);
    out
}

/// Sorts a run by halving it, sorting the halves and putting them together.
fn merge_sorted(v: Vec<Operation>, with_kind: bool) -> (r: Vec<Operation>)
    ensures
        r@ == stable_sorted(v@, with_kind),
    decreases v@.len(),
{
    if v.len() <= 1 {
        proof {
            if v@.len() == 1 {
                assert(v@.drop_last().len() == 0);
                assert(stable_sorted(v@.drop_last(), with_kind) =~= Seq::<Operation>::empty());
                assert(v@ =~= Seq::<Operation>::empty().push(v@.last()));
            }
        }
        return v;
    }
    let ghost whole = v@;
    let middle = v.len() / 2;
    let mut left = v;
    let right = left.split_off(middle);
    proof {
        assert(whole =~= left@ + right@);
        lemma_merged_sorts(left@, right@, with_kind);
    }
    let first = merge_sorted(left, with_kind);
    let second = merge_sorted(right, with_kind);
    merge(first, second, with_kind)
}

/// Sorts the operations by date, and with `with_kind` those of one day by
/// kind; operations that the order does not tell apart keep their places
/// relative to each other.
pub fn sort_operations(v: &mut Vec<Operation>, with_kind: bool)
    ensures
        final(v)@ == stable_sorted(old(v)@, with_kind),
{
    let mut taken: Vec<Operation> = Vec::new();
    std::mem::swap(v, &mut taken);
    let mut sorted = merge_sorted(taken, with_kind);
    std::mem::swap(v, &mut sorted);
}

} // verus!
