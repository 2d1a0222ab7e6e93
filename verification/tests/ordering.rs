use codexi::ordering::{comes_after, sort_operations};
use codexi::{Date, Operation, OperationFlow, OperationKind, RegularKind, SystemKind};

const KINDS: [OperationKind; 7] = [
    OperationKind::System(SystemKind::Init),
    OperationKind::System(SystemKind::Adjust),
    OperationKind::System(SystemKind::Close),
    OperationKind::Regular(RegularKind::Transaction),
    OperationKind::Regular(RegularKind::Fee),
    OperationKind::Regular(RegularKind::Transfer),
    OperationKind::Regular(RegularKind::Refund),
];

/// Operations of a few days and of all kinds, in an order that is fixed but
/// follows no rule; each is named by its place.
fn shuffled(count: usize) -> Vec<Operation> {
    let mut state: u64 = 0x2545_f491_4f6c_dd1d;
    let mut operations = Vec::new();
    for place in 0..count {
        state = state.wrapping_mul(6364136223846793005).wrapping_add(1442695040888963407);
        let day = 1 + ((state >> 33) % 9) as u32;
        let month = 1 + ((state >> 40) % 3) as u32;
        let kind = KINDS[((state >> 50) % 7) as usize];
        let date = Date { year: 2025, month, day };
        let name = format!("{}", place);
        operations.push(Operation::dated(kind, OperationFlow::Credit, date, place as u64, &name));
    }
    operations
}

fn names(operations: &[Operation]) -> Vec<String> {
    operations.iter().map(|op| op.description.clone()).collect()
}

#[test]
fn sorting_by_date_agrees_with_a_stable_sort() {
    for count in [0, 1, 2, 3, 7, 64, 257] {
        let mut sorted = shuffled(count);
        sort_operations(&mut sorted, false);
        let mut expected = shuffled(count);
        expected.sort_by_key(|op| op.date);
        assert_eq!(names(&sorted), names(&expected), "{} operations", count);
    }
}

#[test]
fn sorting_by_date_and_kind_agrees_with_a_stable_sort() {
    for count in [0, 1, 2, 5, 100, 300] {
        let mut sorted = shuffled(count);
        sort_operations(&mut sorted, true);
        let mut expected = shuffled(count);
        expected.sort_by_key(|op| (op.date, op.kind));
        assert_eq!(names(&sorted), names(&expected), "{} operations", count);
    }
}

#[test]
fn sorting_what_is_sorted_changes_nothing() {
    let mut sorted = shuffled(50);
    sort_operations(&mut sorted, true);
    let once = names(&sorted);
    sort_operations(&mut sorted, true);
    assert_eq!(names(&sorted), once);
    sort_operations(&mut sorted, false);
    assert_eq!(names(&sorted), once);
}

#[test]
fn the_order_of_two_operations() {
    let op = |kind: OperationKind, month: u32, day: u32| {
        Operation::dated(kind, OperationFlow::Credit, Date { year: 2025, month, day }, 1, "x")
    };
    let close = KINDS[2];
    let fee = KINDS[4];
    assert!(comes_after(&op(fee, 2, 1), &op(fee, 1, 31), false));
    assert!(!comes_after(&op(fee, 1, 31), &op(fee, 2, 1), false));
    assert!(!comes_after(&op(fee, 2, 1), &op(close, 2, 1), false));
    assert!(comes_after(&op(fee, 2, 1), &op(close, 2, 1), true));
    assert!(!comes_after(&op(close, 2, 1), &op(fee, 2, 1), true));
    assert!(!comes_after(&op(fee, 2, 1), &op(fee, 2, 1), true));
    assert!(comes_after(&op(close, 2, 2), &op(fee, 2, 1), true));
    assert!(!comes_after(&op(fee, 2, 1), &op(close, 2, 2), true));
}
