use codexi::{
    Codexi, CodexiError, Date, Operation, OperationFlow, OperationKind, RegularKind, SystemKind,
};

const TRANSACTION: OperationKind = OperationKind::Regular(RegularKind::Transaction);
const CLOSE: OperationKind = OperationKind::System(SystemKind::Close);
const INIT: OperationKind = OperationKind::System(SystemKind::Init);

fn units(figure: f64) -> u64 {
    (figure * 10_000.0).round() as u64
}

fn figure(balance: i64) -> f64 {
    balance as f64 / 10_000.0
}

fn date(year: i32, month: u32, day: u32) -> Date {
    Date { year, month, day }
}

fn op(kind: OperationKind, flow: OperationFlow, day: &str, amount: f64, text: &str) -> Operation {
    Operation::new(kind, flow, day, units(amount), text).unwrap()
}

fn words(parts: &[&str]) -> Vec<String> {
    parts.iter().map(|p| p.to_string()).collect()
}

fn descriptions(operations: &[Operation]) -> Vec<&str> {
    operations.iter().map(|op| op.description.as_str()).collect()
}

fn july_ledger() -> Codexi {
    let mut codexi = Codexi::default();
    codexi.initialize(10_000_000, "2024-07-01").unwrap();
    codexi.add_operation(TRANSACTION, OperationFlow::Credit, "2024-07-05", units(50.0), "x").unwrap();
    codexi.add_operation(TRANSACTION, OperationFlow::Debit, "2024-07-10", units(30.0), "y").unwrap();
    codexi.add_operation(TRANSACTION, OperationFlow::Credit, "2024-08-02", units(5.0), "z").unwrap();
    codexi
}

#[test]
fn closing_archives_the_past_and_carries_the_balance_forward() {
    let mut codexi = july_ledger();
    let archived = codexi.close_period("2024-07-31", words(&["End", "of", "July"])).unwrap();
    assert_eq!(descriptions(&archived), vec!["INITIAL AMOUNT", "x", "y"]);
    assert_eq!(codexi.operations.len(), 2);
    let anchor = &codexi.operations[0];
    assert_eq!(anchor.kind, CLOSE);
    assert_eq!(anchor.flow, OperationFlow::Credit);
    assert_eq!(anchor.amount, units(1020.00));
    assert_eq!(anchor.date, date(2024, 7, 31));
    assert_eq!(anchor.description, "SOLDE REPORTÉ : 1020 End of July");
    assert_eq!(codexi.operations[1].description, "z");
    let closes = codexi.operations.iter().filter(|op| op.kind == CLOSE).count();
    assert_eq!(closes, 1);
    let balance = codexi.balance(None, None, None, None, None).unwrap();
    assert_eq!(figure(balance.total), 1025.00);
}

#[test]
fn closing_without_words_leaves_no_blank_behind() {
    let mut codexi = july_ledger();
    codexi.close_period("2024-07-31", Vec::new()).unwrap();
    assert_eq!(codexi.operations[0].description, "SOLDE REPORTÉ : 1020");
    let mut codexi = july_ledger();
    codexi.close_period("2024-07-09", words(&["mid"])).unwrap();
    assert_eq!(codexi.operations[0].description, "SOLDE REPORTÉ : 1050 mid");
    assert_eq!(descriptions(&codexi.operations)[1..], ["y", "z"]);
}

#[test]
fn the_closing_date_itself_is_closed() {
    let mut codexi = july_ledger();
    let archived = codexi.close_period("2024-07-10", Vec::new()).unwrap();
    assert_eq!(descriptions(&archived), vec!["INITIAL AMOUNT", "x", "y"]);
    assert_eq!(
        codexi.add_operation(TRANSACTION, OperationFlow::Credit, "2024-07-10", 1, "late"),
        Err(CodexiError::DateConflict)
    );
    assert_eq!(
        codexi.add_operation(TRANSACTION, OperationFlow::Credit, "2024-07-01", 1, "late"),
        Err(CodexiError::DateConflict)
    );
    assert_eq!(codexi.operations.len(), 2);
    codexi.add_operation(TRANSACTION, OperationFlow::Credit, "2024-07-11", 1, "next").unwrap();
    assert_eq!(descriptions(&codexi.operations)[1..], ["next", "z"]);
}

#[test]
fn closing_again_takes_the_earlier_closing_as_its_start() {
    let mut codexi = july_ledger();
    codexi.close_period("2024-07-31", Vec::new()).unwrap();
    codexi.add_operation(TRANSACTION, OperationFlow::Debit, "2024-08-10", units(25.0), "w").unwrap();
    let archived = codexi.close_period("2024-08-31", words(&["August"])).unwrap();
    assert_eq!(descriptions(&archived), vec!["SOLDE REPORTÉ : 1020", "z", "w"]);
    assert_eq!(codexi.operations.len(), 1);
    assert_eq!(codexi.operations[0].amount, units(1000.00));
    assert_eq!(codexi.operations[0].flow, OperationFlow::Credit);
    assert_eq!(codexi.operations[0].description, "SOLDE REPORTÉ : 1000 August");
}

#[test]
fn closing_an_empty_ledger_does_nothing() {
    let mut codexi = Codexi::default();
    let archived = codexi.close_period("2024-07-31", words(&["x"])).unwrap();
    assert!(archived.is_empty());
    assert!(codexi.operations.is_empty());
}

#[test]
fn closing_before_everything_does_nothing_without_an_anchor() {
    let mut codexi = Codexi::default();
    codexi.add_operation(TRANSACTION, OperationFlow::Credit, "2024-07-05", units(50.0), "x").unwrap();
    codexi.add_operation(TRANSACTION, OperationFlow::Debit, "2024-07-10", units(30.0), "y").unwrap();
    let archived = codexi.close_period("2024-07-04", Vec::new()).unwrap();
    assert!(archived.is_empty());
    assert_eq!(descriptions(&codexi.operations), vec!["x", "y"]);
}

#[test]
fn closing_before_an_opening_balance_sets_an_empty_anchor() {
    let mut codexi = july_ledger();
    let archived = codexi.close_period("2024-06-30", Vec::new()).unwrap();
    assert!(archived.is_empty());
    assert_eq!(codexi.operations.len(), 5);
    let anchor = &codexi.operations[0];
    assert_eq!(anchor.kind, CLOSE);
    assert_eq!(anchor.flow, OperationFlow::Neutral);
    assert_eq!(anchor.amount, 0);
    assert_eq!(anchor.date, date(2024, 6, 30));
    assert_eq!(anchor.description, "SOLDE REPORTÉ : 0");
    assert_eq!(descriptions(&codexi.operations)[1..], ["INITIAL AMOUNT", "x", "y", "z"]);
}

#[test]
fn a_closing_needs_a_date() {
    let mut codexi = july_ledger();
    for text in ["2024-07", "2024-02-30", "", "31-07-2024"] {
        match codexi.close_period(text, Vec::new()) {
            Err(e) => assert_eq!(e, CodexiError::InvalidDate),
            Ok(_) => panic!("closed at {:?}", text),
        }
    }
    assert_eq!(codexi.operations.len(), 4);
    match codexi.close_period_on(date(2024, 2, 30), &Vec::new()) {
        Err(e) => assert_eq!(e, CodexiError::InvalidDate),
        Ok(_) => panic!("closed on a day that does not exist"),
    }
    assert_eq!(codexi.operations.len(), 4);
}

#[test]
fn an_anchor_among_the_archived_resets_the_balance() {
    let mut codexi = Codexi::from_operations(vec![
        op(TRANSACTION, OperationFlow::Credit, "2024-01-01", 50.0, "before"),
        op(INIT, OperationFlow::Credit, "2024-01-02", 100.0, "opening"),
        op(TRANSACTION, OperationFlow::Debit, "2024-01-03", 30.0, "after"),
    ])
    .unwrap();
    let archived = codexi.close_period("2024-01-31", Vec::new()).unwrap();
    assert_eq!(archived.len(), 3);
    assert_eq!(codexi.operations.len(), 1);
    // 100 - 30: what came before the opening balance is not carried.
    assert_eq!(codexi.operations[0].amount, units(70.0));
    assert_eq!(codexi.operations[0].flow, OperationFlow::Credit);
}

#[test]
fn a_neutral_anchor_resets_the_balance_to_nothing() {
    let mut codexi = Codexi::from_operations(vec![
        op(TRANSACTION, OperationFlow::Credit, "2024-01-01", 50.0, "before"),
        op(CLOSE, OperationFlow::Neutral, "2024-01-02", 0.0, "nothing carried"),
        op(TRANSACTION, OperationFlow::Credit, "2024-01-03", 30.0, "after"),
    ])
    .unwrap();
    codexi.close_period("2024-01-31", Vec::new()).unwrap();
    assert_eq!(codexi.operations[0].amount, units(30.0));
}

#[test]
fn a_negative_balance_is_carried_as_a_debit() {
    let mut codexi = Codexi::from_operations(vec![
        op(TRANSACTION, OperationFlow::Credit, "2024-01-01", 10.0, "in"),
        op(TRANSACTION, OperationFlow::Debit, "2024-01-02", 30.5, "out"),
        op(TRANSACTION, OperationFlow::Credit, "2024-02-01", 1.0, "later"),
    ])
    .unwrap();
    let archived = codexi.close_period("2024-01-31", words(&["January"])).unwrap();
    assert_eq!(descriptions(&archived), vec!["in", "out"]);
    let anchor = &codexi.operations[0];
    assert_eq!(anchor.flow, OperationFlow::Debit);
    assert_eq!(anchor.amount, units(20.5));
    assert_eq!(anchor.description, "SOLDE REPORTÉ : 20.5 January");
    let balance = codexi.balance(None, None, None, None, None).unwrap();
    assert_eq!(figure(balance.total), -19.5);
}

#[test]
fn after_a_closing_the_operations_of_one_day_stand_by_kind() {
    let refund = OperationKind::Regular(RegularKind::Refund);
    let fee = OperationKind::Regular(RegularKind::Fee);
    let adjust = OperationKind::System(SystemKind::Adjust);
    let mut codexi = Codexi::from_operations(vec![
        op(TRANSACTION, OperationFlow::Credit, "2024-01-01", 10.0, "old"),
        op(refund, OperationFlow::Credit, "2024-02-02", 1.0, "refund"),
        op(TRANSACTION, OperationFlow::Credit, "2024-02-02", 1.0, "t1"),
        op(fee, OperationFlow::Credit, "2024-02-01", 1.0, "fee"),
        op(TRANSACTION, OperationFlow::Credit, "2024-02-02", 1.0, "t2"),
        op(adjust, OperationFlow::Credit, "2024-02-02", 1.0, "adjust"),
    ])
    .unwrap();
    codexi.close_period("2024-01-31", Vec::new()).unwrap();
    assert_eq!(
        descriptions(&codexi.operations),
        vec!["SOLDE REPORTÉ : 10", "fee", "adjust", "t1", "t2", "refund"]
    );
}

#[test]
fn the_words_of_a_closing_are_joined_by_blanks() {
    assert_eq!(codexi::closing::join_with_blanks(&words(&[])), "");
    assert_eq!(codexi::closing::join_with_blanks(&words(&["one"])), "one");
    assert_eq!(codexi::closing::join_with_blanks(&words(&["one", "two", "3"])), "one two 3");
    assert_eq!(codexi::closing::join_with_blanks(&words(&["", "x", ""])), " x ");
}

#[test]
fn a_ledger_knows_whether_it_holds_a_reset_anchor() {
    assert!(!Codexi::default().holds_reset_anchor());
    let mut codexi = july_ledger();
    assert!(codexi.holds_reset_anchor());
    codexi.close_period("2024-07-31", Vec::new()).unwrap();
    assert!(codexi.holds_reset_anchor());
    let mut plain = Codexi::default();
    plain.add_operation(TRANSACTION, OperationFlow::Credit, "2024-07-05", 1, "x").unwrap();
    plain.adjust_balance(50_000, "2024-07-06").unwrap();
    assert!(!plain.holds_reset_anchor());
}
