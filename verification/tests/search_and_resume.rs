use codexi::{
    Codexi, CodexiError, Date, OperationFlow, OperationKind, RegularKind, SearchFilter, SearchItem,
    SystemKind,
};

const TRANSACTION: OperationKind = OperationKind::Regular(RegularKind::Transaction);

fn units(figure: f64) -> u64 {
    (figure * 10_000.0).round() as u64
}

fn figure(balance: i64) -> f64 {
    balance as f64 / 10_000.0
}

fn date(year: i32, month: u32, day: u32) -> Date {
    Date { year, month, day }
}

fn some(text: &str) -> Option<String> {
    Some(text.to_string())
}

/// Ten transactions; in stored order:
/// 0 Book, 1 Atm, 2 Post office, 3 Fruits, 4 Atm, 5 Bakery, 6 Newspapers,
/// 7 Minimarket, 8 Refund, 9 Atm.
fn ledger() -> Codexi {
    let mut cb = Codexi::default();
    let rows = [
        (OperationFlow::Credit, "2025-11-05", 100.0, "Atm"),
        (OperationFlow::Credit, "2025-10-08", 50.0, "Atm"),
        (OperationFlow::Debit, "2025-12-05", 25.50, "Minimarket"),
        (OperationFlow::Debit, "2025-10-04", 14.20, "Book"),
        (OperationFlow::Debit, "2025-10-21", 44.80, "Post office"),
        (OperationFlow::Credit, "2025-12-15", 150.0, "Atm"),
        (OperationFlow::Debit, "2025-11-12", 15.70, "Bakery"),
        (OperationFlow::Debit, "2025-10-21", 11.00, "Fruits"),
        (OperationFlow::Credit, "2025-12-10", 10.0, "Refund"),
        (OperationFlow::Debit, "2025-11-20", 23.60, "Newspapers"),
    ];
    for (flow, day, amount, text) in rows {
        cb.add_operation(TRANSACTION, flow, day, units(amount), text).unwrap();
    }
    cb
}

fn indices(items: &[SearchItem]) -> Vec<usize> {
    items.iter().map(|item| item.index).collect()
}

fn find(
    codexi: &Codexi,
    text: Option<&str>,
    kind: Option<&str>,
    flow: Option<&str>,
    day: Option<&str>,
) -> Vec<usize> {
    let items = codexi
        .search(
            None,
            None,
            text.map(str::to_string),
            kind.map(str::to_string),
            flow.map(str::to_string),
            day.map(str::to_string),
            None,
            None,
            None,
        )
        .unwrap();
    indices(&items)
}

#[test]
fn a_search_without_conditions_finds_everything() {
    let codexi = ledger();
    let items = codexi.search(None, None, None, None, None, None, None, None, None).unwrap();
    assert_eq!(indices(&items), (0..10).collect::<Vec<usize>>());
    let names: Vec<&str> = items.iter().map(|item| item.op.description.as_str()).collect();
    assert_eq!(
        names,
        vec![
            "Book",
            "Atm",
            "Post office",
            "Fruits",
            "Atm",
            "Bakery",
            "Newspapers",
            "Minimarket",
            "Refund",
            "Atm"
        ]
    );
    let balances: Vec<f64> = items.iter().map(|item| figure(item.balance)).collect();
    assert_eq!(
        balances,
        vec![-14.20, 35.80, -9.00, -20.00, 80.00, 64.30, 40.70, 15.20, 25.20, 175.20]
    );
}

#[test]
fn searching_a_day_without_operations_finds_nothing() {
    let codexi = ledger();
    let items =
        codexi.search(None, None, None, None, None, some("2025-12-06"), None, None, None).unwrap();
    assert!(items.is_empty());
}

#[test]
fn searching_a_day() {
    let codexi = ledger();
    let items =
        codexi.search(None, None, None, None, None, some("2025-10-21"), None, None, None).unwrap();
    assert_eq!(indices(&items), vec![2, 3]);
    assert_eq!(items[0].op.date, date(2025, 10, 21));
    assert_eq!(figure(items[1].balance), -20.00);
}

#[test]
fn a_search_finds_text_whatever_the_case() {
    let codexi = ledger();
    assert_eq!(find(&codexi, Some("ATM"), None, None, None), vec![1, 4, 9]);
    assert_eq!(find(&codexi, Some("atm"), None, None, None), vec![1, 4, 9]);
    assert_eq!(find(&codexi, Some("o"), None, None, None), vec![0, 2]);
    assert_eq!(find(&codexi, Some("R"), None, None, None), vec![3, 5, 6, 7, 8]);
    assert_eq!(find(&codexi, Some("t o"), None, None, None), vec![2]);
    assert_eq!(find(&codexi, Some(""), None, None, None), (0..10).collect::<Vec<usize>>());
    assert_eq!(find(&codexi, Some("atms"), None, None, None), Vec::<usize>::new());
    assert_eq!(find(&codexi, Some(" atm"), None, None, None), Vec::<usize>::new());
}

#[test]
fn a_search_by_flow_and_kind() {
    let codexi = ledger();
    assert_eq!(find(&codexi, None, None, Some("cr"), None), vec![1, 4, 8, 9]);
    assert_eq!(find(&codexi, None, None, Some(" Debit "), None), vec![0, 2, 3, 5, 6, 7]);
    assert_eq!(find(&codexi, None, None, Some("none"), None), Vec::<usize>::new());
    assert_eq!(find(&codexi, None, Some("Transaction"), None, None).len(), 10);
    assert_eq!(find(&codexi, None, Some("trans"), Some("credit"), None), vec![1, 4, 8, 9]);
    assert_eq!(find(&codexi, None, Some("fee"), None, None), Vec::<usize>::new());
    assert_eq!(find(&codexi, Some("atm"), Some("trans"), Some("cr"), Some("2025-11-05")), vec![4]);
}

#[test]
fn a_filter_that_cannot_be_read_finds_nothing() {
    let codexi = ledger();
    assert_eq!(find(&codexi, None, Some("salary"), None, None), Vec::<usize>::new());
    assert_eq!(find(&codexi, None, None, Some("both"), None), Vec::<usize>::new());
    assert_eq!(find(&codexi, None, None, None, Some("2025-10")), Vec::<usize>::new());
    assert_eq!(find(&codexi, None, None, None, Some("21 October")), Vec::<usize>::new());
}

#[test]
fn a_bound_that_cannot_be_read_is_an_error() {
    let codexi = ledger();
    let bad_from = codexi.search(some("soon"), None, None, None, None, None, None, None, None);
    assert_eq!(bad_from.unwrap_err(), CodexiError::InvalidDate);
    let bad_to =
        codexi.search(None, some("2025-13"), None, some("salary"), None, None, None, None, None);
    assert_eq!(bad_to.unwrap_err(), CodexiError::InvalidDate);
}

#[test]
fn a_search_between_bounds() {
    let codexi = ledger();
    let between = |from: Option<&str>, to: Option<&str>| {
        let items = codexi
            .search(
                from.map(str::to_string),
                to.map(str::to_string),
                None,
                None,
                None,
                None,
                None,
                None,
                None,
            )
            .unwrap();
        indices(&items)
    };
    assert_eq!(between(Some("2025-11"), Some("2025-11")), vec![4, 5, 6]);
    assert_eq!(between(Some("2025-10-21"), Some("2025-11-05")), vec![2, 3, 4]);
    assert_eq!(between(Some("2025-12-06"), None), vec![8, 9]);
    assert_eq!(between(None, Some("2025-10-08")), vec![0, 1]);
    assert_eq!(between(Some("2025"), Some("2025")).len(), 10);
    assert_eq!(between(Some("2026"), None), Vec::<usize>::new());
    assert_eq!(between(Some("2025-12"), Some("2025-10")), Vec::<usize>::new());
}

#[test]
fn a_search_by_amount_takes_the_bounds_in() {
    let codexi = ledger();
    let amounts = |least: Option<f64>, most: Option<f64>| {
        let items = codexi
            .search(None, None, None, None, None, None, least.map(units), most.map(units), None)
            .unwrap();
        indices(&items)
    };
    assert_eq!(amounts(Some(44.80), Some(100.0)), vec![1, 2, 4]);
    assert_eq!(amounts(Some(100.01), None), vec![9]);
    assert_eq!(amounts(None, Some(11.0)), vec![3, 8]);
    assert_eq!(amounts(Some(151.0), None), Vec::<usize>::new());
    assert_eq!(amounts(Some(20.0), Some(10.0)), Vec::<usize>::new());
    // Debits are found by their magnitude.
    assert_eq!(amounts(Some(25.50), Some(25.50)), vec![7]);
}

#[test]
fn the_latest_of_a_search() {
    let codexi = ledger();
    let latest = |n: usize| {
        let items =
            codexi.search(None, None, some("atm"), None, None, None, None, None, Some(n)).unwrap();
        indices(&items)
    };
    assert_eq!(latest(0), Vec::<usize>::new());
    assert_eq!(latest(1), vec![9]);
    assert_eq!(latest(2), vec![4, 9]);
    assert_eq!(latest(3), vec![1, 4, 9]);
    assert_eq!(latest(4), vec![1, 4, 9]);
    assert_eq!(latest(usize::MAX), vec![1, 4, 9]);
    let items =
        codexi.search(None, None, some("atm"), None, None, None, None, None, Some(2)).unwrap();
    assert_eq!(figure(items[0].balance), 80.00);
    assert_eq!(figure(items[1].balance), 175.20);
}

#[test]
fn a_search_with_a_filter_made_by_hand() {
    let codexi = ledger();
    let mut filter = SearchFilter::none();
    assert_eq!(codexi.search_with(&filter, None).len(), 10);
    filter.flow = Some(OperationFlow::Debit);
    filter.from = Some(date(2025, 11, 1));
    filter.amount_max = Some(units(24.0));
    assert_eq!(indices(&codexi.search_with(&filter, None)), vec![5, 6]);
    assert_eq!(indices(&codexi.search_with(&filter, Some(1))), vec![6]);
    filter.text = Some("NEWS".to_string());
    assert_eq!(indices(&codexi.search_with(&filter, None)), vec![6]);
    filter.kind = Some(OperationKind::System(SystemKind::Init));
    assert!(codexi.search_with(&filter, None).is_empty());
    assert!(Codexi::default().search_with(&SearchFilter::none(), Some(3)).is_empty());
}

#[test]
fn the_summary_of_plain_transactions() {
    let codexi = ledger();
    let resume = codexi.resume().unwrap();
    assert_eq!(resume.current_nb_transaction, 10);
    assert_eq!(resume.current_nb_init, 0);
    assert_eq!(resume.current_nb_adjust, 0);
    assert_eq!(resume.current_nb_close, 0);
    assert_eq!(resume.current_nb_op, 10);
    assert_eq!(figure(resume.current_balance), 175.20);
    assert_eq!(resume.latest_transaction_date, "2025-12-15");
    assert_eq!(resume.latest_init_date, "__________");
    assert_eq!(resume.latest_adjust_date, "__________");
    assert_eq!(resume.latest_close_date, "__________");
    let copy = resume.clone();
    assert_eq!(copy.latest_transaction_date, "2025-12-15");
    assert_eq!(copy.current_nb_op, 10);
}

#[test]
fn the_summary_of_an_empty_ledger() {
    let resume = Codexi::default().resume().unwrap();
    assert_eq!(resume.current_nb_op, 0);
    assert_eq!(resume.current_balance, 0);
    assert_eq!(resume.latest_transaction_date, "__________");
    assert_eq!(resume.latest_close_date, "__________");
}

#[test]
fn the_summary_counts_anchors_and_leaves_other_kinds_out() {
    let mut codexi = Codexi::default();
    let fee = OperationKind::Regular(RegularKind::Fee);
    let transfer = OperationKind::Regular(RegularKind::Transfer);
    codexi.initialize(units(500.0) as i64, "2024-01-01").unwrap();
    codexi.add_operation(TRANSACTION, OperationFlow::Debit, "2024-01-10", units(20.0), "a").unwrap();
    codexi.close_period("2024-01-31", Vec::new()).unwrap();
    codexi.add_operation(TRANSACTION, OperationFlow::Debit, "2024-03-03", units(5.0), "b").unwrap();
    codexi.add_operation(fee, OperationFlow::Debit, "2024-04-01", units(1.0), "c").unwrap();
    codexi.add_operation(transfer, OperationFlow::Credit, "2024-05-01", units(2.0), "d").unwrap();
    codexi.adjust_balance(units(480.0) as i64, "2024-02-15").unwrap();
    codexi.adjust_balance(units(470.0) as i64, "2024-02-10").unwrap_err();
    codexi.adjust_balance(units(470.0) as i64, "2024-02-20").unwrap();
    codexi.add_operation(TRANSACTION, OperationFlow::Credit, "2024-02-25", units(7.0), "e").unwrap();
    let resume = codexi.resume().unwrap();
    assert_eq!(resume.current_nb_transaction, 2);
    assert_eq!(resume.current_nb_init, 0);
    assert_eq!(resume.current_nb_adjust, 2);
    assert_eq!(resume.current_nb_close, 1);
    assert_eq!(resume.current_nb_op, 5);
    assert_eq!(codexi.operations.len(), 7);
    assert_eq!(figure(resume.current_balance), 477.0);
    assert_eq!(resume.latest_transaction_date, "2024-03-03");
    assert_eq!(resume.latest_init_date, "__________");
    assert_eq!(resume.latest_adjust_date, "2024-02-20");
    assert_eq!(resume.latest_close_date, "2024-01-31");
}

#[test]
fn the_latest_date_of_a_kind() {
    let codexi = ledger();
    assert_eq!(codexi.latest_date_of(TRANSACTION, TRANSACTION), Some(date(2025, 12, 15)));
    let init = OperationKind::System(SystemKind::Init);
    let adjust = OperationKind::System(SystemKind::Adjust);
    assert_eq!(codexi.latest_date_of(init, adjust), None);
    assert_eq!(codexi.latest_date_of(init, TRANSACTION), Some(date(2025, 12, 15)));
    assert_eq!(codexi.total_of_amounts(), units(444.80));
}
