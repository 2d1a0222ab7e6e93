use codexi::amount::push_amount;
use codexi::helpers::{
    calculate_new_balance, month_bounds, parse_flexible_date_range, resolve_bound, round_to_2_dec,
};
use codexi::text::{
    ascii_lower_range, chars_of, contains_chars, find_char, lowercase_chars, pad_to_width,
    parse_i32, parse_u32, push_decimal, spells, to_ascii_lower_char, trim_bounds, truncate_desc,
};
use codexi::{
    CodexiError, Date, Operation, OperationError, OperationFlow, OperationKind, RegularKind,
    SystemKind,
};

fn date(year: i32, month: u32, day: u32) -> Date {
    Date { year, month, day }
}

fn chars(text: &str) -> Vec<char> {
    text.chars().collect()
}

fn amount_text(units: u64) -> String {
    let mut out = String::new();
    push_amount(&mut out, units);
    out
}

#[test]
fn chars_of_gives_every_character() {
    assert_eq!(chars_of("aé€😀"), vec!['a', 'é', '€', '😀']);
    assert_eq!(chars_of(""), Vec::<char>::new());
}

#[test]
fn trim_bounds_skip_white_space_on_both_sides() {
    assert_eq!(trim_bounds(&chars("  ab c \t\n")), (2, 6));
    assert_eq!(trim_bounds(&chars("abc")), (0, 3));
    assert_eq!(trim_bounds(&chars("\u{3000}x\u{a0}")), (1, 2));
    let (start, end) = trim_bounds(&chars(" \t "));
    assert_eq!(start, end);
    assert_eq!(trim_bounds(&chars("")), (0, 0));
}

#[test]
fn ascii_lower_case_leaves_other_letters_alone() {
    assert_eq!(to_ascii_lower_char('A'), 'a');
    assert_eq!(to_ascii_lower_char('Z'), 'z');
    assert_eq!(to_ascii_lower_char('m'), 'm');
    assert_eq!(to_ascii_lower_char('É'), 'É');
    assert_eq!(to_ascii_lower_char('['), '[');
    assert_eq!(to_ascii_lower_char('@'), '@');
    assert_eq!(ascii_lower_range(&chars("xABcÉ9"), 1, 5), chars("abcÉ"));
}

#[test]
fn unicode_lower_case_is_that_of_the_standard_library() {
    assert_eq!(lowercase_chars("ÉCOLE Atm"), chars("école atm"));
}

#[test]
fn spells_compares_whole_words() {
    assert!(spells(&chars("debit"), "debit"));
    assert!(!spells(&chars("debit"), "debi"));
    assert!(!spells(&chars("debi"), "debit"));
    assert!(!spells(&chars("debiT"), "debit"));
    assert!(spells(&chars(""), ""));
}

#[test]
fn substring_search() {
    assert!(contains_chars(&chars("post office"), &chars("office")));
    assert!(contains_chars(&chars("post office"), &chars("post")));
    assert!(contains_chars(&chars("post office"), &chars("t o")));
    assert!(contains_chars(&chars("post office"), &chars("")));
    assert!(contains_chars(&chars(""), &chars("")));
    assert!(!contains_chars(&chars("post office"), &chars("offices")));
    assert!(!contains_chars(&chars("post"), &chars("post office")));
    assert!(!contains_chars(&chars("aab"), &chars("aba")));
}

#[test]
fn integers_are_read_with_an_optional_sign() {
    let read_i32 = |text: &str| {
        let c = chars(text);
        parse_i32(&c, 0, c.len())
    };
    assert_eq!(read_i32("2025"), Some(2025));
    assert_eq!(read_i32("+2025"), Some(2025));
    assert_eq!(read_i32("-2025"), Some(-2025));
    assert_eq!(read_i32("0007"), Some(7));
    assert_eq!(read_i32("-0"), Some(0));
    assert_eq!(read_i32("2147483647"), Some(i32::MAX));
    assert_eq!(read_i32("-2147483648"), Some(i32::MIN));
    assert_eq!(read_i32("2147483648"), None);
    assert_eq!(read_i32("-2147483649"), None);
    assert_eq!(read_i32("99999999999999999999999999"), None);
    assert_eq!(read_i32(""), None);
    assert_eq!(read_i32("-"), None);
    assert_eq!(read_i32("+"), None);
    assert_eq!(read_i32("12a"), None);
    assert_eq!(read_i32(" 12"), None);
    assert_eq!(read_i32("1-2"), None);
    assert_eq!(read_i32("٣"), None);
}

#[test]
fn unsigned_integers_take_no_minus() {
    let read_u32 = |text: &str| {
        let c = chars(text);
        parse_u32(&c, 0, c.len())
    };
    assert_eq!(read_u32("11"), Some(11));
    assert_eq!(read_u32("+11"), Some(11));
    assert_eq!(read_u32("4294967295"), Some(u32::MAX));
    assert_eq!(read_u32("4294967296"), None);
    assert_eq!(read_u32("-11"), None);
    assert_eq!(read_u32("-0"), None);
    assert_eq!(read_u32(""), None);
    let c = chars("2025-11");
    assert_eq!(parse_i32(&c, 0, 4), Some(2025));
    assert_eq!(parse_u32(&c, 5, 7), Some(11));
}

#[test]
fn find_char_gives_the_first_place() {
    assert_eq!(find_char(&chars("2025-11-03"), '-'), 4);
    assert_eq!(find_char(&chars("-x"), '-'), 0);
    assert_eq!(find_char(&chars("2025"), '-'), 4);
    assert_eq!(find_char(&chars(""), '-'), 0);
}

#[test]
fn decimal_digits_of_numbers() {
    let text = |n: u64| {
        let mut out = String::from("n=");
        push_decimal(&mut out, n);
        out
    };
    assert_eq!(text(0), "n=0");
    assert_eq!(text(7), "n=7");
    assert_eq!(text(10), "n=10");
    assert_eq!(text(1020), "n=1020");
    assert_eq!(text(u64::MAX), "n=18446744073709551615");
}

#[test]
fn amounts_are_written_without_trailing_zeros() {
    assert_eq!(amount_text(0), "0");
    assert_eq!(amount_text(500_000), "50");
    assert_eq!(amount_text(255_000), "25.5");
    assert_eq!(amount_text(142_000), "14.2");
    assert_eq!(amount_text(10_200_100), "1020.01");
    assert_eq!(amount_text(10), "0.001");
    assert_eq!(amount_text(1), "0.0001");
    assert_eq!(amount_text(12_345), "1.2345");
    assert_eq!(amount_text(10_500), "1.05");
    assert_eq!(amount_text(u64::MAX), "1844674407370955.1615");
}

#[test]
fn rounding_to_hundredths_goes_away_from_zero_at_the_half() {
    assert_eq!(round_to_2_dec(0), 0);
    assert_eq!(round_to_2_dec(12_300), 12_300);
    assert_eq!(round_to_2_dec(12_349), 12_300);
    assert_eq!(round_to_2_dec(12_350), 12_400);
    assert_eq!(round_to_2_dec(12_399), 12_400);
    assert_eq!(round_to_2_dec(49), 0);
    assert_eq!(round_to_2_dec(50), 100);
    assert_eq!(round_to_2_dec(-49), 0);
    assert_eq!(round_to_2_dec(-50), -100);
    assert_eq!(round_to_2_dec(-12_349), -12_300);
    assert_eq!(round_to_2_dec(-12_350), -12_400);
    assert_eq!(round_to_2_dec(-255_000), -255_000);
    assert_eq!(round_to_2_dec(i64::MAX), 9_223_372_036_854_775_800);
    assert_eq!(round_to_2_dec(i64::MIN), -9_223_372_036_854_775_800);
}

#[test]
fn a_new_balance_follows_the_flow() {
    let op = |flow: OperationFlow, amount: u64| {
        Operation::dated(
            OperationKind::Regular(RegularKind::Transaction),
            flow,
            date(2025, 1, 1),
            amount,
            "x",
        )
    };
    assert_eq!(calculate_new_balance(1_000, &op(OperationFlow::Credit, 250)), Ok(1_250));
    assert_eq!(calculate_new_balance(1_000, &op(OperationFlow::Debit, 250)), Ok(750));
    assert_eq!(calculate_new_balance(100, &op(OperationFlow::Debit, 250)), Ok(-150));
    assert_eq!(calculate_new_balance(1_000, &op(OperationFlow::Neutral, 250)), Ok(1_000));
    assert_eq!(
        calculate_new_balance(i64::MAX, &op(OperationFlow::Credit, 1)),
        Err(CodexiError::AmountOverflow)
    );
    assert_eq!(
        calculate_new_balance(i64::MIN, &op(OperationFlow::Debit, 1)),
        Err(CodexiError::AmountOverflow)
    );
    assert_eq!(
        calculate_new_balance(-1, &op(OperationFlow::Debit, u64::MAX)),
        Err(CodexiError::AmountOverflow)
    );
    assert_eq!(calculate_new_balance(i64::MAX, &op(OperationFlow::Debit, 1)), Ok(i64::MAX - 1));
}

#[test]
fn dates_are_read_from_text() {
    assert_eq!(Date::parse("2024-07-01"), Some(date(2024, 7, 1)));
    assert_eq!(Date::parse("2024-02-29"), Some(date(2024, 2, 29)));
    assert_eq!(Date::parse("2023-02-29"), None);
    assert_eq!(Date::parse("2024-13-01"), None);
    assert_eq!(Date::parse("2024-07"), None);
    assert_eq!(Date::parse("2024"), None);
    assert_eq!(Date::parse("01/07/2024"), None);
    assert_eq!(Date::parse(""), None);
}

#[test]
fn dates_are_written_as_text() {
    assert_eq!(date(2024, 7, 1).to_text(), "2024-07-01");
    assert_eq!(date(1999, 12, 31).to_text(), "1999-12-31");
}

#[test]
fn dates_are_held_against_the_calendar() {
    assert_eq!(Date::from_ymd(2024, 2, 29), Some(date(2024, 2, 29)));
    assert_eq!(Date::from_ymd(2023, 2, 29), None);
    assert_eq!(Date::from_ymd(1900, 2, 29), None);
    assert_eq!(Date::from_ymd(2000, 2, 29), Some(date(2000, 2, 29)));
    assert_eq!(Date::from_ymd(2024, 4, 31), None);
    assert_eq!(Date::from_ymd(2024, 0, 1), None);
    assert_eq!(Date::from_ymd(2024, 1, 0), None);
    assert_eq!(Date::from_ymd(2024, 13, 1), None);
    assert_eq!(Date::from_ymd(262_142, 12, 31), Some(date(262_142, 12, 31)));
    assert_eq!(Date::from_ymd(262_143, 1, 1), None);
    assert_eq!(Date::from_ymd(-262_143, 1, 1), Some(date(-262_143, 1, 1)));
    assert_eq!(Date::from_ymd(-262_144, 12, 31), None);
}

#[test]
fn dates_compare_as_the_calendar_does() {
    assert!(date(2024, 12, 31).is_before(&date(2025, 1, 1)));
    assert!(date(2025, 1, 31).is_before(&date(2025, 2, 1)));
    assert!(date(2025, 2, 1).is_before(&date(2025, 2, 2)));
    assert!(!date(2025, 2, 2).is_before(&date(2025, 2, 2)));
    assert!(!date(2025, 2, 2).is_after(&date(2025, 2, 2)));
    assert!(date(2025, 2, 3).is_after(&date(2025, 2, 2)));
    assert!(date(-1, 12, 31).is_before(&date(0, 1, 1)));
    assert!(date(2024, 12, 31) < date(2025, 1, 1));
}

#[test]
fn the_last_day_of_a_month() {
    assert_eq!(date(2024, 2, 1).last_of_month(), Some(date(2024, 2, 29)));
    assert_eq!(date(2023, 2, 10).last_of_month(), Some(date(2023, 2, 28)));
    assert_eq!(date(2025, 12, 1).last_of_month(), Some(date(2025, 12, 31)));
    assert_eq!(date(2025, 4, 30).last_of_month(), Some(date(2025, 4, 30)));
    assert_eq!(date(262_142, 11, 1).last_of_month(), Some(date(262_142, 11, 30)));
    assert_eq!(date(262_142, 12, 1).last_of_month(), None);
}

#[test]
fn month_bounds_of_a_month_text() {
    assert_eq!(month_bounds("2025-11"), Ok((date(2025, 11, 1), date(2025, 11, 30))));
    assert_eq!(month_bounds("2024-02"), Ok((date(2024, 2, 1), date(2024, 2, 29))));
    assert_eq!(month_bounds("2025-12"), Ok((date(2025, 12, 1), date(2025, 12, 31))));
    assert_eq!(month_bounds("2025-13"), Err(CodexiError::InvalidDate));
    assert_eq!(month_bounds("2025"), Err(CodexiError::InvalidDate));
    assert_eq!(month_bounds("2025-11-03"), Err(CodexiError::InvalidDate));
    assert_eq!(month_bounds(""), Err(CodexiError::InvalidDate));
}

#[test]
fn flexible_dates_name_a_day_a_month_or_a_year() {
    assert_eq!(parse_flexible_date_range("2025-12-04", true), Ok(date(2025, 12, 4)));
    assert_eq!(parse_flexible_date_range("2025-12-04", false), Ok(date(2025, 12, 4)));
    assert_eq!(parse_flexible_date_range("2025-02", true), Ok(date(2025, 2, 1)));
    assert_eq!(parse_flexible_date_range("2025-02", false), Ok(date(2025, 2, 28)));
    assert_eq!(parse_flexible_date_range("2025", true), Ok(date(2025, 1, 1)));
    assert_eq!(parse_flexible_date_range("2025", false), Ok(date(2025, 12, 31)));
    assert_eq!(parse_flexible_date_range("-44", true), Ok(date(-44, 1, 1)));
    assert_eq!(parse_flexible_date_range("400000", true), Err(CodexiError::InvalidDate));
    assert_eq!(parse_flexible_date_range("next week", false), Err(CodexiError::InvalidDate));
    assert_eq!(parse_flexible_date_range("", true), Err(CodexiError::InvalidDate));
}

#[test]
fn the_bound_is_chosen_day_first_then_month_then_year() {
    let day = date(2025, 3, 4);
    let month = (date(2025, 3, 1), date(2025, 3, 31));
    let year = date(2025, 12, 31);
    assert_eq!(resolve_bound(Some(day), Some(month), Some(year), false), Ok(day));
    assert_eq!(resolve_bound(None, Some(month), Some(year), true), Ok(month.0));
    assert_eq!(resolve_bound(None, Some(month), Some(year), false), Ok(month.1));
    assert_eq!(resolve_bound(None, None, Some(year), false), Ok(year));
    assert_eq!(resolve_bound(None, None, None, true), Err(CodexiError::InvalidDate));
}

#[test]
fn an_operation_keeps_what_it_is_given() {
    let op = Operation::new(
        OperationKind::Regular(RegularKind::Fee),
        OperationFlow::Debit,
        "2025-03-04",
        12_500,
        "bank fee",
    )
    .unwrap();
    assert_eq!(op.kind, OperationKind::Regular(RegularKind::Fee));
    assert_eq!(op.flow, OperationFlow::Debit);
    assert_eq!(op.date, date(2025, 3, 4));
    assert_eq!(op.amount, 12_500);
    assert_eq!(op.description, "bank fee");
    let copy = op.clone();
    assert_eq!(copy.description, "bank fee");
    assert_eq!(copy.date, op.date);
    assert_eq!(copy.amount, op.amount);
}

#[test]
fn an_operation_trims_its_description() {
    let kind = OperationKind::Regular(RegularKind::Transaction);
    let op = Operation::new(kind, OperationFlow::Credit, "2025-03-04", 1, "  two words \n").unwrap();
    assert_eq!(op.description, "two words");
    let op = Operation::new(kind, OperationFlow::Credit, "2025-03-04", 1, "  \t ").unwrap();
    assert_eq!(op.description, "no description");
    let op = Operation::new(kind, OperationFlow::Credit, "2025-03-04", 1, "").unwrap();
    assert_eq!(op.description, "no description");
    let op = Operation::new(kind, OperationFlow::Credit, "2025-03-04", 1, " été ").unwrap();
    assert_eq!(op.description, "été");
}

#[test]
fn an_operation_needs_a_calendar_date() {
    let kind = OperationKind::Regular(RegularKind::Transaction);
    for text in ["2025-02-30", "2025-3", "yesterday", ""] {
        match Operation::new(kind, OperationFlow::Credit, text, 1, "x") {
            Err(e) => assert_eq!(e, OperationError::InvalidDate),
            Ok(op) => panic!("made {:?}", op),
        }
    }
}

#[test]
fn system_and_regular_operations() {
    let op = Operation::new_system_operation(
        SystemKind::Close,
        OperationFlow::Credit,
        "2025-03-31",
        5,
        "carried",
    )
    .unwrap();
    assert_eq!(op.kind, OperationKind::System(SystemKind::Close));
    assert_eq!(op.date, date(2025, 3, 31));
    let op = Operation::new_regular_operation(
        RegularKind::Refund,
        OperationFlow::Credit,
        "2025-04-01",
        5,
        "back",
    )
    .unwrap();
    assert_eq!(op.kind, OperationKind::Regular(RegularKind::Refund));
    assert_eq!(op.flow, OperationFlow::Credit);
    assert!(Operation::new_system_operation(SystemKind::Init, OperationFlow::Credit, "x", 5, "y")
        .is_err());
    assert!(Operation::new_regular_operation(RegularKind::Fee, OperationFlow::Debit, "x", 5, "y")
        .is_err());
}

#[test]
fn error_messages() {
    assert_eq!(
        CodexiError::NotEmpty.message(),
        "The codexi is not empty. Cannot set initial balance."
    );
    assert_eq!(CodexiError::OutOfBounds.message(), "Operation index is out of bounds.");
    for error in [
        CodexiError::InvalidDate,
        CodexiError::DateConflict,
        CodexiError::InsufficientFunds,
        CodexiError::ProtectedOperation,
        CodexiError::AmountOverflow,
    ] {
        assert!(!error.message().is_empty());
    }
}

#[test]
fn descriptions_are_fitted_to_a_column() {
    assert_eq!(truncate_desc("Atm", 6), "Atm   ");
    assert_eq!(truncate_desc("Bakery", 6), "Bakery");
    assert_eq!(truncate_desc("Bakery!", 6), "Bak...");
    assert_eq!(truncate_desc("Post office", 10), "Post of...");
    assert_eq!(truncate_desc("", 3), "   ");
    assert_eq!(truncate_desc("", 0), "");
    assert_eq!(truncate_desc("abcd", 3), "...");
    assert_eq!(truncate_desc("abcd", 2), "...");
    assert_eq!(truncate_desc("abcd", 0), "...");
    // Characters are counted, not bytes.
    assert_eq!(truncate_desc("été", 4), "été ");
    assert_eq!(truncate_desc("éééééé", 5), "éé...");
    let long = "a description that is longer than thirty characters";
    assert_eq!(truncate_desc(long, 30), "a description that is longe...");
    assert_eq!(truncate_desc(long, 30).chars().count(), 30);
}

#[test]
fn padding_adds_blanks_up_to_the_width() {
    let mut text = String::from("ab");
    pad_to_width(&mut text, 5);
    assert_eq!(text, "ab   ");
    pad_to_width(&mut text, 3);
    assert_eq!(text, "ab   ");
    let mut text = String::from("é");
    pad_to_width(&mut text, 2);
    assert_eq!(text, "é ");
}
