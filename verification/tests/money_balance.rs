//! Currency formatting and balance accumulation, including the end-to-end
//! examples for an ordinary category transaction and for a transfer.

use chrono::Datelike;
use moxdtrkr::account::Account;
use moxdtrkr::balance::get_closing_balance;
use moxdtrkr::pence_to_pound_utils::pence_to_pound;
use moxdtrkr::pence_to_pound_utils::pence_to_pound_colour;
use moxdtrkr::pence_to_pound_utils::pence_to_pound_transfer;
use moxdtrkr::transaction::Transaction;

fn day(y: i32, m: u32, d: u32) -> i64 {
    chrono::NaiveDate::from_ymd_opt(y, m, d)
        .unwrap()
        .num_days_from_ce() as i64
}

fn acc(id: u32, name: &str) -> Account {
    Account { id, name: name.to_owned(), category: false }
}

fn cat(id: u32, name: &str) -> Account {
    Account { id, name: name.to_owned(), category: true }
}

#[test]
fn pound_formats_positive() {
    assert_eq!(pence_to_pound(123, true, false).to_string(), "£1.23");
    assert_eq!(pence_to_pound(0, true, true).to_string(), "£0.00");
    assert_eq!(pence_to_pound(100000, false, false).to_string(), "£1000.00");
    assert_eq!(pence_to_pound(7, false, false).to_string(), "£0.07");
}

#[test]
fn pound_formats_negative_with_sign_and_brackets() {
    assert_eq!(pence_to_pound(-550, true, false).to_string(), "-£5.50");
    assert_eq!(pence_to_pound(-550, false, true).to_string(), "(£5.50)");
    assert_eq!(pence_to_pound(-550, true, true).to_string(), "-(£5.50)");
    assert_eq!(pence_to_pound(-550, false, false).to_string(), "£5.50");
}

#[test]
fn pound_width_matches_visible_characters() {
    let s = pence_to_pound(-550, false, true);
    assert_eq!(s.len(), 7); // ( £ 5 . 5 0 )
}

#[test]
fn category_transaction_end_to_end() {
    // accounts {1: Checking (acc), 2: Food (cat)}; amount -550 on 2024-01-10
    let tx = Transaction::new_transaction(1, 2, -550, "groceries".to_owned(), day(2024, 1, 10), String::new());
    let txs = vec![tx];
    let visible = vec![acc(1, "Checking")];
    assert_eq!(get_closing_balance(day(2024, 1, 10), &txs, &visible), -550);
    // the day before, nothing has happened yet
    assert_eq!(get_closing_balance(day(2024, 1, 9), &txs, &visible), 0);
    // with brackets enabled and sign disabled the amount renders as (£5.50) in red
    colored::control::set_override(true);
    let rendered = pence_to_pound_colour(-550, false, true).to_string();
    assert!(rendered.contains("(£5.50)"));
    assert!(rendered.starts_with("\u{1b}[31m"), "expected red foreground: {rendered:?}");
}

#[test]
fn transfer_contribution_depends_on_visible_set() {
    // transfer {legA:1, legB:3, amount stored as -2000}
    let tx = Transaction::new_transfer(1, 3, 2000, String::new(), day(2024, 3, 1), String::new());
    assert_eq!(tx.amount(), -2000);
    assert!(tx.is_transfer());
    let txs = vec![tx];
    let d = day(2024, 3, 2);
    let both = vec![acc(1, "Checking"), acc(3, "Savings")];
    let only_source = vec![acc(1, "Checking")];
    let only_dest = vec![acc(3, "Savings")];
    assert_eq!(get_closing_balance(d, &txs, &both), 0);
    assert_eq!(get_closing_balance(d, &txs, &only_source), -2000);
    assert_eq!(get_closing_balance(d, &txs, &only_dest), 2000);
}

#[test]
fn transfer_amount_renders_yellow() {
    colored::control::set_override(true);
    let rendered = pence_to_pound_transfer(-2000, false, false).to_string();
    assert!(rendered.contains("£20.00"));
    assert!(rendered.starts_with("\u{1b}[33m"), "expected yellow foreground: {rendered:?}");
}

#[test]
fn closing_balance_is_additive_over_time() {
    let txs = vec![
        Transaction::new_transaction(1, 2, -550, "a".to_owned(), day(2024, 1, 10), String::new()),
        Transaction::new_transaction(1, 2, 1200, "b".to_owned(), day(2024, 1, 15), String::new()),
        Transaction::new_transaction(1, 2, -75, "c".to_owned(), day(2024, 1, 20), String::new()),
        Transaction::new_transfer(1, 3, 400, "d".to_owned(), day(2024, 1, 17), String::new()),
    ];
    let visible = vec![acc(1, "Checking")];
    let d1 = day(2024, 1, 14);
    let d2 = day(2024, 1, 31);
    let at_d1 = get_closing_balance(d1, &txs, &visible);
    let at_d2 = get_closing_balance(d2, &txs, &visible);
    // movement over (d1, d2]: +1200 (15th), -400 (transfer out, 17th), -75 (20th)
    assert_eq!(at_d1, -550);
    assert_eq!(at_d2, at_d1 + 1200 - 400 - 75);
}

#[test]
fn total_amount_sums_leg_a_only() {
    let txs = vec![
        Transaction::new_transaction(1, 2, -550, "a".to_owned(), day(2024, 1, 10), String::new()),
        Transaction::new_transaction(7, 2, 999, "b".to_owned(), day(2024, 1, 11), String::new()),
        Transaction::new_transaction(1, 2, 100, "c".to_owned(), day(2024, 1, 12), String::new()),
    ];
    let account = acc(1, "Checking");
    assert_eq!(Account::get_total_amount(&txs, &account), -450);
}

#[test]
fn account_lists_split_by_kind() {
    let all = vec![acc(1, "Checking"), cat(2, "Food"), acc(3, "Savings"), cat(4, "Rent")];
    let cats = Account::cat_accounts(&all);
    let accs = Account::acc_accounts(&all);
    assert_eq!(cats.len(), 2);
    assert_eq!(cats[0].name, "Food");
    assert_eq!(cats[1].name, "Rent");
    assert_eq!(accs.len(), 2);
    assert_eq!(accs[0].id, 1);
    assert_eq!(accs[1].id, 3);
}

#[test]
fn account_lookup_finds_first_match_or_errs() {
    let all = vec![acc(1, "Checking"), cat(2, "Food")];
    let tx = Transaction::new_transaction(1, 9, -5, String::new(), day(2024, 1, 1), String::new());
    match tx.account_1(&all) {
        Ok(a) => assert_eq!(a.name, "Checking"),
        Err(_) => panic!("expected the account to be found"),
    }
    match tx.account_2(&all) {
        Ok(_) => panic!("expected a missing account"),
        Err(e) => assert_eq!(e, "Account not found"),
    }
}
