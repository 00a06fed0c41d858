//! Word-wrap, truncation, grid bucketing, overflow aggregation and the two
//! renderers.

use chrono::Datelike;
use moxdtrkr::account::Account;
use moxdtrkr::calendar::bucket_transactions;
use moxdtrkr::calendar::overflow_amount;
use moxdtrkr::calendar::render_calendar;
use moxdtrkr::calendar::render_day_submenu;
use moxdtrkr::calendar::truncate;
use moxdtrkr::calendar::truncate_ellipsis;
use moxdtrkr::calendar::wrap;
use moxdtrkr::transaction::Transaction;

fn day(y: i32, m: u32, d: u32) -> i64 {
    chrono::NaiveDate::from_ymd_opt(y, m, d)
        .unwrap()
        .num_days_from_ce() as i64
}

fn acc(id: u32, name: &str) -> Account {
    Account { id, name: name.to_owned(), category: false }
}

fn cat(id: u32, name: &str) -> Account {
    Account { id, name: name.to_owned(), category: true }
}

#[test]
fn wrap_packs_characters_not_words() {
    let out = wrap("xxxxxxxxxx".to_owned(), 4);
    let views: Vec<&str> = out.iter().map(|s| s.as_str()).collect();
    assert_eq!(views, vec!["xxxx", "xxxx", "xx"]);
}

#[test]
fn wrap_of_empty_is_one_empty_line() {
    let out = wrap(String::new(), 4);
    assert_eq!(out.len(), 1);
    assert_eq!(out[0], "");
}

#[test]
fn wrap_exact_multiple_has_no_trailing_chunk() {
    let out = wrap("abcdefgh".to_owned(), 4);
    let views: Vec<&str> = out.iter().map(|s| s.as_str()).collect();
    assert_eq!(views, vec!["abcd", "efgh"]);
}

#[test]
fn truncate_takes_a_prefix() {
    assert_eq!(truncate("hello world".to_owned(), 5), "hello");
    assert_eq!(truncate("hi".to_owned(), 5), "hi");
}

#[test]
fn truncate_ellipsis_marks_cut_text() {
    assert_eq!(truncate_ellipsis("hello world".to_owned(), 8), "hello ..");
    assert_eq!(truncate_ellipsis("hello".to_owned(), 8), "hello");
    assert_eq!(truncate_ellipsis("hello".to_owned(), 5), "hello");
}

#[test]
fn bucketing_places_a_transaction_in_exactly_one_cell() {
    let today = day(2024, 6, 10); // a Monday
    let txs = vec![
        Transaction::new_transaction(1, 2, -100, "in range".to_owned(), day(2024, 6, 12), String::new()),
        Transaction::new_transaction(1, 2, -200, "out of range".to_owned(), day(2025, 6, 12), String::new()),
        Transaction::new_transaction(8, 9, -300, "not visible".to_owned(), day(2024, 6, 12), String::new()),
    ];
    let ids = vec![1u32];
    // today sits at linear index 21 (start of the fourth week), no scroll
    let cells = bucket_transactions(&txs, &ids, 28, 21, today, 0);
    assert_eq!(cells.len(), 28);
    let mut seen = 0;
    for (c, cell) in cells.iter().enumerate() {
        for &i in cell.iter() {
            assert_eq!(i, 0, "only the first transaction is bucketed");
            assert_eq!(c, 23, "2024-06-12 is two days after today");
            seen += 1;
        }
    }
    assert_eq!(seen, 1);
}

#[test]
fn overflow_aggregates_everything_past_the_shown_rows() {
    let d = day(2024, 6, 11);
    let today = day(2024, 6, 10);
    let mut txs = Vec::new();
    for k in 0..5 {
        txs.push(Transaction::new_transaction(
            1,
            2,
            -100 * (k + 1),
            format!("t{k}"),
            d,
            String::new(),
        ));
    }
    let ids = vec![1u32];
    let cells = bucket_transactions(&txs, &ids, 28, 21, today, 0);
    let cell = &cells[22];
    assert_eq!(cell.len(), 5);
    // with maxTransactionsPerDay = 3, rows 0 and 1 are shown and the
    // remaining three transactions are aggregated
    let overflow = overflow_amount(&txs, &ids, cell, 2);
    assert_eq!(overflow, -300 - 400 - 500);
}

#[test]
fn overflow_respects_leg_sign_rules() {
    let d = day(2024, 6, 11);
    let today = day(2024, 6, 10);
    let txs = vec![
        Transaction::new_transaction(1, 2, -100, "a".to_owned(), d, String::new()),
        Transaction::new_transfer(3, 1, 700, "b".to_owned(), d, String::new()),
    ];
    let ids = vec![1u32];
    let cells = bucket_transactions(&txs, &ids, 28, 21, today, 0);
    let cell = &cells[22];
    assert_eq!(cell.len(), 2);
    // leg B visible only for the transfer: minus the stored (negative) amount
    let overflow = overflow_amount(&txs, &ids, cell, 0);
    assert_eq!(overflow, -100 + 700);
}

#[test]
fn calendar_has_fixed_frame() {
    colored::control::set_override(true);
    let today = day(2024, 6, 10);
    let txs = vec![
        Transaction::new_transaction(1, 2, -550, "groceries and a very long reference".to_owned(), day(2024, 6, 12), String::new()),
    ];
    let visible = vec![acc(1, "Checking")];
    let cal = render_calendar(16, 4, 6, 21, today, false, false, &txs, &visible, 21, 0);
    // year heading + titles + 4 weeks of (header + 6 rows + divider)
    assert_eq!(cal.line_count(), 2 + 4 * 8);
    assert_eq!(cal.column_width(), 7 * 17 + 1);
    let titles = cal.get_line(1).to_string();
    assert_eq!(
        titles,
        "+------Mon-------+------Tue-------+------Wed-------+------Thu-------+------Fri-------+------Sat-------+------Sun-------+"
    );
    let divider = cal.get_line(9).to_string();
    assert_eq!(divider, format!("+{}", "----------------+".repeat(7)));
    assert!(cal.get_line(0).to_string().contains("Jun 2024"));
    // every week block repeats the divider
    for w in 0..4 {
        assert_eq!(cal.get_line(2 + w * 8 + 7).to_string(), divider);
    }
    // style markup never disturbs column alignment: every grid line below
    // the year heading occupies exactly the grid width
    for i in 1..cal.line_count() {
        assert_eq!(cal.get_line(i).len(), 7 * 17 + 1, "line {i} misaligned");
    }
    // the bucketed transaction shows its truncated reference
    let mut found = false;
    for i in 0..cal.line_count() {
        if cal.get_line(i).to_string().contains("grocerie..") {
            found = true;
        }
    }
    assert!(found, "expected the truncated reference in some row");
}

#[test]
fn calendar_shows_overflow_row() {
    colored::control::set_override(true);
    let today = day(2024, 6, 10);
    let d = day(2024, 6, 11);
    let mut txs = Vec::new();
    for k in 0..5 {
        txs.push(Transaction::new_transaction(1, 2, -100, format!("t{k}"), d, String::new()));
    }
    let visible = vec![acc(1, "Checking")];
    // maxTransactionsPerDay = 3: two shown, three aggregated into Others
    let cal = render_calendar(16, 4, 3, 21, today, false, false, &txs, &visible, 21, 0);
    let mut others = 0;
    let mut shown = 0;
    for i in 0..cal.line_count() {
        let line = cal.get_line(i).to_string();
        if line.contains("Others ") {
            others += 1;
            assert!(line.contains("£3.00"), "overflow sums the remaining three: {line}");
        }
        shown += line.matches("t0").count() + line.matches("t1").count();
    }
    assert_eq!(others, 1);
    assert_eq!(shown, 2);
}

#[test]
fn cell_at_exactly_the_limit_shows_all_transactions() {
    colored::control::set_override(true);
    let today = day(2024, 6, 10);
    let d = day(2024, 6, 11);
    let mut txs = Vec::new();
    for k in 0..3 {
        txs.push(Transaction::new_transaction(1, 2, -100, format!("t{k}"), d, String::new()));
    }
    let visible = vec![acc(1, "Checking")];
    let cal = render_calendar(16, 4, 3, 21, today, false, false, &txs, &visible, 21, 0);
    let mut shown = 0;
    for i in 0..cal.line_count() {
        let line = cal.get_line(i).to_string();
        assert!(!line.contains("Others "), "no overflow row at exactly the limit");
        for k in 0..3 {
            if line.contains(&format!("t{k}")) {
                shown += 1;
            }
        }
    }
    assert_eq!(shown, 3);
}

#[test]
fn day_submenu_lists_and_selects() {
    colored::control::set_override(true);
    let today = day(2024, 1, 15);
    let target = day(2024, 1, 10);
    let all = vec![acc(1, "Checking"), cat(2, "Food")];
    let visible = vec![acc(1, "Checking")];
    let txs = vec![
        Transaction::new_transaction(1, 2, -550, "groceries".to_owned(), target, "weekly shop".to_owned()),
        Transaction::new_transaction(1, 2, -75, String::new(), target, String::new()),
        Transaction::new_transaction(1, 2, -99, "elsewhere".to_owned(), day(2024, 1, 11), String::new()),
    ];
    // highlighted date = today - 5 days = 2024-01-10
    let (pane, selected, count) = render_day_submenu(0, 16, 21, today, false, false, &txs, &visible, &all, 28);
    assert_eq!(count, 2);
    let sel = selected.expect("index 0 selects the first listed transaction");
    assert_eq!(sel.reference(), "groceries");
    let text: Vec<String> = (0..pane.line_count()).map(|i| pane.get_line(i).to_string()).collect();
    let joined = text.join("\n");
    assert!(joined.contains("Detailed Transactions for"));
    assert!(joined.contains("10 Jan 2024"));
    assert!(joined.contains("Closing balance:"));
    assert!(joined.contains("groceries"));
    assert!(joined.contains("(unnamed)"));
    assert!(joined.contains("Category: Food"));
    assert!(joined.contains("Date: 2024-01-10"));
    assert!(joined.contains("weekly shop"));
}

#[test]
fn day_submenu_without_selection_returns_none() {
    let today = day(2024, 1, 15);
    let all = vec![acc(1, "Checking")];
    let visible = vec![acc(1, "Checking")];
    let txs = vec![
        Transaction::new_transaction(1, 2, -550, "x".to_owned(), day(2024, 1, 10), String::new()),
    ];
    let (_, selected, count) = render_day_submenu(-1, 16, 21, today, false, false, &txs, &visible, &all, 28);
    assert_eq!(count, 1);
    assert!(selected.is_none());
}

#[test]
fn day_submenu_reports_missing_counterpart() {
    let today = day(2024, 1, 15);
    let all = vec![acc(1, "Checking")];
    let visible = vec![acc(1, "Checking")];
    let txs = vec![
        Transaction::new_transaction(1, 99, -550, "x".to_owned(), day(2024, 1, 10), String::new()),
    ];
    let (pane, _, _) = render_day_submenu(-1, 16, 21, today, false, false, &txs, &visible, &all, 28);
    let joined: Vec<String> = (0..pane.line_count()).map(|i| pane.get_line(i).to_string()).collect();
    assert!(joined.join("\n").contains("<Category/Account name not found>"));
}
