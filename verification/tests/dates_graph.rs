//! Date labels (against the calendar library's own arithmetic) and the
//! bar-graph computations.

use chrono::Datelike;
use moxdtrkr::dates::day_month_label;
use moxdtrkr::dates::full_date_label;
use moxdtrkr::dates::iso_date_label;
use moxdtrkr::dates::year_range_label;
use moxdtrkr::graph::render_bar_util;
use moxdtrkr::graph::sum_matching_in_range;
use moxdtrkr::transaction::Transaction;

fn day(y: i32, m: u32, d: u32) -> i64 {
    chrono::NaiveDate::from_ymd_opt(y, m, d)
        .unwrap()
        .num_days_from_ce() as i64
}

#[test]
fn day_numbers_follow_the_proleptic_calendar() {
    // the first of January of year 1 is day 1
    assert_eq!(day(1, 1, 1), 1);
    assert_eq!(day(2024, 1, 10), 738895);
    assert_eq!(iso_date_label(1), "0001-01-01");
    // the largest accepted day number is the last day of year 9999
    assert_eq!(day(9999, 12, 31), moxdtrkr::dates::MAX_DAY_NUMBER);
    assert_eq!(iso_date_label(moxdtrkr::dates::MAX_DAY_NUMBER), "9999-12-31");
}

#[test]
fn date_labels_render_day_month_year() {
    let d = day(2024, 1, 10);
    assert_eq!(day_month_label(d), "10 Jan");
    assert_eq!(full_date_label(d), "10 Jan 2024");
    assert_eq!(iso_date_label(d), "2024-01-10");
    let e = day(1999, 12, 31);
    assert_eq!(day_month_label(e), "31 Dec");
    assert_eq!(iso_date_label(e), "1999-12-31");
}

#[test]
fn date_labels_agree_with_the_calendar_library() {
    for &(y, m, d) in &[(2024, 2, 29), (2000, 1, 1), (1987, 7, 4), (2025, 10, 11)] {
        let n = day(y, m, d);
        let date = chrono::NaiveDate::from_ymd_opt(y, m, d).unwrap();
        assert_eq!(iso_date_label(n), format!("{date}"));
    }
}

#[test]
fn year_range_spans_first_and_last() {
    let label = year_range_label(day(2024, 5, 20), day(2024, 6, 17));
    assert_eq!(label, "May 2024 - Jun 2024");
    let wide = year_range_label(day(2023, 12, 25), day(2024, 1, 21));
    assert_eq!(wide, "Dec 2023 - Jan 2024");
}

#[test]
fn graph_sum_filters_by_selection_and_range() {
    let txs = vec![
        Transaction::new_transaction(1, 2, -100, "a".to_owned(), day(2024, 1, 2), String::new()),
        Transaction::new_transaction(1, 2, -200, "b".to_owned(), day(2024, 1, 9), String::new()),
        Transaction::new_transaction(1, 5, -400, "c".to_owned(), day(2024, 1, 3), String::new()),
        Transaction::new_transaction(9, 2, -800, "d".to_owned(), day(2024, 1, 3), String::new()),
    ];
    let accounts = vec![1u32];
    let categories = vec![2u32];
    let lb = day(2024, 1, 1);
    let ub = day(2024, 1, 8);
    assert_eq!(sum_matching_in_range(&accounts, &categories, &txs, lb, ub), -100);
    let ub2 = day(2024, 1, 10);
    assert_eq!(sum_matching_in_range(&accounts, &categories, &txs, lb, ub2), -300);
}

#[test]
fn bar_width_covers_the_magnitude() {
    colored::control::set_override(true);
    // a zero value needs no colouring at all: the bar is just its label
    let zero = render_bar_util(0, 100);
    assert_eq!(zero.to_string(), "£0.00");
    // label £2.50 is five characters and already covers 5 * 100 pence
    let short = render_bar_util(250, 100);
    assert_eq!(short.len(), 5);
    // label £10.00 is six characters; 400 pence remain, at 100 per cell
    let long = render_bar_util(1000, 100);
    assert_eq!(long.len(), 10);
    // a negative value uses its magnitude and a red background
    let neg = render_bar_util(-1000, 100);
    assert_eq!(neg.len(), 10);
    assert!(neg.to_string().contains("\u{1b}[41m"), "expected red background");
    let pos = render_bar_util(1000, 100);
    assert!(pos.to_string().contains("\u{1b}[42m"), "expected green background");
}
