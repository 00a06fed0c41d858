//! Calendar dates as day numbers in the proleptic Gregorian calendar, with
//! the first of January of year 1 as day 1. Date arithmetic and comparison
//! are integer operations on day numbers; only the breakdown of a day number
//! into day-of-month, month and year comes from the calendar library, behind
//! one trusted wrapper.

use chrono::Datelike;
use crate::digits::dec_chars;
use crate::digits::two_digit_chars;
use crate::digits::u64_to_dec;
use crate::digits::u64_to_two_digits;
use vstd::prelude::*;
use vstd::string::StringExecFns;

verus! {

/// The smallest day number the library accepts: the first of January, year 1.
pub const MIN_DAY_NUMBER: i64 = 1;

/// The largest day number the library accepts: the last day of year 9999.
pub const MAX_DAY_NUMBER: i64 = 3652059;

/// The (day-of-month, zero-based month, year) of a day number.
pub uninterp spec fn civil_of(days: int) -> (u32, u32, i32);

/// Relies on chrono::NaiveDate::from_num_days_from_ce_opt, which maps day 1
/// to the first of January of year 1 and returns a date for every day number
/// in our accepted range, and on its Datelike day / month0 / year accessors.
/// The breakdown is a function of the day number alone; within the accepted
/// range the day-of-month is 1..=31, the month index below 12 and the year
/// 1..=9999.
#[verifier::external_body]
fn civil_from_days(days: i64) -> (r: (u32, u32, i32))
    requires
        MIN_DAY_NUMBER <= days <= MAX_DAY_NUMBER,
    ensures
        r == civil_of(days as int),
        1 <= r.0 <= 31,
        r.1 < 12,
        1 <= r.2 <= 9999,
{
    let d = chrono::NaiveDate::from_num_days_from_ce_opt(days as i32).unwrap();
    (d.day(), d.month0(), d.year())
}

/// The three-letter month name, by zero-based month index.
pub open spec fn month_chars(m0: nat) -> Seq<char> {
    if m0 == 0 {
        seq!['J', 'a', 'n']
    } else if m0 == 1 {
        seq!['F', 'e', 'b']
    } else if m0 == 2 {
        seq!['M', 'a', 'r']
    } else if m0 == 3 {
        seq!['A', 'p', 'r']
    } else if m0 == 4 {
        seq!['M', 'a', 'y']
    } else if m0 == 5 {
        seq!['J', 'u', 'n']
    } else if m0 == 6 {
        seq!['J', 'u', 'l']
    } else if m0 == 7 {
        seq!['A', 'u', 'g']
    } else if m0 == 8 {
        seq!['S', 'e', 'p']
    } else if m0 == 9 {
        seq!['O', 'c', 't']
    } else if m0 == 10 {
        seq!['N', 'o', 'v']
    } else {
        seq!['D', 'e', 'c']
    }
}

/// The three-letter month name of a month index.
pub fn month_abbrev(m0: u32) -> (r: &'static str)
    requires
        m0 < 12,
    ensures
        r@ == month_chars(m0 as nat),
{
    if m0 == 0 {
        proof {
            reveal_strlit("Jan");
            assert("Jan"@ =~= month_chars(0));
        }
        "Jan"
    } else if m0 == 1 {
        proof {
            reveal_strlit("Feb");
            assert("Feb"@ =~= month_chars(1));
        }
        "Feb"
    } else if m0 == 2 {
        proof {
            reveal_strlit("Mar");
            assert("Mar"@ =~= month_chars(2));
        }
        "Mar"
    } else if m0 == 3 {
        proof {
            reveal_strlit("Apr");
            assert("Apr"@ =~= month_chars(3));
        }
        "Apr"
    } else if m0 == 4 {
        proof {
            reveal_strlit("May");
            assert("May"@ =~= month_chars(4));
        }
        "May"
    } else if m0 == 5 {
        proof {
            reveal_strlit("Jun");
            assert("Jun"@ =~= month_chars(5));
        }
        "Jun"
    } else if m0 == 6 {
        proof {
            reveal_strlit("Jul");
            assert("Jul"@ =~= month_chars(6));
        }
        "Jul"
    } else if m0 == 7 {
        proof {
            reveal_strlit("Aug");
            assert("Aug"@ =~= month_chars(7));
        }
        "Aug"
    } else if m0 == 8 {
        proof {
            reveal_strlit("Sep");
            assert("Sep"@ =~= month_chars(8));
        }
        "Sep"
    } else if m0 == 9 {
        proof {
            reveal_strlit("Oct");
            assert("Oct"@ =~= month_chars(9));
        }
        "Oct"
    } else if m0 == 10 {
        proof {
            reveal_strlit("Nov");
            assert("Nov"@ =~= month_chars(10));
        }
        "Nov"
    } else {
        proof {
            reveal_strlit("Dec");
            assert("Dec"@ =~= month_chars(11));
        }
        "Dec"
    }
}

/// The three-letter day-of-week title, Monday first.
pub open spec fn day_title_chars(d: nat) -> Seq<char> {
    if d == 0 {
        seq!['M', 'o', 'n']
    } else if d == 1 {
        seq!['T', 'u', 'e']
    } else if d == 2 {
        seq!['W', 'e', 'd']
    } else if d == 3 {
        seq!['T', 'h', 'u']
    } else if d == 4 {
        seq!['F', 'r', 'i']
    } else if d == 5 {
        seq!['S', 'a', 't']
    } else {
        seq!['S', 'u', 'n']
    }
}

/// The three-letter day-of-week title of a column index.
pub fn day_abbrev(d: usize) -> (r: &'static str)
    requires
        d < 7,
    ensures
        r@ == day_title_chars(d as nat),
{
    if d == 0 {
        proof {
            reveal_strlit("Mon");
            assert("Mon"@ =~= day_title_chars(0));
        }
        "Mon"
    } else if d == 1 {
        proof {
            reveal_strlit("Tue");
            assert("Tue"@ =~= day_title_chars(1));
        }
        "Tue"
    } else if d == 2 {
        proof {
            reveal_strlit("Wed");
            assert("Wed"@ =~= day_title_chars(2));
        }
        "Wed"
    } else if d == 3 {
        proof {
            reveal_strlit("Thu");
            assert("Thu"@ =~= day_title_chars(3));
        }
        "Thu"
    } else if d == 4 {
        proof {
            reveal_strlit("Fri");
            assert("Fri"@ =~= day_title_chars(4));
        }
        "Fri"
    } else if d == 5 {
        proof {
            reveal_strlit("Sat");
            assert("Sat"@ =~= day_title_chars(5));
        }
        "Sat"
    } else {
        proof {
            reveal_strlit("Sun");
            assert("Sun"@ =~= day_title_chars(6));
        }
        "Sun"
    }
}

/// The short calendar-cell label of a day number: day-of-month, a space, the
/// month name — `10 Jan`.
pub open spec fn day_month_chars(days: int) -> Seq<char> {
    dec_chars(civil_of(days).0 as nat) + seq![' '] + month_chars(civil_of(days).1 as nat)
}

/// The heading label of a day number: day-of-month, month name, year —
/// `10 Jan 2024`.
pub open spec fn full_date_chars(days: int) -> Seq<char> {
    day_month_chars(days) + seq![' '] + dec_chars(civil_of(days).2 as nat)
}

/// The year-range heading over a calendar from day `first` to day `last`:
/// `Jan 2024 - Feb 2024`.
pub open spec fn year_range_chars(first: int, last: int) -> Seq<char> {
    month_chars(civil_of(first).1 as nat) + seq![' '] + dec_chars(civil_of(first).2 as nat) + seq![
        ' ',
        '-',
        ' ',
    ] + month_chars(civil_of(last).1 as nat) + seq![' '] + dec_chars(civil_of(last).2 as nat)
}

/// A cell label is 5 or 6 characters; a heading label at most 11; a year
/// range at most 19.
pub proof fn lemma_date_label_lens(days: int)
    requires
        1 <= civil_of(days).0 <= 31,
        civil_of(days).1 < 12,
        1 <= civil_of(days).2 <= 9999,
    ensures
        5 <= day_month_chars(days).len() <= 6,
        7 <= full_date_chars(days).len() <= 11,
{
    lemma_small_dec_lens();
    crate::digits::lemma_dec_chars_len(civil_of(days).0 as nat, 2);
    crate::digits::lemma_dec_chars_len(civil_of(days).2 as nat, 4);
}

/// A year range heading is at most 19 characters when both years are below
/// 10000 (as every accepted day number guarantees).
pub proof fn lemma_year_range_len(first: int, last: int)
    requires
        1 <= civil_of(first).2 <= 9999,
        1 <= civil_of(last).2 <= 9999,
    ensures
        9 <= year_range_chars(first, last).len() <= 19,
{
    lemma_small_dec_lens();
    crate::digits::lemma_dec_chars_len(civil_of(first).2 as nat, 4);
    crate::digits::lemma_dec_chars_len(civil_of(last).2 as nat, 4);
}

proof fn lemma_small_dec_lens()
    ensures
        crate::digits::pow10(0) == 1,
        crate::digits::pow10(1) == 10,
        crate::digits::pow10(2) == 100,
        crate::digits::pow10(3) == 1000,
        crate::digits::pow10(4) == 10000,
{
    assert(crate::digits::pow10(0) == 1);
    assert(crate::digits::pow10(1) == 10);
    assert(crate::digits::pow10(2) == 100);
    assert(crate::digits::pow10(3) == 1000);
    assert(crate::digits::pow10(4) == 10000);
}

/// The short calendar-cell label of a day number.
pub fn day_month_label(days: i64) -> (r: String)
    requires
        MIN_DAY_NUMBER <= days <= MAX_DAY_NUMBER,
    ensures
        r@ == day_month_chars(days as int),
        5 <= r@.len() <= 6,
{
    let (day, m0, year) = civil_from_days(days);
    proof {
        lemma_date_label_lens(days as int);
    }
    let mut s = u64_to_dec(day as u64);
    proof {
        reveal_strlit(" ");
        assert(" "@ =~= seq![' ']);
    }
    s.append(" ");
    s.append(month_abbrev(m0));
    proof {
        assert(s@ =~= day_month_chars(days as int));
    }
    s
}

/// The heading label of a day number: `10 Jan 2024`.
pub fn full_date_label(days: i64) -> (r: String)
    requires
        MIN_DAY_NUMBER <= days <= MAX_DAY_NUMBER,
    ensures
        r@ == full_date_chars(days as int),
        7 <= r@.len() <= 11,
{
    let (_day, _m0, year) = civil_from_days(days);
    proof {
        lemma_date_label_lens(days as int);
    }
    let mut s = day_month_label(days);
    proof {
        reveal_strlit(" ");
        assert(" "@ =~= seq![' ']);
    }
    s.append(" ");
    let ys = u64_to_dec(year as u64);
    s.append(ys.as_str());
    proof {
        assert(s@ =~= full_date_chars(days as int));
    }
    s
}

/// The year-range heading over a calendar from day `first` to day `last`.
pub fn year_range_label(first: i64, last: i64) -> (r: String)
    requires
        MIN_DAY_NUMBER <= first <= MAX_DAY_NUMBER,
        MIN_DAY_NUMBER <= last <= MAX_DAY_NUMBER,
    ensures
        r@ == year_range_chars(first as int, last as int),
        9 <= r@.len() <= 19,
{
    let (_d1, m1, y1) = civil_from_days(first);
    let (_d2, m2, y2) = civil_from_days(last);
    proof {
        lemma_year_range_len(first as int, last as int);
    }
    proof {
        reveal_strlit(" ");
        reveal_strlit(" - ");
        assert(" "@ =~= seq![' ']);
        assert(" - "@ =~= seq![' ', '-', ' ']);
    }
    let mut s = String::from_str(month_abbrev(m1));
    s.append(" ");
    let y1s = u64_to_dec(y1 as u64);
    s.append(y1s.as_str());
    s.append(" - ");
    s.append(month_abbrev(m2));
    s.append(" ");
    let y2s = u64_to_dec(y2 as u64);
    s.append(y2s.as_str());
    proof {
        assert(s@ =~= year_range_chars(first as int, last as int));
    }
    s
}

/// `n` in decimal, zero-padded on the left to four digits.
pub open spec fn four_digit_chars(n: nat) -> Seq<char> {
    if n < 10 {
        seq!['0', '0', '0'] + dec_chars(n)
    } else if n < 100 {
        seq!['0', '0'] + dec_chars(n)
    } else if n < 1000 {
        seq!['0'] + dec_chars(n)
    } else {
        dec_chars(n)
    }
}

/// The ISO rendering of a day number: `YYYY-MM-DD`, all fields zero-padded.
pub open spec fn iso_date_chars(days: int) -> Seq<char> {
    four_digit_chars(civil_of(days).2 as nat) + seq!['-'] + two_digit_chars(
        (civil_of(days).1 + 1) as nat,
    ) + seq!['-'] + two_digit_chars(civil_of(days).0 as nat)
}

/// The ISO rendering of a day number: `YYYY-MM-DD`.
pub fn iso_date_label(days: i64) -> (r: String)
    requires
        MIN_DAY_NUMBER <= days <= MAX_DAY_NUMBER,
    ensures
        r@ == iso_date_chars(days as int),
        r@.len() == 10,
{
    let (day, m0, year) = civil_from_days(days);
    proof {
        lemma_small_dec_lens();
        crate::digits::lemma_dec_chars_len(year as nat, 4);
    }
    let mut s = String::new();
    proof {
        reveal_strlit("0");
        reveal_strlit("00");
        reveal_strlit("000");
        reveal_strlit("-");
        assert("0"@ =~= seq!['0']);
        assert("00"@ =~= seq!['0', '0']);
        assert("000"@ =~= seq!['0', '0', '0']);
        assert("-"@ =~= seq!['-']);
    }
    if year < 10 {
        s.append("000");
    } else if year < 100 {
        s.append("00");
    } else if year < 1000 {
        s.append("0");
    }
    let ys = u64_to_dec(year as u64);
    s.append(ys.as_str());
    s.append("-");
    let ms = u64_to_two_digits((m0 + 1) as u64);
    s.append(ms.as_str());
    s.append("-");
    let ds = u64_to_two_digits(day as u64);
    s.append(ds.as_str());
    proof {
        assert(s@ =~= iso_date_chars(days as int));
        assert(four_digit_chars(year as nat).len() == 4) by {
            if year >= 10 {
                crate::digits::lemma_dec_chars_len(year as nat, 4);
                if (year as nat) < 100 {
                    assert(dec_chars(year as nat) == dec_chars((year as nat) / 10).push(
                        crate::digits::digit_char((year as nat) % 10),
                    ));
                    assert(dec_chars((year as nat) / 10) == seq![
                        crate::digits::digit_char((year as nat) / 10),
                    ]);
                } else if (year as nat) < 1000 {
                    lemma_dec_chars_len_exact3(year as nat);
                } else {
                    lemma_dec_chars_len_exact4(year as nat);
                }
            }
        }
        assert(two_digit_chars((m0 + 1) as nat).len() == 2) by {
            lemma_two_digit_len((m0 + 1) as nat);
        }
        assert(two_digit_chars(day as nat).len() == 2) by {
            lemma_two_digit_len(day as nat);
        }
    }
    s
}

proof fn lemma_two_digit_len(n: nat)
    requires
        n < 100,
    ensures
        two_digit_chars(n).len() == 2,
{
    if n >= 10 {
        assert(dec_chars(n) == dec_chars(n / 10).push(crate::digits::digit_char(n % 10)));
        assert(dec_chars(n / 10) == seq![crate::digits::digit_char(n / 10)]);
    }
}

proof fn lemma_dec_chars_len_exact3(n: nat)
    requires
        100 <= n < 1000,
    ensures
        dec_chars(n).len() == 3,
{
    assert(dec_chars(n) == dec_chars(n / 10).push(crate::digits::digit_char(n % 10)));
    lemma_two_digit_len(n / 10);
    assert(10 <= n / 10 < 100);
}

proof fn lemma_dec_chars_len_exact4(n: nat)
    requires
        1000 <= n < 10000,
    ensures
        dec_chars(n).len() == 4,
{
    assert(dec_chars(n) == dec_chars(n / 10).push(crate::digits::digit_char(n % 10)));
    lemma_dec_chars_len_exact3(n / 10);
}

} // verus!
