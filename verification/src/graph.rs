//! The computational parts of the bar-graph view: the signed sum of the
//! transactions that match an account/category selection inside a date
//! range, and the coloured bar for one value. The interactive loop around
//! them lives outside the library.

use crate::digits::dec_chars;
use crate::digits::lemma_dec_chars_len_u64;
use crate::digits::two_digit_chars;
use crate::digits::u64_to_dec;
use crate::digits::u64_to_two_digits;
use crate::balance::sum_abs;
use crate::sidebyside::spaces;
use crate::styled::ColouredString;
use crate::styled::Style;
use crate::transaction::Transaction;
use crate::transaction::TransactionV;
use crate::transaction::tviews;
use vstd::prelude::*;
use vstd::string::StrSliceExecFns;
use vstd::string::StringExecFns;

verus! {

/// Whether a transaction counts towards the graph: leg A in the selected
/// accounts, leg B in the selected categories, and its date in `[lb, ub)`.
pub open spec fn graph_matches(
    t: TransactionV,
    accounts: Seq<u32>,
    categories: Seq<u32>,
    lb: i64,
    ub: i64,
) -> bool {
    accounts.contains(t.account_id_1) && categories.contains(t.account_id_2) && lb <= t.date
        < ub
}

/// The signed sum of the amounts of the matching transactions.
pub open spec fn graph_sum(
    ts: Seq<TransactionV>,
    accounts: Seq<u32>,
    categories: Seq<u32>,
    lb: i64,
    ub: i64,
) -> int
    decreases ts.len(),
{
    if ts.len() == 0 {
        0
    } else {
        graph_sum(ts.drop_last(), accounts, categories, lb, ub) + (if graph_matches(
            ts.last(),
            accounts,
            categories,
            lb,
            ub,
        ) {
            ts.last().amount as int
        } else {
            0
        })
    }
}

proof fn lemma_graph_sum_bound(
    ts: Seq<TransactionV>,
    accounts: Seq<u32>,
    categories: Seq<u32>,
    lb: i64,
    ub: i64,
)
    ensures
        -sum_abs(ts) <= graph_sum(ts, accounts, categories, lb, ub) <= sum_abs(ts),
    decreases ts.len(),
{
    if ts.len() > 0 {
        lemma_graph_sum_bound(ts.drop_last(), accounts, categories, lb, ub);
    }
}

/// The signed sum, over the week (or any range) `[lb, ub)`, of the amounts
/// of the transactions whose leg A is a selected account and whose leg B is
/// a selected category.
pub fn sum_matching_in_range(
    accounts: &Vec<u32>,
    categories: &Vec<u32>,
    transactions: &Vec<Transaction>,
    lb: i64,
    ub: i64,
) -> (r: i64)
    requires
        sum_abs(tviews(transactions@)) <= i64::MAX,
    ensures
        r as int == graph_sum(tviews(transactions@), accounts@, categories@, lb, ub),
{
    let ghost vts = tviews(transactions@);
    let n = transactions.len();
    let mut sum: i64 = 0;
    let mut i: usize = 0;
    while i < n
        invariant
            i <= n,
            n == transactions@.len(),
            vts == tviews(transactions@),
            sum_abs(vts) <= i64::MAX,
            sum as int == graph_sum(
                vts.subrange(0, i as int),
                accounts@,
                categories@,
                lb,
                ub,
            ),
        decreases n - i,
    {
        proof {
            assert(vts.subrange(0, i + 1).drop_last() =~= vts.subrange(0, i as int));
            assert(vts.subrange(0, i + 1).last() == vts[i as int]);
            lemma_graph_sum_bound(vts.subrange(0, i + 1), accounts@, categories@, lb, ub);
            crate::balance::lemma_sum_abs_prefix(vts, i + 1);
        }
        let t = &transactions[i];
        if crate::balance::ids_contain(accounts, t.account_id_1()) && crate::balance::ids_contain(
            categories,
            t.account_id_2(),
        ) && t.date() >= lb && t.date() < ub {
            sum = sum + t.amount();
        }
        i = i + 1;
    }
    proof {
        assert(vts.subrange(0, n as int) =~= vts);
    }
    sum
}

/// The unsigned pound rendering used inside a bar: `£<pounds>.<pp>`.
pub open spec fn bar_label_chars(mag: nat) -> Seq<char> {
    seq!['£'] + dec_chars(mag / 100) + seq!['.'] + two_digit_chars(mag % 100)
}

/// How many extra cells a bar needs after its label: one per `scale` pence
/// of the remainder.
pub open spec fn bar_pad_count(rem: int, scale: int) -> int
    decreases (if rem < 0 {
        0int
    } else {
        rem
    }),
{
    if rem <= 0 || scale < 1 {
        0
    } else {
        1 + bar_pad_count(rem - scale, scale)
    }
}

/// The magnitude of a bar value.
pub open spec fn bar_mag(pence: i64) -> nat {
    if pence >= 0 {
        pence as nat
    } else {
        (-(pence as int)) as nat
    }
}

/// The visible characters of a bar: the label, then one filled cell per
/// `scale` pence beyond what the label itself covers.
pub open spec fn bar_chars(pence: i64, scale: i64) -> Seq<char> {
    let label = bar_label_chars(bar_mag(pence));
    label + spaces(bar_pad_count(bar_mag(pence) - label.len() * scale, scale as int))
}

/// What remains of the magnitude after the first `i` label characters, each
/// of which covers `scale` pence while anything is left.
pub open spec fn bar_char_rem(mag: int, scale: int, i: int) -> int
    decreases i,
{
    if i <= 0 {
        mag
    } else {
        let p = bar_char_rem(mag, scale, i - 1);
        if p > 0 {
            p - scale
        } else {
            p
        }
    }
}

proof fn lemma_bar_char_rem(mag: int, scale: int, i: int)
    requires
        1 <= scale,
        0 <= i,
    ensures
        mag - i * scale <= bar_char_rem(mag, scale, i),
        bar_char_rem(mag, scale, i) <= mag,
        bar_char_rem(mag, scale, i) > 0 ==> bar_char_rem(mag, scale, i) == mag - i * scale,
    decreases i,
{
    if i > 0 {
        lemma_bar_char_rem(mag, scale, i - 1);
        assert(i * scale == (i - 1) * scale + scale) by (nonlinear_arith);
        let p = bar_char_rem(mag, scale, i - 1);
        if p > 0 {
            assert(bar_char_rem(mag, scale, i) == p - scale);
        } else {
            assert(bar_char_rem(mag, scale, i) == p);
        }
    } else {
        assert(i * scale == 0) by (nonlinear_arith)
            requires
                i == 0,
        ;
    }
}

/// The pad of the remainder after the label equals the pad of the nominal
/// remainder `mag - label_len * scale`.
proof fn lemma_bar_pad_agrees(mag: int, scale: int, n: int)
    requires
        1 <= scale,
        0 <= n,
        0 <= mag,
    ensures
        bar_pad_count(bar_char_rem(mag, scale, n), scale) == bar_pad_count(
            mag - n * scale,
            scale,
        ),
{
    lemma_bar_char_rem(mag, scale, n);
    let r = bar_char_rem(mag, scale, n);
    if r > 0 {
    } else {
        assert(bar_pad_count(r, scale) == 0);
        assert(mag - n * scale <= r);
        assert(bar_pad_count(mag - n * scale, scale) == 0);
    }
}

proof fn lemma_bar_pad_nonneg(rem: int, scale: int)
    ensures
        0 <= bar_pad_count(rem, scale),
        scale >= 1 ==> bar_pad_count(rem, scale) <= (if rem < 0 {
            0int
        } else {
            rem
        }),
    decreases (if rem < 0 {
        0int
    } else {
        rem
    }),
{
    if !(rem <= 0 || scale < 1) {
        lemma_bar_pad_nonneg(rem - scale, scale);
    }
}

/// Builds the coloured bar for one value: the magnitude label, each
/// character on a green (non-negative) or red (negative) background while
/// the value still has uncovered pence, then blank coloured cells until the
/// whole magnitude is covered, `scale` pence per cell.
pub fn render_bar_util(pence: i64, scale: i64) -> (r: ColouredString)
    requires
        1 <= scale,
        -0x3fff_ffff <= pence <= 0x3fff_ffff,
    ensures
        r.wf(),
        r@ == bar_chars(pence, scale),
{
    let green = pence >= 0;
    let mag: i64 = if pence < 0 {
        -pence
    } else {
        pence
    };
    let label = {
        let mut s = String::new();
        proof {
            reveal_strlit("£");
            reveal_strlit(".");
            assert("£"@ =~= seq!['£']);
            assert("."@ =~= seq!['.']);
            lemma_dec_chars_len_u64((mag as u64) / 100);
        }
        s.append("£");
        let ds = u64_to_dec((mag as u64) / 100);
        s.append(ds.as_str());
        s.append(".");
        let fs = u64_to_two_digits((mag as u64) % 100);
        s.append(fs.as_str());
        proof {
            assert(s@ =~= bar_label_chars(bar_mag(pence)));
            assert(s@.len() <= 30);
        }
        s
    };
    let ghost labelv = label@;
    let n = label.as_str().unicode_len();
    let mut bar = ColouredString::new();
    let mut remaining: i64 = mag;
    let mut i: usize = 0;
    while i < n
        invariant
            i <= n,
            n == labelv.len(),
            labelv.len() <= 30,
            label@ == labelv,
            1 <= scale,
            0 <= mag <= 0x3fff_ffff,
            bar.wf(),
            bar@ == labelv.subrange(0, i as int),
            remaining == bar_char_rem(mag as int, scale as int, i as int),
            remaining <= mag,
        decreases n - i,
    {
        let piece = ColouredString::from_str(label.as_str().substring_char(i, i + 1));
        let styled = if remaining > 0 {
            if green {
                piece.apply_style(Style::Black).apply_style(Style::OnGreen)
            } else {
                piece.apply_style(Style::Black).apply_style(Style::OnRed)
            }
        } else {
            piece
        };
        bar.push_coloured_string(styled);
        proof {
            assert(bar@ =~= labelv.subrange(0, i + 1));
            lemma_bar_char_rem(mag as int, scale as int, i as int);
        }
        if remaining > 0 {
            remaining = remaining - scale;
        }
        i = i + 1;
    }
    let ghost rem0 = remaining as int;
    proof {
        lemma_bar_pad_nonneg(rem0, scale as int);
    }
    let mut k: usize = 0;
    while remaining > 0
        invariant
            1 <= scale,
            bar.wf(),
            remaining <= mag,
            0 <= mag <= 0x3fff_ffff,
            rem0 <= mag,
            labelv.len() <= 30,
            bar@ == labelv + spaces(k as int),
            bar_pad_count(rem0, scale as int) == k + bar_pad_count(
                remaining as int,
                scale as int,
            ),
            k <= bar_pad_count(rem0, scale as int),
            bar_pad_count(rem0, scale as int) <= 0x3fff_ffff,
        decreases (if remaining > 0 {
            remaining as int
        } else {
            0int
        }),
    {
        proof {
            lemma_bar_pad_nonneg(remaining as int, scale as int);
            lemma_bar_pad_nonneg(remaining - scale, scale as int);
        }
        proof {
            reveal_strlit(" ");
            assert(" "@ =~= seq![' ']);
            assert(spaces(k + 1) =~= spaces(k as int) + " "@);
        }
        if green {
            bar.push_coloured_string(
                ColouredString::from_str(" ").apply_style(Style::Black).apply_style(
                    Style::OnGreen,
                ),
            );
        } else {
            bar.push_coloured_string(
                ColouredString::from_str(" ").apply_style(Style::Black).apply_style(
                    Style::OnRed,
                ),
            );
        }
        remaining = remaining - scale;
        k = k + 1;
    }
    proof {
        assert(labelv.subrange(0, n as int) =~= labelv);
        assert(bar_pad_count(remaining as int, scale as int) == 0);
        lemma_bar_pad_agrees(mag as int, scale as int, n as int);
        assert(bar@ =~= bar_chars(pence, scale));
    }
    bar
}

} // verus!
