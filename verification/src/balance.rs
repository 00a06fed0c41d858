//! Balance accumulation over the double-entry transaction model: the closing
//! balance of a visible-account set at a cutoff date, with the laws that make
//! it trustworthy — additivity over time and the netting of transfers whose
//! two legs are both visible.

use crate::account::Account;
use crate::transaction::Transaction;
use crate::transaction::TransactionV;
use crate::transaction::tviews;
use vstd::prelude::*;

verus! {

/// The magnitude of a transaction's amount.
pub open spec fn abs_amount(t: TransactionV) -> int {
    if t.amount >= 0 {
        t.amount as int
    } else {
        -(t.amount as int)
    }
}

/// The sum of the magnitudes of all amounts: the natural bound on every
/// signed aggregate the library computes.
pub open spec fn sum_abs(ts: Seq<TransactionV>) -> int
    decreases ts.len(),
{
    if ts.len() == 0 {
        0
    } else {
        sum_abs(ts.drop_last()) + abs_amount(ts.last())
    }
}

pub proof fn lemma_sum_abs_nonneg(ts: Seq<TransactionV>)
    ensures
        0 <= sum_abs(ts),
    decreases ts.len(),
{
    if ts.len() > 0 {
        lemma_sum_abs_nonneg(ts.drop_last());
    }
}

/// A prefix never has a larger magnitude sum than the whole.
pub proof fn lemma_sum_abs_prefix(ts: Seq<TransactionV>, i: int)
    requires
        0 <= i <= ts.len(),
    ensures
        0 <= sum_abs(ts.subrange(0, i)) <= sum_abs(ts),
    decreases ts.len(),
{
    lemma_sum_abs_nonneg(ts.subrange(0, i));
    if i == ts.len() {
        assert(ts.subrange(0, i) =~= ts);
    } else {
        assert(ts.drop_last().subrange(0, i) =~= ts.subrange(0, i));
        lemma_sum_abs_prefix(ts.drop_last(), i);
    }
}

/// The ids of the accounts in the list, in order.
pub open spec fn acc_ids(accounts: Seq<Account>) -> Seq<u32> {
    accounts.map_values(|a: Account| a.id)
}

/// What a transaction does to the balance of a visible-account set,
/// regardless of date: its amount counts positively if leg A is visible and
/// negatively if leg B is visible — both can fire for one transfer, netting
/// to zero.
pub open spec fn point_contribution(t: TransactionV, accs: Seq<u32>) -> int {
    (if accs.contains(t.account_id_1) {
        t.amount as int
    } else {
        0
    }) - (if accs.contains(t.account_id_2) {
        t.amount as int
    } else {
        0
    })
}

/// The contribution of one transaction to the closing balance at `date`.
pub open spec fn contribution(t: TransactionV, date: i64, accs: Seq<u32>) -> int {
    if t.date <= date {
        point_contribution(t, accs)
    } else {
        0
    }
}

/// The closing balance: the sum, over every transaction dated at or before
/// `date`, of its signed contribution to the visible-account set.
pub open spec fn closing_sum(ts: Seq<TransactionV>, date: i64, accs: Seq<u32>) -> int
    decreases ts.len(),
{
    if ts.len() == 0 {
        0
    } else {
        closing_sum(ts.drop_last(), date, accs) + contribution(ts.last(), date, accs)
    }
}

/// The balance movement over the half-open date range `(d1, d2]`.
pub open spec fn range_sum(ts: Seq<TransactionV>, d1: i64, d2: i64, accs: Seq<u32>) -> int
    decreases ts.len(),
{
    if ts.len() == 0 {
        0
    } else {
        range_sum(ts.drop_last(), d1, d2, accs) + (if d1 < ts.last().date <= d2 {
            point_contribution(ts.last(), accs)
        } else {
            0
        })
    }
}

/// Every closing balance is bounded by twice the magnitude sum.
pub proof fn lemma_closing_sum_bound(ts: Seq<TransactionV>, date: i64, accs: Seq<u32>)
    ensures
        -2 * sum_abs(ts) <= closing_sum(ts, date, accs) <= 2 * sum_abs(ts),
    decreases ts.len(),
{
    if ts.len() > 0 {
        lemma_closing_sum_bound(ts.drop_last(), date, accs);
    }
}

/// Law: the closing balance is additive over time. For any fixed
/// visible-account set and `d1 <= d2`, the balance at `d2` is the balance at
/// `d1` plus the movement over `(d1, d2]`.
pub proof fn lemma_closing_balance_additive(
    ts: Seq<TransactionV>,
    d1: i64,
    d2: i64,
    accs: Seq<u32>,
)
    requires
        d1 <= d2,
    ensures
        closing_sum(ts, d2, accs) == closing_sum(ts, d1, accs) + range_sum(ts, d1, d2, accs),
    decreases ts.len(),
{
    if ts.len() > 0 {
        lemma_closing_balance_additive(ts.drop_last(), d1, d2, accs);
    }
}

/// Law: a transfer between two accounts that are both in the visible set
/// contributes exactly zero, to the closing balance at every date and to the
/// movement over every date range.
pub proof fn lemma_transfer_between_visible_nets_zero(
    ts: Seq<TransactionV>,
    t: TransactionV,
    d1: i64,
    d2: i64,
    accs: Seq<u32>,
)
    requires
        accs.contains(t.account_id_1),
        accs.contains(t.account_id_2),
    ensures
        point_contribution(t, accs) == 0,
        closing_sum(ts.push(t), d2, accs) == closing_sum(ts, d2, accs),
        range_sum(ts.push(t), d1, d2, accs) == range_sum(ts, d1, d2, accs),
{
    assert(ts.push(t).drop_last() =~= ts);
    assert(ts.push(t).last() == t);
}

/// The ids of the given accounts.
pub fn acc_ids_from(accounts: &Vec<Account>) -> (r: Vec<u32>)
    ensures
        r@ == acc_ids(accounts@),
{
    let n = accounts.len();
    let mut v: Vec<u32> = Vec::new();
    let mut i: usize = 0;
    while i < n
        invariant
            i <= n,
            n == accounts@.len(),
            v@ == acc_ids(accounts@.subrange(0, i as int)),
        decreases n - i,
    {
        v.push(accounts[i].id);
        proof {
            assert(acc_ids(accounts@.subrange(0, i + 1)) =~= acc_ids(
                accounts@.subrange(0, i as int),
            ).push(accounts@[i as int].id));
        }
        i = i + 1;
    }
    proof {
        assert(accounts@.subrange(0, n as int) =~= accounts@);
    }
    v
}

/// Whether the id list holds the id.
pub fn ids_contain(ids: &Vec<u32>, id: u32) -> (r: bool)
    ensures
        r == ids@.contains(id),
{
    let n = ids.len();
    let mut i: usize = 0;
    while i < n
        invariant
            i <= n,
            n == ids@.len(),
            forall|j: int| 0 <= j < i ==> ids@[j] != id,
        decreases n - i,
    {
        if ids[i] == id {
            return true;
        }
        i = i + 1;
    }
    false
}

/// The closing balance summed over the visible accounts at the given date:
/// every transaction dated at or before `date` adds its amount if leg A is
/// visible and subtracts it if leg B is visible.
pub fn get_closing_balance(
    date: i64,
    transactions: &Vec<Transaction>,
    visible_accounts: &Vec<Account>,
) -> (r: i64)
    requires
        2 * sum_abs(tviews(transactions@)) <= i64::MAX,
    ensures
        r as int == closing_sum(tviews(transactions@), date, acc_ids(visible_accounts@)),
{
    let ghost vts = tviews(transactions@);
    let ghost ids = acc_ids(visible_accounts@);
    let accs = acc_ids_from(visible_accounts);
    let n = transactions.len();
    let mut sum: i64 = 0;
    let mut i: usize = 0;
    while i < n
        invariant
            i <= n,
            n == transactions@.len(),
            vts == tviews(transactions@),
            ids == acc_ids(visible_accounts@),
            accs@ == ids,
            2 * sum_abs(vts) <= i64::MAX,
            sum as int == closing_sum(vts.subrange(0, i as int), date, ids),
        decreases n - i,
    {
        proof {
            assert(vts.subrange(0, i + 1).drop_last() =~= vts.subrange(0, i as int));
            assert(vts.subrange(0, i + 1).last() == vts[i as int]);
            lemma_closing_sum_bound(vts.subrange(0, i as int), date, ids);
            lemma_closing_sum_bound(vts.subrange(0, i + 1), date, ids);
            lemma_sum_abs_prefix(vts, i as int);
            lemma_sum_abs_prefix(vts, i + 1);
        }
        let t = &transactions[i];
        if t.date() <= date && ids_contain(&accs, t.account_id_1()) {
            sum = sum + t.amount();
        }
        if t.date() <= date && ids_contain(&accs, t.account_id_2()) {
            sum = sum - t.amount();
        }
        i = i + 1;
    }
    proof {
        assert(vts.subrange(0, n as int) =~= vts);
    }
    sum
}

} // verus!
