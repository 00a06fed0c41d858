//! Accounts: real money accounts and spending categories share one record
//! type, told apart by the `category` flag.

use crate::balance::sum_abs;
use crate::transaction::Transaction;
use crate::transaction::TransactionV;
use crate::transaction::tviews;
use vstd::prelude::*;

verus! {

pub struct Account {
    pub id: u32,
    pub name: String,
    pub category: bool,
}

impl Clone for Account {
    fn clone(&self) -> (res: Self)
        ensures
            res == *self,
    {
        Account { id: self.id, name: self.name.clone(), category: self.category }
    }
}

/// The category accounts of a list, in order.
pub open spec fn category_accounts(accounts: Seq<Account>) -> Seq<Account>
    decreases accounts.len(),
{
    if accounts.len() == 0 {
        accounts
    } else if accounts.last().category {
        category_accounts(accounts.drop_last()).push(accounts.last())
    } else {
        category_accounts(accounts.drop_last())
    }
}

/// The real money accounts of a list, in order.
pub open spec fn money_accounts(accounts: Seq<Account>) -> Seq<Account>
    decreases accounts.len(),
{
    if accounts.len() == 0 {
        accounts
    } else if !accounts.last().category {
        money_accounts(accounts.drop_last()).push(accounts.last())
    } else {
        money_accounts(accounts.drop_last())
    }
}

/// The signed sum of the amounts of the transactions whose leg A is the given
/// account.
pub open spec fn total_amount(ts: Seq<TransactionV>, id: u32) -> int
    decreases ts.len(),
{
    if ts.len() == 0 {
        0
    } else {
        total_amount(ts.drop_last(), id) + (if ts.last().account_id_1 == id {
            ts.last().amount as int
        } else {
            0
        })
    }
}

pub proof fn lemma_total_amount_bound(ts: Seq<TransactionV>, id: u32)
    ensures
        -sum_abs(ts) <= total_amount(ts, id) <= sum_abs(ts),
    decreases ts.len(),
{
    if ts.len() > 0 {
        lemma_total_amount_bound(ts.drop_last(), id);
    }
}

impl Account {
    /// The sum of the amounts of all transactions drawn directly against the
    /// account (leg A only).
    pub fn get_total_amount(all_transactions: &Vec<Transaction>, account: &Account) -> (r: i64)
        requires
            sum_abs(tviews(all_transactions@)) <= i64::MAX,
        ensures
            r as int == total_amount(tviews(all_transactions@), account.id),
    {
        let ghost vts = tviews(all_transactions@);
        let n = all_transactions.len();
        let mut total: i64 = 0;
        let mut i: usize = 0;
        while i < n
            invariant
                i <= n,
                n == all_transactions@.len(),
                vts == tviews(all_transactions@),
                sum_abs(vts) <= i64::MAX,
                total as int == total_amount(vts.subrange(0, i as int), account.id),
            decreases n - i,
        {
            proof {
                assert(vts.subrange(0, i + 1).drop_last() =~= vts.subrange(0, i as int));
                assert(vts.subrange(0, i + 1).last() == vts[i as int]);
                lemma_total_amount_bound(vts.subrange(0, i + 1), account.id);
                crate::balance::lemma_sum_abs_prefix(vts, i + 1);
            }
            if all_transactions[i].account_id_1() == account.id {
                total = total + all_transactions[i].amount();
            }
            i = i + 1;
        }
        proof {
            assert(vts.subrange(0, n as int) =~= vts);
        }
        total
    }

    /// The category accounts of the list, in order.
    pub fn cat_accounts(accounts: &Vec<Account>) -> (r: Vec<Account>)
        ensures
            r@ == category_accounts(accounts@),
    {
        let n = accounts.len();
        let mut cat_accounts: Vec<Account> = Vec::new();
        let mut i: usize = 0;
        while i < n
            invariant
                i <= n,
                n == accounts@.len(),
                cat_accounts@ == category_accounts(accounts@.subrange(0, i as int)),
            decreases n - i,
        {
            if accounts[i].category {
                cat_accounts.push(accounts[i].clone());
            }
            proof {
                assert(accounts@.subrange(0, i + 1).drop_last() =~= accounts@.subrange(
                    0,
                    i as int,
                ));
                assert(accounts@.subrange(0, i + 1).last() == accounts@[i as int]);
            }
            i = i + 1;
        }
        proof {
            assert(accounts@.subrange(0, n as int) =~= accounts@);
        }
        cat_accounts
    }

    /// The real money accounts of the list, in order.
    pub fn acc_accounts(accounts: &Vec<Account>) -> (r: Vec<Account>)
        ensures
            r@ == money_accounts(accounts@),
    {
        let n = accounts.len();
        let mut acc_accounts: Vec<Account> = Vec::new();
        let mut i: usize = 0;
        while i < n
            invariant
                i <= n,
                n == accounts@.len(),
                acc_accounts@ == money_accounts(accounts@.subrange(0, i as int)),
            decreases n - i,
        {
            if !accounts[i].category {
                acc_accounts.push(accounts[i].clone());
            }
            proof {
                assert(accounts@.subrange(0, i + 1).drop_last() =~= accounts@.subrange(
                    0,
                    i as int,
                ));
                assert(accounts@.subrange(0, i + 1).last() == accounts@[i as int]);
            }
            i = i + 1;
        }
        proof {
            assert(accounts@.subrange(0, n as int) =~= accounts@);
        }
        acc_accounts
    }
}

} // verus!
