//! The double-entry transaction value. A transaction has two account legs:
//! leg A is the primary account; leg B is a spending category for an ordinary
//! transaction, or the destination account for a transfer. For a transfer the
//! stored amount is the negative of the transferred magnitude — the effect on
//! the source account — and leg B receives the positive offset.
//!
//! Dates are day numbers in the proleptic Gregorian calendar, with the first
//! of January of year 1 as day 1, so that date comparison and date arithmetic
//! are plain integer operations.

use crate::account::Account;
use vstd::prelude::*;

verus! {

/// The mathematical value of a [`Transaction`].
pub struct TransactionV {
    pub account_id_1: u32,
    pub account_id_2: u32,
    pub transfer: bool,
    pub amount: i64,
    pub reference: Seq<char>,
    pub date: i64,
    pub notes: Seq<char>,
}

/// A transaction is a value object: equality is structural over all fields,
/// and it carries no identity beyond them.
pub struct Transaction {
    account_id_1: u32,
    account_id_2: u32,
    transfer: bool,
    amount: i64,
    reference: String,
    date: i64,
    notes: String,
}

impl View for Transaction {
    type V = TransactionV;

    closed spec fn view(&self) -> TransactionV {
        TransactionV {
            account_id_1: self.account_id_1,
            account_id_2: self.account_id_2,
            transfer: self.transfer,
            amount: self.amount,
            reference: self.reference@,
            date: self.date,
            notes: self.notes@,
        }
    }
}

/// The views of a sequence of transactions.
pub open spec fn tviews(ts: Seq<Transaction>) -> Seq<TransactionV> {
    ts.map_values(|t: Transaction| t@)
}

impl Transaction {
    /// An ordinary transaction: leg B is a spending category and `amount` is
    /// the signed value against leg A (positive = inflow).
    pub fn new_transaction(
        account_id: u32,
        category_account_id: u32,
        amount: i64,
        reference: String,
        date: i64,
        notes: String,
    ) -> (r: Transaction)
        ensures
            r@ == (TransactionV {
                account_id_1: account_id,
                account_id_2: category_account_id,
                transfer: false,
                amount: amount,
                reference: reference@,
                date: date,
                notes: notes@,
            }),
    {
        Transaction {
            account_id_1: account_id,
            account_id_2: category_account_id,
            transfer: false,
            amount,
            reference,
            date,
            notes,
        }
    }

    /// A transfer of the given magnitude from a source account to a
    /// destination account: the stored amount is the negative of the
    /// magnitude, the effect on the source; leg B receives the positive
    /// offset.
    pub fn new_transfer(
        src_account_id: u32,
        dest_account_id: u32,
        amount: u64,
        reference: String,
        date: i64,
        notes: String,
    ) -> (r: Transaction)
        requires
            amount <= i64::MAX,
        ensures
            r@ == (TransactionV {
                account_id_1: src_account_id,
                account_id_2: dest_account_id,
                transfer: true,
                amount: (-(amount as int)) as i64,
                reference: reference@,
                date: date,
                notes: notes@,
            }),
    {
        Transaction {
            account_id_1: src_account_id,
            account_id_2: dest_account_id,
            transfer: true,
            amount: -(amount as i64),
            reference,
            date,
            notes,
        }
    }

    pub fn account_id_1(&self) -> (r: u32)
        ensures
            r == self@.account_id_1,
    {
        self.account_id_1
    }

    pub fn account_id_2(&self) -> (r: u32)
        ensures
            r == self@.account_id_2,
    {
        self.account_id_2
    }

    /// The account referenced by leg A, or an error if no account in the list
    /// carries that id.
    pub fn account_1(&self, all_accounts: &Vec<Account>) -> (r: Result<Account, String>)
        ensures
            match r {
                Ok(a) => find_account(all_accounts@, self@.account_id_1) == Some(a),
                Err(e) => find_account(all_accounts@, self@.account_id_1) is None,
            },
    {
        find_account_exec(all_accounts, self.account_id_1)
    }

    /// The account referenced by leg B, or an error if no account in the list
    /// carries that id.
    pub fn account_2(&self, all_accounts: &Vec<Account>) -> (r: Result<Account, String>)
        ensures
            match r {
                Ok(a) => find_account(all_accounts@, self@.account_id_2) == Some(a),
                Err(e) => find_account(all_accounts@, self@.account_id_2) is None,
            },
    {
        find_account_exec(all_accounts, self.account_id_2)
    }

    pub fn is_transfer(&self) -> (r: bool)
        ensures
            r == self@.transfer,
    {
        self.transfer
    }

    pub fn amount(&self) -> (r: i64)
        ensures
            r == self@.amount,
    {
        self.amount
    }

    pub fn reference(&self) -> (r: String)
        ensures
            r@ == self@.reference,
    {
        self.reference.clone()
    }

    pub fn date(&self) -> (r: i64)
        ensures
            r == self@.date,
    {
        self.date
    }

    pub fn notes(&self) -> (r: String)
        ensures
            r@ == self@.notes,
    {
        self.notes.clone()
    }
}

impl Clone for Transaction {
    fn clone(&self) -> (res: Self)
        ensures
            res == *self,
    {
        Transaction {
            account_id_1: self.account_id_1,
            account_id_2: self.account_id_2,
            transfer: self.transfer,
            amount: self.amount,
            reference: self.reference.clone(),
            date: self.date,
            notes: self.notes.clone(),
        }
    }
}

impl PartialEq for Transaction {
    fn eq(&self, other: &Transaction) -> (r: bool) {
        self.account_id_1 == other.account_id_1 && self.account_id_2 == other.account_id_2
            && self.transfer == other.transfer && self.amount == other.amount
            && self.reference == other.reference && self.date == other.date && self.notes
            == other.notes
    }
}

impl vstd::std_specs::cmp::PartialEqSpecImpl for Transaction {
    open spec fn obeys_eq_spec() -> bool {
        true
    }

    open spec fn eq_spec(&self, other: &Transaction) -> bool {
        self@ == other@
    }
}

impl Eq for Transaction {

}

/// The first account in the list with the given id, if any.
pub open spec fn find_account(accounts: Seq<Account>, id: u32) -> Option<Account> {
    find_account_from(accounts, id, 0)
}

pub open spec fn find_account_from(accounts: Seq<Account>, id: u32, i: int) -> Option<Account>
    decreases accounts.len() - i,
{
    if i < 0 || i >= accounts.len() {
        None
    } else if accounts[i].id == id {
        Some(accounts[i])
    } else {
        find_account_from(accounts, id, i + 1)
    }
}

/// Looks an account up by id; the error carries the not-found message.
pub fn find_account_exec(accounts: &Vec<Account>, id: u32) -> (r: Result<Account, String>)
    ensures
        match r {
            Ok(a) => find_account(accounts@, id) == Some(a),
            Err(e) => find_account(accounts@, id) is None,
        },
{
    let n = accounts.len();
    let mut i: usize = 0;
    while i < n
        invariant
            i <= n,
            n == accounts@.len(),
            find_account(accounts@, id) == find_account_from(accounts@, id, i as int),
        decreases n - i,
    {
        if accounts[i].id == id {
            return Ok(accounts[i].clone());
        }
        i = i + 1;
    }
    Err(String::from_str("Account not found"))
}

} // verus!
