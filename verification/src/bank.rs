//! Accounts with a balance in the smallest unit of currency, and a bank that
//! holds them.

use vstd::prelude::*;
use vstd::string::*;
use crate::text::{push_signed_decimal, signed_decimal};

verus! {

/// An account; the balance counts hundredths, so 1023 stands for 10.23.
#[derive(Debug)]
pub struct Account {
    pub id: u32,
    pub balance: isize,
    pub holder: String,
}

/// What a request to withdraw comes to.
#[derive(Debug, Clone, Copy, PartialEq, Eq, Structural)]
pub enum Debit {
    /// The amount is taken from the balance.
    Withdrawn,
    /// The amount is more than the balance.
    InsufficientFunds,
    /// The amount is negative, or it is the whole balance; nothing happens.
    Ignored,
}

/// What a withdrawal of `withdrawal` from a balance of `balance` comes to.
pub open spec fn debit_of(balance: int, withdrawal: int) -> Debit {
    if withdrawal >= 0 && withdrawal < balance {
        Debit::Withdrawn
    } else if withdrawal > balance {
        Debit::InsufficientFunds
    } else {
        Debit::Ignored
    }
}

impl Account {
    /// The text of the account's summary.
    pub open spec fn summary_text(&self) -> Seq<char> {
        self.holder@ + " has a balance of "@ + signed_decimal(self.balance as int)
    }

    /// A new account with nothing in it.
    pub fn new(id: u32, holder: String) -> (account: Self)
        ensures
            account.id == id,
            account.holder == holder,
            account.balance == 0,
    {
        Account { id, holder, balance: 0 }
    }

    /// Adds `deposit` to the balance, unless it is negative, and returns the
    /// balance that results.
    pub fn credit_funds(&mut self, deposit: isize) -> (balance: isize)
        requires
            old(self).balance + deposit <= isize::MAX,
        ensures
            deposit >= 0 ==> final(self).balance == old(self).balance + deposit,
            deposit < 0 ==> final(self).balance == old(self).balance,
            final(self).id == old(self).id,
            final(self).holder == old(self).holder,
            balance == final(self).balance,
    {
        if deposit >= 0 {
            self.balance += deposit;
        }
        self.balance
    }

    /// What `debit_funds` would do with `withdrawal`.
    pub fn debit_outcome(&self, withdrawal: isize) -> (outcome: Debit)
        ensures
            outcome == debit_of(self.balance as int, withdrawal as int),
    {
        if withdrawal >= 0 && withdrawal < self.balance {
            Debit::Withdrawn
        } else if withdrawal > self.balance {
            Debit::InsufficientFunds
        } else {
            Debit::Ignored
        }
    }

    /// Takes `withdrawal` from the balance where it is not negative and less
    /// than the balance, and returns the balance that results.
    pub fn debit_funds(&mut self, withdrawal: isize) -> (balance: isize)
        ensures
            debit_of(old(self).balance as int, withdrawal as int) == Debit::Withdrawn
                ==> final(self).balance == old(self).balance - withdrawal,
            debit_of(old(self).balance as int, withdrawal as int) != Debit::Withdrawn
                ==> final(self).balance == old(self).balance,
            final(self).id == old(self).id,
            final(self).holder == old(self).holder,
            balance == final(self).balance,
    {
        match self.debit_outcome(withdrawal) {
            Debit::Withdrawn => {
                self.balance -= withdrawal;
            },
            _ => {},
        }
        self.balance
    }

    /// A line that names the holder and the balance.
    pub fn account_summary(&self) -> (text: String)
        ensures
            text@ == self.summary_text(),
    {
        let mut text = self.holder.clone();
        text.append(" has a balance of ");
        push_signed_decimal(&mut text, self.balance as i128);
        text
    }
}

/// The sum of the balances of `accounts`.
pub open spec fn total(accounts: Seq<Account>) -> int
    decreases accounts.len(),
{
    if accounts.len() == 0 {
        0
    } else {
        total(accounts.drop_last()) + accounts.last().balance
    }
}

/// The accounts of a bank, in the order they were added.
#[derive(Debug)]
pub struct Bank {
    pub accounts: Vec<Account>,
}

impl View for Bank {
    type V = Seq<Account>;

    open spec fn view(&self) -> Seq<Account> {
        self.accounts@
    }
}

impl Bank {
    /// Whether the balances can be added up one after the other without
    /// leaving the range of `isize`.
    pub open spec fn sum_fits(&self) -> bool {
        forall|n: int|
            0 <= n <= self@.len() ==> isize::MIN <= #[trigger] total(self@.take(n)) <= isize::MAX
    }

    /// A bank with no accounts.
    pub fn new() -> (bank: Self)
        ensures
            bank@ == Seq::<Account>::empty(),
    {
        Bank { accounts: Vec::new() }
    }

    /// Adds `account` after the accounts already held.
    pub fn add_account(&mut self, account: Account)
        ensures
            final(self)@ == old(self)@.push(account),
    {
        self.accounts.push(account);
    }

    /// The sum of all balances.
    pub fn sum_accounts(&self) -> (sum: isize)
        requires
            self.sum_fits(),
        ensures
            sum == total(self@),
    {
        let mut sum: isize = 0;
        let mut i: usize = 0;
        while i < self.accounts.len()
            invariant
                i <= self@.len(),
                self.sum_fits(),
                sum == total(self@.take(i as int)),
            decreases self@.len() - i,
        {
            assert(self@.take(i + 1).drop_last() =~= self@.take(i as int));
            assert(self@.take(i + 1).last() == self@[i as int]);
            assert(total(self@.take(i + 1)) == sum + self@[i as int].balance);
            assert(isize::MIN <= total(self@.take(i + 1)) <= isize::MAX);
            sum = sum + self.accounts[i].balance;
            i += 1;
        }
        assert(self@.take(i as int) =~= self@);
        sum
    }

    /// Whether `sum_accounts` can be called: the running sum of the balances
    /// stays within `isize`.
    pub fn sum_accounts_checked(&self) -> (sum: Option<isize>)
        ensures
            sum is Some <==> self.sum_fits(),
            sum is Some ==> sum->0 == total(self@),
    {
        let mut sum: isize = 0;
        let mut i: usize = 0;
        while i < self.accounts.len()
            invariant
                i <= self@.len(),
                sum == total(self@.take(i as int)),
                forall|n: int|
                    0 <= n <= i ==> isize::MIN <= #[trigger] total(self@.take(n)) <= isize::MAX,
            decreases self@.len() - i,
        {
            assert(self@.take(i + 1).drop_last() =~= self@.take(i as int));
            assert(self@.take(i + 1).last() == self@[i as int]);
            assert(total(self@.take(i + 1)) == sum + self@[i as int].balance);
            match sum.checked_add(self.accounts[i].balance) {
                Some(next) => {
                    sum = next;
                },
                None => {
                    assert(!(isize::MIN <= total(self@.take(i + 1)) <= isize::MAX));
                    return None;
                },
            }
            i += 1;
        }
        assert(self@.take(i as int) =~= self@);
        Some(sum)
    }

    /// The summary of each account, in the order of the accounts.
    pub fn accounts_summary(&self) -> (summaries: Vec<String>)
        ensures
            summaries@.len() == self@.len(),
            forall|i: int|
                0 <= i < self@.len() ==> #[trigger] summaries@[i]@ == self@[i].summary_text(),
    {
        let mut summaries: Vec<String> = Vec::new();
        let mut i: usize = 0;
        while i < self.accounts.len()
            invariant
                i <= self@.len(),
                summaries@.len() == i,
                forall|k: int| 0 <= k < i ==> #[trigger] summaries@[k]@ == self@[k].summary_text(),
            decreases self@.len() - i,
        {
            summaries.push(self.accounts[i].account_summary());
            i += 1;
        }
        summaries
    }
}

} // verus!
