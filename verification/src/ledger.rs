//! The ledger itself: the complete state (all accounts plus the running total
//! supply) and the operations on it. Mutating operations either fully apply
//! their effect or leave the ledger unchanged, and every operation preserves
//! the supply invariant: the recorded total supply equals the sum of all
//! account balances.

use vstd::prelude::*;

use crate::account::Account;
use crate::balances::balance_in;
use crate::balances::has_account_in;
use crate::balances::ids_unique;
use crate::balances::lemma_absent;
use crate::balances::lemma_balance_at_index;
use crate::balances::lemma_balance_le_sum;
use crate::balances::lemma_push;
use crate::balances::lemma_sum_take_le;
use crate::balances::lemma_sum_take_succ;
use crate::balances::lemma_update;
use crate::balances::sum_balances;

verus! {

/// Why a ledger operation was refused. On every refusal the ledger is left
/// exactly as it was.
#[derive(Clone, Copy, Debug, PartialEq, Eq)]
pub enum LedgerError {
    /// A transfer named a source account that does not exist.
    AccountNotFound,
    /// A transfer asked for more than the source account holds.
    InsufficientBalance,
    /// A mint would push a balance, and with it the total supply, past the
    /// width of the balance type.
    Overflow,
}

impl LedgerError {
    /// The message reported to callers for this error.
    pub fn message(&self) -> (r: &'static str)
        ensures
            *self is AccountNotFound ==> r@ == "Sender account not found"@,
            *self is InsufficientBalance ==> r@ == "Insufficient balance"@,
            *self is Overflow ==> r@ == "Balance overflow"@,
    {
        match self {
            LedgerError::AccountNotFound => "Sender account not found",
            LedgerError::InsufficientBalance => "Insufficient balance",
            LedgerError::Overflow => "Balance overflow",
        }
    }
}

/// The complete ledger state: every account, and the total supply held as an
/// explicit counter so that it can be read without summing.
pub struct Ledger {
    /// All accounts, each id appearing at most once. The order of the entries
    /// carries no meaning.
    pub accounts: Vec<Account>,
    /// The sum of all account balances, kept as a running counter.
    pub total_supply: u64,
}

impl Ledger {
    /// Well-formedness: the ids are unique, and the recorded total supply
    /// equals the sum of all account balances. Every operation of this crate
    /// preserves it, so it holds of every reachable ledger state.
    pub open spec fn wf(self) -> bool {
        &&& ids_unique(self.accounts@)
        &&& self.total_supply == sum_balances(self.accounts@)
    }

    /// The balance the ledger records for `id`: 0 for an unknown account, by
    /// the deliberate "unknown account has balance zero" policy.
    pub open spec fn spec_balance_of(self, id: Seq<char>) -> u64 {
        balance_in(self.accounts@, id)
    }

    /// Whether an account with id `id` exists in the ledger.
    pub open spec fn spec_has_account(self, id: Seq<char>) -> bool {
        has_account_in(self.accounts@, id)
    }

    /// An empty ledger: zero accounts, zero supply. This is the state at
    /// system initialization, and the fallback a host should use when no
    /// persisted state exists.
    pub fn new() -> (r: Ledger)
        ensures
            r.wf(),
            r.accounts@.len() == 0,
            r.total_supply == 0,
            forall|id: Seq<char>| !r.spec_has_account(id),
            forall|id: Seq<char>| r.spec_balance_of(id) == 0,
    {
        Ledger { accounts: Vec::new(), total_supply: 0 }
    }

    /// The account's balance, or 0 if the account does not exist. Never an
    /// error: unknown accounts read as zero.
    pub fn balance_of(&self, account_id: String) -> (r: u64)
        requires
            self.wf(),
        ensures
            r == self.spec_balance_of(account_id@),
    {
        match find_index(&self.accounts, &account_id) {
            Some(i) => {
                proof {
                    lemma_balance_at_index(self.accounts@, i as int);
                }
                self.accounts[i].balance
            },
            None => {
                proof {
                    lemma_absent(self.accounts@, account_id@);
                }
                0
            },
        }
    }

    /// The current total supply. Never fails.
    pub fn total_supply(&self) -> (r: u64)
        ensures
            r == self.total_supply,
    {
        self.total_supply
    }

    /// Deposit new supply: add `amount` to the balance of `account_id`,
    /// creating the account with balance 0 first if it does not exist, and add
    /// `amount` to the total supply. A zero amount is legal and changes
    /// nothing but still succeeds.
    ///
    /// Overflow policy: if the new total supply (and with it the new balance,
    /// which can never exceed it) would not fit in the balance type, the mint
    /// is refused with `Overflow` and the ledger is left unchanged.
    pub fn mint(&mut self, account_id: String, amount: u64) -> (r: Result<(), LedgerError>)
        requires
            old(self).wf(),
        ensures
            final(self).wf(),
            match r {
                Ok(_) => {
                    &&& old(self).total_supply + amount <= u64::MAX
                    &&& final(self).total_supply == old(self).total_supply + amount
                    &&& final(self).spec_balance_of(account_id@) == old(self).spec_balance_of(
                        account_id@,
                    ) + amount
                    &&& final(self).spec_has_account(account_id@)
                    &&& forall|id: Seq<char>|
                        id != account_id@ ==> final(self).spec_balance_of(id) == old(
                            self,
                        ).spec_balance_of(id)
                    &&& forall|id: Seq<char>|
                        id != account_id@ ==> final(self).spec_has_account(id) == old(
                            self,
                        ).spec_has_account(id)
                },
                Err(e) => {
                    &&& e == LedgerError::Overflow
                    &&& old(self).total_supply + amount > u64::MAX
                    &&& *final(self) == *old(self)
                },
            },
    {
        if amount > u64::MAX - self.total_supply {
            return Err(LedgerError::Overflow);
        }
        match find_index(&self.accounts, &account_id) {
            Some(i) => {
                proof {
                    lemma_balance_at_index(self.accounts@, i as int);
                    lemma_balance_le_sum(self.accounts@, account_id@);
                }
                let new_balance = self.accounts[i].balance + amount;
                self.accounts[i].balance = new_balance;
                self.total_supply = self.total_supply + amount;
                proof {
                    lemma_update(
                        old(self).accounts@,
                        i as int,
                        self.accounts@[i as int],
                    );
                }
            },
            None => {
                proof {
                    lemma_absent(self.accounts@, account_id@);
                }
                let fresh = Account { id: account_id, balance: amount };
                proof {
                    lemma_push(self.accounts@, fresh);
                }
                self.accounts.push(fresh);
                self.total_supply = self.total_supply + amount;
            },
        }
        Ok(())
    }

    /// Move `amount` from `from` to `to`. The source must exist and hold at
    /// least `amount`; the destination is created with balance 0 first if it
    /// does not exist. On either refusal the ledger is left exactly as it
    /// was. The total supply never changes: transfer conserves it.
    ///
    /// A self-transfer (`from == to`) of any amount the source holds succeeds
    /// and leaves the balance unchanged: the debit and the credit cancel.
    /// The credit can never overflow: the moved amount already fits inside
    /// the total supply, which bounds every balance.
    pub fn transfer(&mut self, from: String, to: String, amount: u64) -> (r: Result<
        (),
        LedgerError,
    >)
        requires
            old(self).wf(),
        ensures
            final(self).wf(),
            final(self).total_supply == old(self).total_supply,
            match r {
                Ok(_) => {
                    &&& old(self).spec_has_account(from@)
                    &&& old(self).spec_balance_of(from@) >= amount
                    &&& final(self).spec_has_account(to@)
                    &&& (if from@ == to@ {
                        final(self).spec_balance_of(from@) == old(self).spec_balance_of(from@)
                    } else {
                        &&& final(self).spec_balance_of(from@) == old(self).spec_balance_of(from@)
                            - amount
                        &&& final(self).spec_balance_of(to@) == old(self).spec_balance_of(to@)
                            + amount
                    })
                    &&& forall|id: Seq<char>|
                        id != from@ && id != to@ ==> final(self).spec_balance_of(id) == old(
                            self,
                        ).spec_balance_of(id)
                    &&& forall|id: Seq<char>|
                        id != to@ ==> final(self).spec_has_account(id) == old(
                            self,
                        ).spec_has_account(id)
                },
                Err(e) => {
                    &&& *final(self) == *old(self)
                    &&& (e == LedgerError::AccountNotFound || e == LedgerError::InsufficientBalance)
                    &&& (e == LedgerError::AccountNotFound <==> !old(self).spec_has_account(from@))
                    &&& (e == LedgerError::InsufficientBalance ==> old(self).spec_balance_of(from@)
                        < amount)
                },
            },
    {
        let from_idx = match find_index(&self.accounts, &from) {
            Some(i) => i,
            None => {
                proof {
                    lemma_absent(self.accounts@, from@);
                }
                return Err(LedgerError::AccountNotFound);
            },
        };
        proof {
            lemma_balance_at_index(self.accounts@, from_idx as int);
        }
        let from_balance = self.accounts[from_idx].balance;
        if from_balance < amount {
            return Err(LedgerError::InsufficientBalance);
        }
        if from == to {
            return Ok(());
        }
        self.accounts[from_idx].balance = from_balance - amount;
        proof {
            lemma_update(
                old(self).accounts@,
                from_idx as int,
                self.accounts@[from_idx as int],
            );
        }
        match find_index(&self.accounts, &to) {
            Some(j) => {
                proof {
                    lemma_balance_at_index(self.accounts@, j as int);
                    lemma_balance_le_sum(self.accounts@, to@);
                }
                let new_to_balance = self.accounts[j].balance + amount;
                let ghost debited = self.accounts@;
                self.accounts[j].balance = new_to_balance;
                proof {
                    lemma_update(debited, j as int, self.accounts@[j as int]);
                }
            },
            None => {
                proof {
                    lemma_absent(self.accounts@, to@);
                }
                let fresh = Account { id: to, balance: amount };
                proof {
                    lemma_push(self.accounts@, fresh);
                }
                self.accounts.push(fresh);
            },
        }
        Ok(())
    }

    /// Whether this ledger value is well formed: unique ids, and a total
    /// supply that equals the sum of all balances. A host that obtained a
    /// ledger from untrusted storage can validate it with this check before
    /// operating on it.
    pub fn is_well_formed(&self) -> (b: bool)
        ensures
            b == self.wf(),
    {
        let n = self.accounts.len();
        let mut i: usize = 0;
        while i < n
            invariant
                n == self.accounts@.len(),
                i <= n,
                forall|p: int, q: int|
                    0 <= p < q < n && p < i ==> self.accounts@[p].id@ != self.accounts@[q].id@,
            decreases n - i,
        {
            let mut j: usize = i + 1;
            while j < n
                invariant
                    n == self.accounts@.len(),
                    i < n,
                    i < j <= n,
                    forall|q: int| i < q < j ==> self.accounts@[i as int].id@ != self.accounts@[q].id@,
                decreases n - j,
            {
                if self.accounts[i].id == self.accounts[j].id {
                    return false;
                }
                j = j + 1;
            }
            i = i + 1;
        }
        let mut sum: u64 = 0;
        let mut k: usize = 0;
        while k < n
            invariant
                n == self.accounts@.len(),
                k <= n,
                ids_unique(self.accounts@),
                sum == sum_balances(self.accounts@.take(k as int)),
            decreases n - k,
        {
            proof {
                lemma_sum_take_succ(self.accounts@, k as int);
            }
            let b = self.accounts[k].balance;
            if b > u64::MAX - sum {
                proof {
                    lemma_sum_take_le(self.accounts@, k as int + 1);
                }
                return false;
            }
            sum = sum + b;
            k = k + 1;
        }
        proof {
            assert(self.accounts@.take(n as int) =~= self.accounts@);
        }
        self.total_supply == sum
    }
}

impl Default for Ledger {
    /// The default ledger is the empty one: zero accounts, zero supply.
    fn default() -> (r: Ledger)
        ensures
            r.wf(),
            r.accounts@.len() == 0,
            r.total_supply == 0,
    {
        Ledger::new()
    }
}

/// The index of the account carrying `id`, if one exists.
fn find_index(accounts: &Vec<Account>, id: &String) -> (r: Option<usize>)
    ensures
        match r {
            Some(i) => i < accounts@.len() && accounts@[i as int].id@ == id@,
            None => forall|i: int| 0 <= i < accounts@.len() ==> accounts@[i].id@ != id@,
        },
{
    let n = accounts.len();
    let mut k: usize = 0;
    while k < n
        invariant
            n == accounts@.len(),
            k <= n,
            forall|i: int| 0 <= i < k ==> accounts@[i].id@ != id@,
        decreases n - k,
    {
        if accounts[k].id == *id {
            return Some(k);
        }
        k = k + 1;
    }
    None
}

/// Law: in every well-formed ledger the recorded total supply equals the sum
/// of all account balances.
pub proof fn lemma_supply_is_sum_of_balances(l: Ledger)
    requires
        l.wf(),
    ensures
        l.total_supply == sum_balances(l.accounts@),
{
}

/// Law: no single balance can exceed the total supply.
pub proof fn lemma_balance_bounded_by_supply(l: Ledger, id: Seq<char>)
    requires
        l.wf(),
    ensures
        l.spec_balance_of(id) <= l.total_supply,
{
    lemma_balance_le_sum(l.accounts@, id);
}

} // verus!
