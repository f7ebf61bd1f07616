//! Storage-deposit accounting: the fixed price per persisted byte, the
//! cost of one ledger entry, and the operations that register accounts,
//! top up, withdraw and release their reserved deposits.

use vstd::prelude::*;
use vstd::pervasive::VecAdditionalExecFns;

use crate::errors::FtError;
use crate::ledger::{
    Account, lemma_at_unique, lemma_push, lemma_remove, lemma_sum_elem, lemma_sum_update,
    lemma_update,
};
use crate::state::Contract;

verus! {

/// Price of one persisted byte, in the native payment unit.
pub const STORAGE_PRICE_PER_BYTE: u128 = 10_000_000_000_000_000_000;

/// Bytes one ledger entry occupies in the persistent store.
pub const ACCOUNT_STORAGE_BYTES: u64 = 128;

/// The payment that must stay reserved while an account is registered:
/// the byte cost of its one ledger entry. This is the lower bound of
/// `storage_balance_bounds` and the minimum first deposit.
pub const ACCOUNT_STORAGE_COST: u128 = 1_280_000_000_000_000_000_000;

/// Converts a byte delta to its cost at the fixed price per byte.
pub fn cost_of(bytes: u64) -> (c: u128)
    ensures
        c as int == bytes as int * STORAGE_PRICE_PER_BYTE as int,
{
    proof {
        assert((bytes as int) * (STORAGE_PRICE_PER_BYTE as int) <= (u64::MAX as int) * (
        STORAGE_PRICE_PER_BYTE as int)) by (nonlinear_arith)
            requires
                bytes as int <= u64::MAX as int,
        ;
    }
    (bytes as u128) * STORAGE_PRICE_PER_BYTE
}

/// Checks that `payment` covers the cost of `bytes_added` grown bytes and
/// computes the excess owed back to the caller.
pub fn require_covered(payment: u128, bytes_added: u64) -> (r: Result<u128, FtError>)
    ensures
        match r {
            Ok(refund) => {
                &&& payment as int >= bytes_added as int * STORAGE_PRICE_PER_BYTE as int
                &&& refund as int == payment as int - bytes_added as int
                    * STORAGE_PRICE_PER_BYTE as int
            },
            Err(e) => {
                &&& e == FtError::InsufficientDeposit
                &&& (payment as int) < bytes_added as int * STORAGE_PRICE_PER_BYTE as int
            },
        },
{
    let cost = cost_of(bytes_added);
    if payment < cost {
        Err(FtError::InsufficientDeposit)
    } else {
        Ok(payment - cost)
    }
}

/// The amount owed back to the caller for `bytes_removed` released bytes.
pub fn refund_for(bytes_removed: u64) -> (c: u128)
    ensures
        c as int == bytes_removed as int * STORAGE_PRICE_PER_BYTE as int,
{
    cost_of(bytes_removed)
}

/// A registered account's deposit position: the whole reserved payment and
/// the part above the one-entry minimum that may still be withdrawn.
#[derive(Clone, Copy, Debug, PartialEq, Eq, Structural)]
pub struct StorageBalance {
    pub total: u128,
    pub available: u128,
}

/// The deposit a registration requires: a fixed minimum and no upper
/// bound in this configuration.
#[derive(Clone, Copy, Debug, PartialEq, Eq)]
pub struct StorageBalanceBounds {
    pub min: u128,
    pub max: Option<u128>,
}

/// What a storage operation settled: the payment owed back to the caller
/// and the account's deposit position afterwards.
#[derive(Clone, Copy, Debug, PartialEq, Eq, Structural)]
pub struct StorageReceipt {
    pub refund: u128,
    pub balance: StorageBalance,
}

/// What an unregistration settled: whether an entry was removed, the
/// deposit owed back, and the balance burned out of the supply. A burn is
/// also the "account closed" notification's final balance.
#[derive(Clone, Copy, Debug, PartialEq, Eq, Structural)]
pub struct UnregisterReceipt {
    pub removed: bool,
    pub refund: u128,
    pub burned: u128,
}

/// The account a storage operation is about: the named one, or the caller
/// when none is named.
pub open spec fn target_of(caller: &String, account: Option<&String>) -> Seq<char> {
    match account {
        Some(a) => a@,
        None => caller@,
    }
}

/// Why `storage_deposit` would be refused, or `None` when it goes
/// through.
pub open spec fn deposit_check(
    pre: Contract,
    target: Seq<char>,
    registration_only: bool,
    payment: u128,
) -> Option<FtError> {
    if !pre.initialized {
        Some(FtError::NotInitialized)
    } else if pre.registered(target) {
        if !registration_only && pre.deposit_of(target) as int + payment as int
            > u128::MAX as int {
            Some(FtError::Overflow)
        } else {
            None
        }
    } else if payment < ACCOUNT_STORAGE_COST {
        Some(FtError::InsufficientDeposit)
    } else {
        None
    }
}

/// Why `storage_withdraw` would be refused, or `None` when it goes
/// through.
pub open spec fn withdraw_check(pre: Contract, id: Seq<char>, amount: Option<u128>) -> Option<
    FtError,
> {
    if !pre.initialized {
        Some(FtError::NotInitialized)
    } else if !pre.registered(id) {
        Some(FtError::AccountNotRegistered)
    } else if amount is Some && amount->0 > pre.deposit_of(id) - ACCOUNT_STORAGE_COST {
        Some(FtError::ExcessWithdrawal)
    } else {
        None
    }
}

/// Why `storage_unregister` would be refused, or `None` when it goes
/// through (removing an entry, or finding none to remove).
pub open spec fn unregister_check(pre: Contract, id: Seq<char>, force: bool) -> Option<FtError> {
    if !pre.initialized {
        Some(FtError::NotInitialized)
    } else if pre.registered(id) && pre.balance_of(id) > 0 && !force {
        Some(FtError::AccountHasBalance)
    } else if pre.registered(id) && pre.balance_of(id) > pre.total_supply {
        Some(FtError::Overflow)
    } else {
        None
    }
}

impl Contract {
    /// The persistent footprint of the ledger, in bytes: one fixed-size
    /// entry per registered account. The storage accountant measures an
    /// operation by taking this before and after.
    pub fn storage_usage(&self) -> (r: u128)
        ensures
            r as int == self.accounts@.len() * ACCOUNT_STORAGE_BYTES as int,
    {
        let n = self.accounts.len();
        proof {
            assert((n as int) * (ACCOUNT_STORAGE_BYTES as int) <= (usize::MAX as int) * (
            ACCOUNT_STORAGE_BYTES as int)) by (nonlinear_arith)
                requires
                    n as int <= usize::MAX as int,
            ;
        }
        (n as u128) * (ACCOUNT_STORAGE_BYTES as u128)
    }

    /// The fixed registration bounds: one entry's byte cost as the
    /// minimum, no upper bound in this configuration.
    pub fn storage_balance_bounds(&self) -> (b: StorageBalanceBounds)
        ensures
            b.min == ACCOUNT_STORAGE_COST,
            b.max is None,
    {
        StorageBalanceBounds { min: ACCOUNT_STORAGE_COST, max: None }
    }

    /// The deposit position of `account`, or `None` when unregistered.
    pub fn storage_balance_of(&self, account: &String) -> (r: Option<StorageBalance>)
        requires
            self.wf(),
        ensures
            match r {
                Some(b) => {
                    &&& self.registered(account@)
                    &&& b.total == self.deposit_of(account@)
                    &&& b.available as int == self.deposit_of(account@) - ACCOUNT_STORAGE_COST
                },
                None => !self.registered(account@),
            },
    {
        match self.find_account(account) {
            Some(i) => {
                proof {
                    lemma_at_unique(self.accounts@, account@);
                }
                let dep = self.accounts[i].deposit;
                Some(StorageBalance { total: dep, available: dep - ACCOUNT_STORAGE_COST })
            },
            None => None,
        }
    }

    /// Registers the named account (or the caller) against the attached
    /// payment, or tops up an existing deposit. A first registration
    /// reserves exactly the one-entry cost and owes the rest back; an
    /// insufficient first payment registers nothing and the whole payment
    /// is owed back with the refusal. On an already-registered account a
    /// registration-only call changes nothing and owes the whole payment
    /// back, while a plain call adds the payment to the reserved deposit.
    pub fn storage_deposit(
        &mut self,
        caller: &String,
        account: Option<&String>,
        registration_only: bool,
        payment: u128,
    ) -> (r: Result<StorageReceipt, FtError>)
        requires
            old(self).wf(),
        ensures
            final(self).wf(),
            match r {
                Ok(receipt) => ({
                    let t = target_of(caller, account);
                    &&& deposit_check(*old(self), t, registration_only, payment) is None
                    &&& final(self).registered(t)
                    &&& receipt.balance.total == final(self).deposit_of(t)
                    &&& receipt.balance.available as int == final(self).deposit_of(t)
                        - ACCOUNT_STORAGE_COST
                    &&& final(self).total_supply == old(self).total_supply
                    &&& final(self).meta == old(self).meta
                    &&& final(self).pending == old(self).pending
                    &&& final(self).next_pending_id == old(self).next_pending_id
                    &&& final(self).initialized
                    &&& final(self).sum_of_balances() == old(self).sum_of_balances()
                    &&& forall|x: Seq<char>| final(self).balance_of(x) == old(self).balance_of(x)
                    &&& forall|x: Seq<char>|
                        x != t ==> final(self).registered(x) == old(self).registered(x)
                    &&& forall|x: Seq<char>|
                        x != t ==> final(self).deposit_of(x) == old(self).deposit_of(x)
                    &&& if old(self).registered(t) {
                        if registration_only {
                            &&& *final(self) == *old(self)
                            &&& receipt.refund == payment
                        } else {
                            &&& final(self).deposit_of(t) as int == old(self).deposit_of(t)
                                + payment
                            &&& receipt.refund == 0
                        }
                    } else {
                        &&& final(self).deposit_of(t) == ACCOUNT_STORAGE_COST
                        &&& final(self).balance_of(t) == 0
                        &&& receipt.refund as int == payment - ACCOUNT_STORAGE_COST
                    }
                }),
                Err(e) => {
                    &&& *final(self) == *old(self)
                    &&& deposit_check(
                        *old(self),
                        target_of(caller, account),
                        registration_only,
                        payment,
                    ) == Some(e)
                },
            },
            old(self).conserved() ==> final(self).conserved(),
    {
        if !self.initialized {
            return Err(FtError::NotInitialized);
        }
        let target: &String = match account {
            Some(a) => a,
            None => caller,
        };
        match self.find_account(target) {
            Some(i) => {
                proof {
                    lemma_at_unique(self.accounts@, target@);
                }
                let dep = self.accounts[i].deposit;
                if registration_only {
                    return Ok(
                        StorageReceipt {
                            refund: payment,
                            balance: StorageBalance {
                                total: dep,
                                available: dep - ACCOUNT_STORAGE_COST,
                            },
                        },
                    );
                }
                if payment > u128::MAX - dep {
                    return Err(FtError::Overflow);
                }
                let aid = self.accounts[i].id.clone();
                let bal = self.accounts[i].balance;
                self.accounts.set(
                    i,
                    Account { id: aid, balance: bal, deposit: dep + payment },
                );
                proof {
                    lemma_update(old(self).accounts@, i as int, self.accounts@[i as int]);
                    lemma_sum_update(old(self).accounts@, i as int, self.accounts@[i as int]);
                }
                Ok(
                    StorageReceipt {
                        refund: 0,
                        balance: StorageBalance {
                            total: dep + payment,
                            available: (dep + payment) - ACCOUNT_STORAGE_COST,
                        },
                    },
                )
            },
            None => {
                let refund = match require_covered(payment, ACCOUNT_STORAGE_BYTES) {
                    Ok(rf) => rf,
                    Err(e) => {
                        return Err(e);
                    },
                };
                let aid = target.clone();
                self.accounts.push(
                    Account { id: aid, balance: 0, deposit: ACCOUNT_STORAGE_COST },
                );
                proof {
                    lemma_push(old(self).accounts@, self.accounts@.last());
                    assert(self.accounts@.drop_last() =~= old(self).accounts@);
                }
                Ok(
                    StorageReceipt {
                        refund,
                        balance: StorageBalance { total: ACCOUNT_STORAGE_COST, available: 0 },
                    },
                )
            },
        }
    }

    /// Pays back part of a registered account's deposit: at most what it
    /// holds above the one-entry minimum, and exactly that excess when no
    /// amount is named. Asking for more than the excess is refused.
    pub fn storage_withdraw(&mut self, caller: &String, amount: Option<u128>) -> (r: Result<
        StorageReceipt,
        FtError,
    >)
        requires
            old(self).wf(),
        ensures
            final(self).wf(),
            match r {
                Ok(receipt) => ({
                    let avail = old(self).deposit_of(caller@) - ACCOUNT_STORAGE_COST;
                    let req = if amount is Some {
                        amount->0 as int
                    } else {
                        avail
                    };
                    &&& withdraw_check(*old(self), caller@, amount) is None
                    &&& old(self).registered(caller@)
                    &&& receipt.refund == req
                    &&& final(self).deposit_of(caller@) as int == old(self).deposit_of(caller@)
                        - req
                    &&& receipt.balance.total == final(self).deposit_of(caller@)
                    &&& receipt.balance.available as int == final(self).deposit_of(caller@)
                        - ACCOUNT_STORAGE_COST
                    &&& forall|x: Seq<char>|
                        final(self).registered(x) == old(self).registered(x)
                    &&& forall|x: Seq<char>| final(self).balance_of(x) == old(self).balance_of(x)
                    &&& forall|x: Seq<char>|
                        x != caller@ ==> final(self).deposit_of(x) == old(self).deposit_of(x)
                    &&& final(self).total_supply == old(self).total_supply
                    &&& final(self).meta == old(self).meta
                    &&& final(self).pending == old(self).pending
                    &&& final(self).next_pending_id == old(self).next_pending_id
                    &&& final(self).initialized
                    &&& final(self).sum_of_balances() == old(self).sum_of_balances()
                }),
                Err(e) => {
                    &&& *final(self) == *old(self)
                    &&& withdraw_check(*old(self), caller@, amount) == Some(e)
                },
            },
            old(self).conserved() ==> final(self).conserved(),
    {
        if !self.initialized {
            return Err(FtError::NotInitialized);
        }
        let i = match self.find_account(caller) {
            Some(i) => i,
            None => {
                return Err(FtError::AccountNotRegistered);
            },
        };
        proof {
            lemma_at_unique(self.accounts@, caller@);
        }
        let dep = self.accounts[i].deposit;
        let avail = dep - ACCOUNT_STORAGE_COST;
        let req = match amount {
            Some(a) => {
                if a > avail {
                    return Err(FtError::ExcessWithdrawal);
                }
                a
            },
            None => avail,
        };
        let aid = self.accounts[i].id.clone();
        let bal = self.accounts[i].balance;
        self.accounts.set(i, Account { id: aid, balance: bal, deposit: dep - req });
        proof {
            lemma_update(old(self).accounts@, i as int, self.accounts@[i as int]);
            lemma_sum_update(old(self).accounts@, i as int, self.accounts@[i as int]);
        }
        Ok(
            StorageReceipt {
                refund: req,
                balance: StorageBalance {
                    total: dep - req,
                    available: (dep - req) - ACCOUNT_STORAGE_COST,
                },
            },
        )
    }

    /// Removes the caller from the registered set, paying its reserved
    /// deposit back. An account still holding tokens is refused unless
    /// `force` is given, in which case its remaining balance is burned
    /// out of the total supply. Unregistering an unknown account removes
    /// nothing and is not an error. A conserving ledger stays conserving
    /// and never runs into the overflow refusal.
    pub fn storage_unregister(&mut self, caller: &String, force: bool) -> (r: Result<
        UnregisterReceipt,
        FtError,
    >)
        requires
            old(self).wf(),
        ensures
            final(self).wf(),
            match r {
                Ok(receipt) => {
                    &&& unregister_check(*old(self), caller@, force) is None
                    &&& if old(self).registered(caller@) {
                        &&& receipt.removed
                        &&& receipt.refund == old(self).deposit_of(caller@)
                        &&& receipt.burned == old(self).balance_of(caller@)
                        &&& !final(self).registered(caller@)
                        &&& forall|x: Seq<char>|
                            x != caller@ ==> final(self).registered(x) == old(self).registered(x)
                        &&& forall|x: Seq<char>|
                            x != caller@ ==> final(self).balance_of(x) == old(self).balance_of(x)
                        &&& forall|x: Seq<char>|
                            x != caller@ ==> final(self).deposit_of(x) == old(self).deposit_of(x)
                        &&& final(self).total_supply as int == old(self).total_supply
                            - receipt.burned
                        &&& final(self).meta == old(self).meta
                        &&& final(self).pending == old(self).pending
                        &&& final(self).next_pending_id == old(self).next_pending_id
                        &&& final(self).initialized
                        &&& final(self).sum_of_balances() == old(self).sum_of_balances()
                            - receipt.burned
                    } else {
                        &&& *final(self) == *old(self)
                        &&& receipt == (UnregisterReceipt { removed: false, refund: 0, burned: 0 })
                    }
                },
                Err(e) => {
                    &&& *final(self) == *old(self)
                    &&& unregister_check(*old(self), caller@, force) == Some(e)
                },
            },
            old(self).conserved() ==> final(self).conserved(),
            old(self).conserved() ==> r != Err::<UnregisterReceipt, FtError>(FtError::Overflow),
    {
        if !self.initialized {
            return Err(FtError::NotInitialized);
        }
        let i = match self.find_account(caller) {
            Some(i) => i,
            None => {
                return Ok(UnregisterReceipt { removed: false, refund: 0, burned: 0 });
            },
        };
        proof {
            lemma_at_unique(self.accounts@, caller@);
        }
        let bal = self.accounts[i].balance;
        if bal > 0 && !force {
            return Err(FtError::AccountHasBalance);
        }
        if bal > self.total_supply {
            proof {
                if self.conserved() {
                    lemma_sum_elem(self.accounts@, i as int);
                }
            }
            return Err(FtError::Overflow);
        }
        let dep = self.accounts[i].deposit;
        self.total_supply = self.total_supply - bal;
        let _removed = self.accounts.remove(i);
        proof {
            lemma_remove(old(self).accounts@, i as int);
        }
        Ok(UnregisterReceipt { removed: true, refund: dep, burned: bal })
    }
}

} // verus!
