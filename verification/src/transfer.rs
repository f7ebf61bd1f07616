//! The transfer protocol: the single-call transfer and the two-phase
//! transfer-and-notify operation with its commit, refund and rollback
//! rules.

use vstd::prelude::*;
use vstd::pervasive::VecAdditionalExecFns;

use crate::errors::FtError;
use crate::ledger::{
    Account, lemma_at_unique, lemma_sum_elem, lemma_sum_two_elems, lemma_sum_update, lemma_update,
};
use crate::state::{Contract, PendingTransfer, has_pending, lemma_pending_remove, pending_at};

verus! {

/// What became of the external notification dispatched by the initiate
/// phase, as observed by the host when the resolve phase starts.
#[derive(Clone, Copy, Debug, PartialEq, Eq, Structural)]
pub enum CallOutcome {
    /// The external call failed outright; the whole transfer rolls back.
    Failed,
    /// The notified party declared how much of the amount it consumed.
    Used(u128),
}

/// The notification the host must dispatch after an initiate phase.
#[derive(Clone, Debug, PartialEq, Eq)]
pub struct NotifyAction {
    /// Correlation identifier to hand back to the resolve phase.
    pub pending_id: u64,
    pub sender: String,
    pub receiver: String,
    pub amount: u128,
    pub message: String,
}

/// What a resolve phase settled: the amount reported back to the original
/// caller as unused, the part of it credited back to the sender, and the
/// part burned because the sender was gone.
#[derive(Clone, Copy, Debug, PartialEq, Eq, Structural)]
pub struct ResolveReceipt {
    pub unused: u128,
    pub refunded: u128,
    pub burned: u128,
}

/// The amount left unconsumed by the notified party: everything on an
/// outright failure, and `amount - u` for a declared use of `u`, where a
/// declaration beyond `amount` counts as having used everything.
pub open spec fn clamped_unused(amount: u128, outcome: CallOutcome) -> u128 {
    match outcome {
        CallOutcome::Failed => amount,
        CallOutcome::Used(u) => if u > amount {
            0
        } else {
            (amount - u) as u128
        },
    }
}

/// The smaller of two amounts.
pub open spec fn min_u128(a: u128, b: u128) -> u128 {
    if a <= b {
        a
    } else {
        b
    }
}

/// Why a transfer of `amount` from `sender` to `receiver` under an
/// attached `payment` would be refused, or `None` when it goes through.
/// One minimal unit of payment is demanded purely as an anti-spam guard.
pub open spec fn transfer_check(
    pre: Contract,
    sender: Seq<char>,
    receiver: Seq<char>,
    amount: u128,
    payment: u128,
) -> Option<FtError> {
    if !pre.initialized {
        Some(FtError::NotInitialized)
    } else if payment < 1 {
        Some(FtError::InsufficientDeposit)
    } else if amount == 0 {
        Some(FtError::InvalidAmount)
    } else if !pre.registered(receiver) {
        Some(FtError::AccountNotRegistered)
    } else if pre.balance_of(sender) < amount {
        Some(FtError::InsufficientBalance)
    } else if sender != receiver && pre.balance_of(receiver) as int + amount as int
        > u128::MAX as int {
        Some(FtError::Overflow)
    } else {
        None
    }
}

impl Contract {
    /// Moves `amount` tokens from `sender` to `receiver` in one atomic
    /// step: on success the sender's balance drops by exactly `amount`,
    /// the receiver's rises by exactly `amount`, and nothing else — no
    /// registration, deposit, supply or pending record — changes. On any
    /// refusal the state is exactly as it was. A conserving ledger stays
    /// conserving, and never runs into the overflow refusal.
    pub fn ft_transfer(
        &mut self,
        sender: &String,
        receiver: &String,
        amount: u128,
        payment: u128,
        _memo: Option<&String>,
    ) -> (r: Result<(), FtError>)
        requires
            old(self).wf(),
        ensures
            final(self).wf(),
            match r {
                Ok(()) => {
                    &&& transfer_check(*old(self), sender@, receiver@, amount, payment) is None
                    &&& forall|x: Seq<char>|
                        final(self).registered(x) == old(self).registered(x)
                    &&& forall|x: Seq<char>| final(self).deposit_of(x) == old(self).deposit_of(x)
                    &&& forall|x: Seq<char>|
                        #![trigger final(self).balance_of(x)]
                        final(self).balance_of(x) as int == old(self).balance_of(x) + (
                        if x == receiver@ {
                            amount as int
                        } else {
                            0
                        }) - (if x == sender@ {
                            amount as int
                        } else {
                            0
                        })
                    &&& final(self).total_supply == old(self).total_supply
                    &&& final(self).meta == old(self).meta
                    &&& final(self).pending == old(self).pending
                    &&& final(self).next_pending_id == old(self).next_pending_id
                    &&& final(self).initialized
                    &&& final(self).sum_of_balances() == old(self).sum_of_balances()
                },
                Err(e) => {
                    &&& *final(self) == *old(self)
                    &&& transfer_check(*old(self), sender@, receiver@, amount, payment) == Some(e)
                },
            },
            old(self).conserved() ==> final(self).conserved(),
            old(self).conserved() ==> r != Err::<(), FtError>(FtError::Overflow),
    {
        if !self.initialized {
            return Err(FtError::NotInitialized);
        }
        if payment < 1 {
            return Err(FtError::InsufficientDeposit);
        }
        if amount == 0 {
            return Err(FtError::InvalidAmount);
        }
        let ri = match self.find_account(receiver) {
            Some(i) => i,
            None => {
                return Err(FtError::AccountNotRegistered);
            },
        };
        let si = match self.find_account(sender) {
            Some(i) => i,
            None => {
                return Err(FtError::InsufficientBalance);
            },
        };
        let sbal = self.accounts[si].balance;
        if sbal < amount {
            return Err(FtError::InsufficientBalance);
        }
        if si == ri {
            return Ok(());
        }
        let rbal = self.accounts[ri].balance;
        if rbal > u128::MAX - amount {
            proof {
                if self.conserved() {
                    lemma_sum_two_elems(self.accounts@, si as int, ri as int);
                }
            }
            return Err(FtError::Overflow);
        }
        let ghost s0 = self.accounts@;
        let sid = self.accounts[si].id.clone();
        let sdep = self.accounts[si].deposit;
        self.accounts.set(si, Account { id: sid, balance: sbal - amount, deposit: sdep });
        let ghost s1 = self.accounts@;
        let rid = self.accounts[ri].id.clone();
        let rdep = self.accounts[ri].deposit;
        self.accounts.set(ri, Account { id: rid, balance: rbal + amount, deposit: rdep });
        proof {
            let deb = s1[si as int];
            let cred = self.accounts@[ri as int];
            lemma_at_unique(s0, sender@);
            lemma_at_unique(s0, receiver@);
            lemma_update(s0, si as int, deb);
            lemma_sum_update(s0, si as int, deb);
            assert(s1[ri as int] == s0[ri as int]);
            lemma_at_unique(s1, receiver@);
            lemma_update(s1, ri as int, cred);
            lemma_sum_update(s1, ri as int, cred);
            assert forall|x: Seq<char>|
                #![trigger final(self).balance_of(x)]
                final(self).balance_of(x) as int == old(self).balance_of(x) + (
            if x == receiver@ {
                amount as int
            } else {
                0
            }) - (if x == sender@ {
                amount as int
            } else {
                0
            }) by {
                if x == sender@ {
                } else if x == receiver@ {
                } else {
                }
            }
        }
        Ok(())
    }
}

/// Why the initiate phase of a transfer-and-notify would be refused, or
/// `None` when it goes through: everything a plain transfer demands, and
/// a correlation identifier must still be available.
pub open spec fn transfer_call_check(
    pre: Contract,
    sender: Seq<char>,
    receiver: Seq<char>,
    amount: u128,
    payment: u128,
) -> Option<FtError> {
    if transfer_check(pre, sender, receiver, amount, payment) is Some {
        transfer_check(pre, sender, receiver, amount, payment)
    } else if pre.next_pending_id == u64::MAX {
        Some(FtError::Overflow)
    } else {
        None
    }
}

/// Why a resolve phase would be refused, or `None` when it goes through
/// (consuming a record, or finding none to consume).
pub open spec fn resolve_check(pre: Contract, id: u64, outcome: CallOutcome) -> Option<FtError> {
    if !pre.initialized {
        Some(FtError::NotInitialized)
    } else if !has_pending(pre.pending@, id) {
        None
    } else {
        let p = pre.pending@[pending_at(pre.pending@, id)];
        let unused = clamped_unused(p.amount, outcome);
        if unused == 0 {
            None
        } else if pre.registered(p.receiver@) {
            let reclaim = min_u128(unused, pre.balance_of(p.receiver@));
            if p.sender@ == p.receiver@ {
                None
            } else if pre.registered(p.sender@) {
                if pre.balance_of(p.sender@) as int + reclaim as int > u128::MAX as int {
                    Some(FtError::Overflow)
                } else {
                    None
                }
            } else if reclaim > pre.total_supply {
                Some(FtError::Overflow)
            } else {
                None
            }
        } else if pre.registered(p.sender@) {
            if pre.balance_of(p.sender@) as int + unused as int > u128::MAX as int {
                Some(FtError::Overflow)
            } else {
                None
            }
        } else {
            None
        }
    }
}

/// The one corner where a resolve phase may break conservation: a record
/// with something left unused whose receiver was unregistered during the
/// suspension window while its sender still stands. The refund then
/// re-credits the sender although the receiver's provisional credit was
/// already burned. Every other resolve keeps the ledger conserving.
pub open spec fn resolve_preserves_conservation(
    pre: Contract,
    id: u64,
    outcome: CallOutcome,
) -> bool {
    !has_pending(pre.pending@, id) || {
        let p = pre.pending@[pending_at(pre.pending@, id)];
        ||| clamped_unused(p.amount, outcome) == 0
        ||| pre.registered(p.receiver@)
        ||| !pre.registered(p.sender@)
    }
}

impl Contract {
    /// The initiate phase of a transfer-and-notify: moves the tokens as a
    /// plain transfer would, records the transfer as in flight, and hands
    /// back the notification the host must dispatch to the receiving
    /// party. The ledger then stands in the protocol's accepted
    /// provisional state until the resolve phase consumes the record.
    pub fn ft_transfer_call(
        &mut self,
        sender: &String,
        receiver: &String,
        amount: u128,
        payment: u128,
        _memo: Option<&String>,
        message: &String,
    ) -> (r: Result<NotifyAction, FtError>)
        requires
            old(self).wf(),
        ensures
            final(self).wf(),
            match r {
                Ok(act) => {
                    &&& transfer_call_check(*old(self), sender@, receiver@, amount, payment)
                        is None
                    &&& act.pending_id == old(self).next_pending_id
                    &&& act.sender@ == sender@
                    &&& act.receiver@ == receiver@
                    &&& act.amount == amount
                    &&& act.message@ == message@
                    &&& forall|x: Seq<char>|
                        final(self).registered(x) == old(self).registered(x)
                    &&& forall|x: Seq<char>| final(self).deposit_of(x) == old(self).deposit_of(x)
                    &&& forall|x: Seq<char>|
                        #![trigger final(self).balance_of(x)]
                        final(self).balance_of(x) as int == old(self).balance_of(x) + (
                        if x == receiver@ {
                            amount as int
                        } else {
                            0
                        }) - (if x == sender@ {
                            amount as int
                        } else {
                            0
                        })
                    &&& final(self).total_supply == old(self).total_supply
                    &&& final(self).meta == old(self).meta
                    &&& final(self).initialized
                    &&& final(self).sum_of_balances() == old(self).sum_of_balances()
                    &&& final(self).next_pending_id == old(self).next_pending_id + 1
                    &&& final(self).pending@.len() == old(self).pending@.len() + 1
                    &&& forall|j: int|
                        0 <= j < old(self).pending@.len() ==> final(self).pending@[j] == old(
                            self,
                        ).pending@[j]
                    &&& final(self).pending@.last().id == old(self).next_pending_id
                    &&& final(self).pending@.last().sender@ == sender@
                    &&& final(self).pending@.last().receiver@ == receiver@
                    &&& final(self).pending@.last().amount == amount
                    &&& final(self).pending@.last().message@ == message@
                    &&& has_pending(final(self).pending@, old(self).next_pending_id)
                },
                Err(e) => {
                    &&& *final(self) == *old(self)
                    &&& transfer_call_check(*old(self), sender@, receiver@, amount, payment)
                        == Some(e)
                },
            },
            old(self).conserved() ==> final(self).conserved(),
            old(self).conserved() && old(self).next_pending_id < u64::MAX ==> r != Err::<
                NotifyAction,
                FtError,
            >(FtError::Overflow),
    {
        if !self.initialized {
            return Err(FtError::NotInitialized);
        }
        if payment < 1 {
            return Err(FtError::InsufficientDeposit);
        }
        if amount == 0 {
            return Err(FtError::InvalidAmount);
        }
        let ri = match self.find_account(receiver) {
            Some(i) => i,
            None => {
                return Err(FtError::AccountNotRegistered);
            },
        };
        let si = match self.find_account(sender) {
            Some(i) => i,
            None => {
                return Err(FtError::InsufficientBalance);
            },
        };
        let sbal = self.accounts[si].balance;
        if sbal < amount {
            return Err(FtError::InsufficientBalance);
        }
        let rbal = self.accounts[ri].balance;
        if si != ri && rbal > u128::MAX - amount {
            proof {
                if self.conserved() {
                    lemma_sum_two_elems(self.accounts@, si as int, ri as int);
                }
            }
            return Err(FtError::Overflow);
        }
        if self.next_pending_id == u64::MAX {
            return Err(FtError::Overflow);
        }
        if si != ri {
            let ghost s0 = self.accounts@;
            let sid = self.accounts[si].id.clone();
            let sdep = self.accounts[si].deposit;
            self.accounts.set(si, Account { id: sid, balance: sbal - amount, deposit: sdep });
            let ghost s1 = self.accounts@;
            let rid = self.accounts[ri].id.clone();
            let rdep = self.accounts[ri].deposit;
            self.accounts.set(ri, Account { id: rid, balance: rbal + amount, deposit: rdep });
            proof {
                let deb = s1[si as int];
                let cred = self.accounts@[ri as int];
                lemma_at_unique(s0, sender@);
                lemma_at_unique(s0, receiver@);
                lemma_update(s0, si as int, deb);
                lemma_sum_update(s0, si as int, deb);
                assert(s1[ri as int] == s0[ri as int]);
                lemma_at_unique(s1, receiver@);
                lemma_update(s1, ri as int, cred);
                lemma_sum_update(s1, ri as int, cred);
            }
        }
        let pid = self.next_pending_id;
        self.next_pending_id = pid + 1;
        self.pending.push(
            PendingTransfer {
                id: pid,
                sender: sender.clone(),
                receiver: receiver.clone(),
                amount,
                message: message.clone(),
            },
        );
        proof {
            let q0 = old(self).pending@;
            let q1 = self.pending@;
            assert forall|p: int, q: int| 0 <= p < q < q1.len() implies q1[p].id != q1[q].id by {
                if q == q0.len() {
                    assert(q1[p] == q0[p]);
                } else {
                    assert(q1[p] == q0[p]);
                    assert(q1[q] == q0[q]);
                }
            }
            assert(q1[q0.len() as int].id == pid);
            assert forall|x: Seq<char>|
                #![trigger final(self).balance_of(x)]
                final(self).balance_of(x) as int == old(self).balance_of(x) + (
            if x == receiver@ {
                amount as int
            } else {
                0
            }) - (if x == sender@ {
                amount as int
            } else {
                0
            }) by {}
        }
        Ok(
            NotifyAction {
                pending_id: pid,
                sender: sender.clone(),
                receiver: receiver.clone(),
                amount,
                message: message.clone(),
            },
        )
    }

    /// The resolve phase of a transfer-and-notify: consumes the in-flight
    /// record exactly once (resolving an unknown or already-consumed
    /// identifier changes nothing), reclaims whatever the notified party
    /// left unused from the receiver as far as the receiver still holds
    /// it, credits it back to the sender while the sender still stands
    /// (burning it otherwise), and on an unregistered receiver re-credits
    /// the sender with the whole unused amount as the conservative
    /// rollback policy demands. The receipt reports the unused amount
    /// owed to the original caller and what was actually credited or
    /// burned.
    pub fn ft_resolve_transfer(&mut self, transfer_id: u64, outcome: CallOutcome) -> (r: Result<
        ResolveReceipt,
        FtError,
    >)
        requires
            old(self).wf(),
        ensures
            final(self).wf(),
            match r {
                Ok(receipt) => {
                    &&& resolve_check(*old(self), transfer_id, outcome) is None
                    &&& final(self).meta == old(self).meta
                    &&& final(self).next_pending_id == old(self).next_pending_id
                    &&& final(self).initialized == old(self).initialized
                    &&& forall|x: Seq<char>|
                        final(self).registered(x) == old(self).registered(x)
                    &&& forall|x: Seq<char>| final(self).deposit_of(x) == old(self).deposit_of(x)
                    &&& !has_pending(final(self).pending@, transfer_id)
                    &&& if !has_pending(old(self).pending@, transfer_id) {
                        &&& *final(self) == *old(self)
                        &&& receipt == (ResolveReceipt { unused: 0, refunded: 0, burned: 0 })
                    } else {
                        ({
                            let pi = pending_at(old(self).pending@, transfer_id);
                        let p = old(self).pending@[pi];
                        let unused = clamped_unused(p.amount, outcome);
                        let recv_reg = old(self).registered(p.receiver@);
                        let send_reg = old(self).registered(p.sender@);
                        let reclaim = if recv_reg {
                            min_u128(unused, old(self).balance_of(p.receiver@))
                        } else {
                            0u128
                        };
                        let credit = if recv_reg {
                            if send_reg {
                                reclaim
                            } else {
                                0u128
                            }
                        } else if send_reg {
                            unused
                        } else {
                            0u128
                        };
                        let burn = if recv_reg && !send_reg {
                            reclaim
                        } else {
                            0u128
                        };
                        &&& receipt.unused == unused
                        &&& receipt.refunded == credit
                        &&& receipt.burned == burn
                        &&& final(self).pending@ == old(self).pending@.remove(pi)
                        &&& final(self).total_supply as int == old(self).total_supply - burn
                        &&& forall|x: Seq<char>|
                            #![trigger final(self).balance_of(x)]
                            final(self).balance_of(x) as int == old(self).balance_of(x) - (
                            if recv_reg && x == p.receiver@ {
                                reclaim as int
                            } else {
                                0
                            }) + (if x == p.sender@ {
                                credit as int
                            } else {
                                0
                            })
                            &&& final(self).sum_of_balances() == old(self).sum_of_balances() - (
                            if recv_reg {
                                reclaim as int
                            } else {
                                0
                            }) + credit
                        })
                    }
                },
                Err(e) => {
                    &&& *final(self) == *old(self)
                    &&& resolve_check(*old(self), transfer_id, outcome) == Some(e)
                },
            },
            old(self).conserved() && resolve_preserves_conservation(
                *old(self),
                transfer_id,
                outcome,
            ) && r is Ok ==> final(self).conserved(),
            old(self).initialized && old(self).conserved() && resolve_preserves_conservation(
                *old(self),
                transfer_id,
                outcome,
            ) ==> r is Ok,
    {
        if !self.initialized {
            return Err(FtError::NotInitialized);
        }
        let pi = match self.find_pending(transfer_id) {
            Some(i) => i,
            None => {
                return Ok(ResolveReceipt { unused: 0, refunded: 0, burned: 0 });
            },
        };
        let amount = self.pending[pi].amount;
        let unused = match outcome {
            CallOutcome::Failed => amount,
            CallOutcome::Used(u) => {
                if u > amount {
                    0
                } else {
                    amount - u
                }
            },
        };
        let sender = self.pending[pi].sender.clone();
        let receiver = self.pending[pi].receiver.clone();
        let ri_opt = self.find_account(&receiver);
        let si_opt = self.find_account(&sender);
        proof {
            lemma_pending_remove(self.pending@, pi as int);
        }
        if unused == 0 {
            let _removed = self.pending.remove(pi);
            return Ok(ResolveReceipt { unused: 0, refunded: 0, burned: 0 });
        }
        match ri_opt {
            Some(ri) => {
                proof {
                    lemma_at_unique(self.accounts@, receiver@);
                }
                let rbal = self.accounts[ri].balance;
                let reclaim = if unused <= rbal {
                    unused
                } else {
                    rbal
                };
                match si_opt {
                    Some(si) => {
                        if si == ri {
                            let _removed = self.pending.remove(pi);
                            return Ok(
                                ResolveReceipt { unused, refunded: reclaim, burned: 0 },
                            );
                        }
                        let sbal = self.accounts[si].balance;
                        if sbal > u128::MAX - reclaim {
                            proof {
                                if self.conserved() {
                                    lemma_sum_two_elems(self.accounts@, si as int, ri as int);
                                }
                            }
                            return Err(FtError::Overflow);
                        }
                        let _removed = self.pending.remove(pi);
                        let ghost s0 = self.accounts@;
                        let rid = self.accounts[ri].id.clone();
                        let rdep = self.accounts[ri].deposit;
                        self.accounts.set(
                            ri,
                            Account { id: rid, balance: rbal - reclaim, deposit: rdep },
                        );
                        let ghost s1 = self.accounts@;
                        let sid = self.accounts[si].id.clone();
                        let sdep = self.accounts[si].deposit;
                        self.accounts.set(
                            si,
                            Account { id: sid, balance: sbal + reclaim, deposit: sdep },
                        );
                        proof {
                            let deb = s1[ri as int];
                            let cred = self.accounts@[si as int];
                            lemma_at_unique(s0, sender@);
                            lemma_update(s0, ri as int, deb);
                            lemma_sum_update(s0, ri as int, deb);
                            assert(s1[si as int] == s0[si as int]);
                            lemma_at_unique(s1, sender@);
                            lemma_update(s1, si as int, cred);
                            lemma_sum_update(s1, si as int, cred);
                        }
                        Ok(ResolveReceipt { unused, refunded: reclaim, burned: 0 })
                    },
                    None => {
                        if reclaim > self.total_supply {
                            proof {
                                if self.conserved() {
                                    lemma_sum_elem(self.accounts@, ri as int);
                                }
                            }
                            return Err(FtError::Overflow);
                        }
                        let _removed = self.pending.remove(pi);
                        let ghost s0 = self.accounts@;
                        let rid = self.accounts[ri].id.clone();
                        let rdep = self.accounts[ri].deposit;
                        self.accounts.set(
                            ri,
                            Account { id: rid, balance: rbal - reclaim, deposit: rdep },
                        );
                        self.total_supply = self.total_supply - reclaim;
                        proof {
                            let deb = self.accounts@[ri as int];
                            lemma_update(s0, ri as int, deb);
                            lemma_sum_update(s0, ri as int, deb);
                        }
                        Ok(ResolveReceipt { unused, refunded: 0, burned: reclaim })
                    },
                }
            },
            None => {
                match si_opt {
                    Some(si) => {
                        proof {
                            lemma_at_unique(self.accounts@, sender@);
                        }
                        let sbal = self.accounts[si].balance;
                        if sbal > u128::MAX - unused {
                            return Err(FtError::Overflow);
                        }
                        let _removed = self.pending.remove(pi);
                        let ghost s0 = self.accounts@;
                        let sid = self.accounts[si].id.clone();
                        let sdep = self.accounts[si].deposit;
                        self.accounts.set(
                            si,
                            Account { id: sid, balance: sbal + unused, deposit: sdep },
                        );
                        proof {
                            let cred = self.accounts@[si as int];
                            lemma_update(s0, si as int, cred);
                            lemma_sum_update(s0, si as int, cred);
                        }
                        Ok(ResolveReceipt { unused, refunded: unused, burned: 0 })
                    },
                    None => {
                        let _removed = self.pending.remove(pi);
                        Ok(ResolveReceipt { unused, refunded: 0, burned: 0 })
                    },
                }
            },
        }
    }
}

} // verus!
