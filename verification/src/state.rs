//! The contract state: the account ledger, the total-supply counter, the
//! metadata record, and the table of transfers suspended between the two
//! phases of a transfer-and-notify operation.

use vstd::prelude::*;
use vstd::pervasive::unreached;

use crate::errors::FtError;
use crate::ledger::{
    Account, account_at, bal_in, dep_in, has_account, ids_unique, lemma_at_unique, sum_bal,
};
use crate::metadata::{metadata_valid, Metadata, default_metadata};
use crate::storage::ACCOUNT_STORAGE_COST;

verus! {

/// A transfer-and-notify operation whose external notification is still in
/// flight: the record is written by the initiate phase and consumed exactly
/// once by the resolve phase.
#[derive(Clone, Debug, PartialEq, Eq)]
pub struct PendingTransfer {
    /// Correlation identifier tying the resolve phase to this record.
    pub id: u64,
    pub sender: String,
    pub receiver: String,
    pub amount: u128,
    /// The message carried to the notified party.
    pub message: String,
}

/// No two in-flight records share a correlation identifier.
pub open spec fn pending_ids_unique(s: Seq<PendingTransfer>) -> bool {
    forall|i: int, j: int| 0 <= i < j < s.len() ==> s[i].id != s[j].id
}

/// Whether a record with identifier `id` is in flight.
pub open spec fn has_pending(s: Seq<PendingTransfer>, id: u64) -> bool {
    exists|i: int| 0 <= i < s.len() && s[i].id == id
}

/// The index of the in-flight record `id`; meaningful only when one exists.
pub open spec fn pending_at(s: Seq<PendingTransfer>, id: u64) -> int {
    choose|i: int| 0 <= i < s.len() && s[i].id == id
}

/// When identifiers are unique, the record found for `id` is the only one.
pub proof fn lemma_pending_at_unique(s: Seq<PendingTransfer>, id: u64)
    requires
        pending_ids_unique(s),
        has_pending(s, id),
    ensures
        0 <= pending_at(s, id) < s.len(),
        s[pending_at(s, id)].id == id,
        forall|k: int| 0 <= k < s.len() && s[k].id == id ==> k == pending_at(s, id),
{
    let j = pending_at(s, id);
    assert(0 <= j < s.len() && s[j].id == id);
    assert forall|k: int| 0 <= k < s.len() && s[k].id == id implies k == j by {
        if k < j {
            assert(s[k].id != s[j].id);
        } else if j < k {
            assert(s[j].id != s[k].id);
        }
    }
}

/// Removing the record at `i` consumes exactly its identifier.
pub proof fn lemma_pending_remove(s: Seq<PendingTransfer>, i: int)
    requires
        pending_ids_unique(s),
        0 <= i < s.len(),
    ensures
        pending_ids_unique(s.remove(i)),
        !has_pending(s.remove(i), s[i].id),
        forall|x: u64| x != s[i].id ==> has_pending(s.remove(i), x) == has_pending(s, x),
{
    let t = s.remove(i);
    assert forall|p: int, q: int| 0 <= p < q < t.len() implies t[p].id != t[q].id by {
        let p0 = if p < i { p } else { p + 1 };
        let q0 = if q < i { q } else { q + 1 };
        assert(t[p] == s[p0]);
        assert(t[q] == s[q0]);
    }
    assert forall|j: int| 0 <= j < t.len() implies t[j].id != s[i].id by {
        let j0 = if j < i { j } else { j + 1 };
        assert(t[j] == s[j0]);
        if j0 < i {
            assert(s[j0].id != s[i].id);
        } else {
            assert(s[i].id != s[j0].id);
        }
    }
    assert forall|x: u64| x != s[i].id implies has_pending(t, x) == has_pending(s, x) by {
        if has_pending(s, x) {
            let j = choose|j: int| 0 <= j < s.len() && s[j].id == x;
            let j1 = if j < i { j } else { j - 1 };
            assert(t[j1] == s[j]);
        }
        if has_pending(t, x) {
            let j = choose|j: int| 0 <= j < t.len() && t[j].id == x;
            let j0 = if j < i { j } else { j + 1 };
            assert(t[j] == s[j0]);
        }
    }
}

/// The fungible-token contract: one ledger, one supply counter, one
/// metadata record, and the in-flight transfer table.
#[derive(Clone, Debug, PartialEq, Eq)]
pub struct Contract {
    /// The registered set together with each account's balance and deposit.
    pub accounts: Vec<Account>,
    /// Total token supply; set at initialization, decreased only by burns.
    pub total_supply: u128,
    /// The immutable descriptor; meaningful once `initialized` holds.
    pub meta: Metadata,
    /// Transfers suspended between their initiate and resolve phases.
    pub pending: Vec<PendingTransfer>,
    /// The correlation identifier the next initiate phase will use.
    pub next_pending_id: u64,
    /// Whether `initialize` has run; every operation checks this first.
    pub initialized: bool,
}

impl Contract {
    /// Whether `x` is in the registered set.
    pub open spec fn registered(self, x: Seq<char>) -> bool {
        has_account(self.accounts@, x)
    }

    /// The balance the ledger reports for `x`; zero when unregistered.
    pub open spec fn balance_of(self, x: Seq<char>) -> u128 {
        bal_in(self.accounts@, x)
    }

    /// The storage deposit reserved for `x`; zero when unregistered.
    pub open spec fn deposit_of(self, x: Seq<char>) -> u128 {
        dep_in(self.accounts@, x)
    }

    /// The sum of all registered accounts' balances.
    pub open spec fn sum_of_balances(self) -> int {
        sum_bal(self.accounts@)
    }

    /// The conservation invariant: the balances of the registered accounts
    /// add up to the total supply exactly.
    pub open spec fn conserved(self) -> bool {
        self.sum_of_balances() == self.total_supply as int
    }

    /// Structural well-formedness: unique account and record identifiers,
    /// every reserved deposit at least the one-entry cost, a valid
    /// descriptor once initialized, and an empty ledger before then.
    pub open spec fn wf(self) -> bool {
        &&& ids_unique(self.accounts@)
        &&& pending_ids_unique(self.pending@)
        &&& forall|i: int|
            0 <= i < self.pending@.len() ==> self.pending@[i].id < self.next_pending_id
        &&& forall|i: int|
            0 <= i < self.accounts@.len() ==> self.accounts@[i].deposit >= ACCOUNT_STORAGE_COST
        &&& self.initialized ==> metadata_valid(self.meta)
        &&& !self.initialized ==> self.accounts@.len() == 0 && self.pending@.len() == 0
            && self.total_supply == 0
    }

    /// Finds the ledger index of `id`, or reports that it is unregistered.
    pub fn find_account(&self, id: &String) -> (r: Option<usize>)
        requires
            ids_unique(self.accounts@),
        ensures
            match r {
                Some(i) => {
                    &&& i < self.accounts@.len()
                    &&& self.accounts@[i as int].id@ == id@
                    &&& self.registered(id@)
                    &&& account_at(self.accounts@, id@) == i as int
                },
                None => !self.registered(id@),
            },
    {
        let n = self.accounts.len();
        let mut i: usize = 0;
        while i < n
            invariant
                n == self.accounts@.len(),
                i <= n,
                ids_unique(self.accounts@),
                forall|j: int| 0 <= j < i ==> self.accounts@[j].id@ != id@,
            decreases n - i,
        {
            if self.accounts[i].id == *id {
                proof {
                    lemma_at_unique(self.accounts@, id@);
                }
                return Some(i);
            }
            i = i + 1;
        }
        None
    }

    /// Finds the in-flight record `id`, or reports that none exists.
    pub fn find_pending(&self, id: u64) -> (r: Option<usize>)
        requires
            pending_ids_unique(self.pending@),
        ensures
            match r {
                Some(i) => {
                    &&& i < self.pending@.len()
                    &&& self.pending@[i as int].id == id
                    &&& has_pending(self.pending@, id)
                    &&& pending_at(self.pending@, id) == i as int
                },
                None => !has_pending(self.pending@, id),
            },
    {
        let n = self.pending.len();
        let mut i: usize = 0;
        while i < n
            invariant
                n == self.pending@.len(),
                i <= n,
                pending_ids_unique(self.pending@),
                forall|j: int| 0 <= j < i ==> self.pending@[j].id != id,
            decreases n - i,
        {
            if self.pending[i].id == id {
                proof {
                    lemma_pending_at_unique(self.pending@, id);
                }
                return Some(i);
            }
            i = i + 1;
        }
        None
    }

    /// Why `initialize` would refuse, or `None` when it succeeds.
    pub open spec fn init_check(pre: Contract, meta: Metadata) -> Option<FtError> {
        if pre.initialized {
            Some(FtError::AlreadyInitialized)
        } else if !metadata_valid(meta) {
            Some(FtError::InvalidMetadata)
        } else {
            None
        }
    }

    /// One-time setup: validates the descriptor, registers the owner, and
    /// mints the whole supply into the owner's account.
    pub fn initialize(&mut self, owner: &String, supply: u128, meta: Metadata) -> (r: Result<
        (),
        FtError,
    >)
        requires
            old(self).wf(),
        ensures
            final(self).wf(),
            match r {
                Ok(()) => {
                    &&& Self::init_check(*old(self), meta) is None
                    &&& final(self).initialized
                    &&& final(self).meta == meta
                    &&& final(self).total_supply == supply
                    &&& final(self).registered(owner@)
                    &&& final(self).balance_of(owner@) == supply
                    &&& final(self).deposit_of(owner@) == ACCOUNT_STORAGE_COST
                    &&& forall|x: Seq<char>| x != owner@ ==> !final(self).registered(x)
                    &&& final(self).pending@.len() == 0
                    &&& final(self).conserved()
                },
                Err(e) => {
                    &&& *final(self) == *old(self)
                    &&& Self::init_check(*old(self), meta) == Some(e)
                },
            },
    {
        if self.initialized {
            return Err(FtError::AlreadyInitialized);
        }
        if !meta.is_valid() {
            return Err(FtError::InvalidMetadata);
        }
        let mut accs: Vec<Account> = Vec::new();
        accs.push(Account { id: owner.clone(), balance: supply, deposit: ACCOUNT_STORAGE_COST });
        self.accounts = accs;
        self.meta = meta;
        self.total_supply = supply;
        self.initialized = true;
        proof {
            let s = self.accounts@;
            assert(s[0].id@ == owner@);
            assert(has_account(s, owner@));
            lemma_at_unique(s, owner@);
            assert forall|x: Seq<char>| x != owner@ implies !has_account(s, x) by {
                if has_account(s, x) {
                    let j = account_at(s, x);
                    assert(s[j].id@ == x);
                }
            }
            assert(s.drop_last() =~= Seq::<Account>::empty());
            assert(sum_bal(Seq::<Account>::empty()) == 0);
            assert(sum_bal(s) == sum_bal(s.drop_last()) + s.last().balance);
            assert(sum_bal(s) == supply);
        }
        Ok(())
    }

    /// Builds an initialized contract holding `supply` tokens for `owner`
    /// under the given descriptor; refuses only an invalid descriptor.
    pub fn new(owner: &String, supply: u128, meta: Metadata) -> (r: Result<Contract, FtError>)
        ensures
            match r {
                Ok(c) => {
                    &&& metadata_valid(meta)
                    &&& c.wf()
                    &&& c.initialized
                    &&& c.meta == meta
                    &&& c.total_supply == supply
                    &&& c.registered(owner@)
                    &&& c.balance_of(owner@) == supply
                    &&& forall|x: Seq<char>| x != owner@ ==> !c.registered(x)
                    &&& c.pending@.len() == 0
                    &&& c.conserved()
                },
                Err(e) => e == FtError::InvalidMetadata && !metadata_valid(meta),
            },
    {
        let mut c = Contract::default();
        match c.initialize(owner, supply, meta) {
            Ok(()) => Ok(c),
            Err(e) => Err(e),
        }
    }

    /// Builds an initialized contract under the crate's default descriptor.
    pub fn new_default_meta(owner: &String, supply: u128) -> (c: Contract)
        ensures
            c.wf(),
            c.initialized,
            c.total_supply == supply,
            c.registered(owner@),
            c.balance_of(owner@) == supply,
            forall|x: Seq<char>| x != owner@ ==> !c.registered(x),
            c.pending@.len() == 0,
            c.conserved(),
            metadata_valid(c.meta),
            c.meta.name@ == "ChaveroCoin Token"@,
            c.meta.symbol@ == "ChC"@,
            c.meta.decimals == 24,
    {
        let meta = default_metadata();
        match Self::new(owner, supply, meta) {
            Ok(c) => c,
            Err(_) => unreached(),
        }
    }

    /// The balance the ledger reports for `account`; an unregistered
    /// account reports zero and the query never fails.
    pub fn ft_balance_of(&self, account: &String) -> (r: u128)
        requires
            self.wf(),
        ensures
            r == self.balance_of(account@),
    {
        match self.find_account(account) {
            Some(i) => self.accounts[i].balance,
            None => 0,
        }
    }

    /// The total token supply.
    pub fn ft_total_supply(&self) -> (r: u128)
        ensures
            r == self.total_supply,
    {
        self.total_supply
    }

    /// The descriptor stored at initialization.
    pub fn ft_metadata(&self) -> (r: Result<&Metadata, FtError>)
        ensures
            match r {
                Ok(m) => self.initialized && *m == self.meta,
                Err(e) => !self.initialized && e == FtError::NotInitialized,
            },
    {
        if self.initialized {
            Ok(&self.meta)
        } else {
            Err(FtError::NotInitialized)
        }
    }
}

impl Default for Contract {
    /// The deployed-but-never-initialized state: an empty ledger that
    /// refuses every operation until `initialize` runs.
    fn default() -> (c: Contract)
        ensures
            c.wf(),
            !c.initialized,
    {
        Contract {
            accounts: Vec::new(),
            total_supply: 0,
            meta: Metadata {
                spec_version: String::new(),
                name: String::new(),
                symbol: String::new(),
                icon: None,
                reference: None,
                reference_hash: None,
                decimals: 0,
            },
            pending: Vec::new(),
            next_pending_id: 0,
            initialized: false,
        }
    }
}

} // verus!
