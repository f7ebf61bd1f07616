//! The error vocabulary shared by every operation of the ledger.

use vstd::prelude::*;

verus! {

/// Why an operation was refused. Every refusal leaves the ledger exactly as
/// it was: an error is reported only when no state change has happened.
#[derive(Clone, Copy, Debug, PartialEq, Eq, Structural)]
pub enum FtError {
    /// The contract has not been initialized yet.
    NotInitialized,
    /// The contract was already initialized once.
    AlreadyInitialized,
    /// A zero or otherwise malformed amount was given.
    InvalidAmount,
    /// The metadata record offered at initialization is not well formed.
    InvalidMetadata,
    /// Checked arithmetic on a balance, deposit or counter would wrap.
    Overflow,
    /// The sender holds less than the requested amount.
    InsufficientBalance,
    /// The account is not in the registered set.
    AccountNotRegistered,
    /// The account still holds a balance and force was not requested.
    AccountHasBalance,
    /// The attached payment does not cover the required cost.
    InsufficientDeposit,
    /// More was requested than the deposit available above the minimum.
    ExcessWithdrawal,
}

} // verus!
