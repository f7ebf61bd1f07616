//! A fungible-token ledger for a single-threaded, per-call-atomic host.
//!
//! The crate tracks per-account balances under a strong conservation
//! invariant, gates registration on a storage deposit priced per byte, and
//! implements the two-phase transfer-and-notify protocol whose second half
//! runs only once the outcome of the external notification is known.
//!
//! The host itself (caller identity, attached payment, the promise that
//! suspends a transfer-and-notify operation) is out of scope: every entry
//! point takes those observations as plain values and returns the actions
//! (refunds, notifications) the host must perform.

pub mod errors;
pub mod metadata;
pub mod state;
pub mod ledger;
pub mod storage;
pub mod transfer;
