//! The transfer protocol: the single-call transfer's refusals and exact
//! balance movement, and the two-phase transfer-and-notify scenarios with
//! their commit, refund, rollback and replay rules.

use fungible_token::errors::FtError;
use fungible_token::state::Contract;
use fungible_token::storage::ACCOUNT_STORAGE_COST;
use fungible_token::transfer::CallOutcome;

const SUPPLY: u128 = 1_000_000;

/// A ledger with `sender` owning the whole supply and `receiver`
/// registered with a zero balance.
fn two_accounts(sender: &String, receiver: &String) -> Contract {
    let mut contract = Contract::new_default_meta(sender, SUPPLY);
    contract
        .storage_deposit(receiver, None, false, ACCOUNT_STORAGE_COST)
        .unwrap();
    contract
}

#[test]
fn test_transfer_moves_exactly_the_amount() {
    let s = "sam".to_string();
    let r = "rita".to_string();
    let mut contract = two_accounts(&s, &r);
    contract.ft_transfer(&s, &r, 300, 1, None).unwrap();
    assert_eq!(contract.ft_balance_of(&s), SUPPLY - 300);
    assert_eq!(contract.ft_balance_of(&r), 300);
    assert_eq!(contract.ft_total_supply(), SUPPLY);
}

#[test]
fn test_transfer_zero_amount() {
    let s = "sam".to_string();
    let r = "rita".to_string();
    let mut contract = two_accounts(&s, &r);
    let before = contract.clone();
    let res = contract.ft_transfer(&s, &r, 0, 1, None);
    assert_eq!(res, Err(FtError::InvalidAmount));
    assert_eq!(contract, before);
}

#[test]
fn test_transfer_unregistered_receiver() {
    let s = "sam".to_string();
    let mut contract = Contract::new_default_meta(&s, SUPPLY);
    let before = contract.clone();
    let res = contract.ft_transfer(&s, &"rita".to_string(), 10, 1, None);
    assert_eq!(res, Err(FtError::AccountNotRegistered));
    assert_eq!(contract, before);
}

#[test]
fn test_transfer_insufficient_balance() {
    let s = "sam".to_string();
    let r = "rita".to_string();
    let mut contract = two_accounts(&s, &r);
    let before = contract.clone();
    let res = contract.ft_transfer(&s, &r, SUPPLY + 1, 1, None);
    assert_eq!(res, Err(FtError::InsufficientBalance));
    // an unregistered sender holds nothing to send
    let res = contract.ft_transfer(&"nobody".to_string(), &r, 1, 1, None);
    assert_eq!(res, Err(FtError::InsufficientBalance));
    assert_eq!(contract, before);
}

#[test]
fn test_transfer_demands_the_guard_payment() {
    let s = "sam".to_string();
    let r = "rita".to_string();
    let mut contract = two_accounts(&s, &r);
    let before = contract.clone();
    let res = contract.ft_transfer(&s, &r, 10, 0, None);
    assert_eq!(res, Err(FtError::InsufficientDeposit));
    assert_eq!(contract, before);
}

#[test]
fn test_transfer_to_self_changes_nothing() {
    let s = "sam".to_string();
    let mut contract = Contract::new_default_meta(&s, SUPPLY);
    contract.ft_transfer(&s, &s, 10, 1, None).unwrap();
    assert_eq!(contract.ft_balance_of(&s), SUPPLY);
    assert_eq!(contract.ft_total_supply(), SUPPLY);
}

#[test]
fn test_transfer_call_partial_use() {
    let s = "sam".to_string();
    let r = "rita".to_string();
    let mut contract = two_accounts(&s, &r);
    let msg = "mint-me".to_string();
    let action = contract
        .ft_transfer_call(&s, &r, 300, 1, None, &msg)
        .unwrap();
    assert_eq!(action.sender, s);
    assert_eq!(action.receiver, r);
    assert_eq!(action.amount, 300);
    assert_eq!(action.message, msg);
    // the suspension window: tokens already stand with the receiver
    assert_eq!(contract.ft_balance_of(&s), SUPPLY - 300);
    assert_eq!(contract.ft_balance_of(&r), 300);
    let receipt = contract
        .ft_resolve_transfer(action.pending_id, CallOutcome::Used(120))
        .unwrap();
    assert_eq!(receipt.unused, 180);
    assert_eq!(receipt.refunded, 180);
    assert_eq!(receipt.burned, 0);
    assert_eq!(contract.ft_balance_of(&s), 999_880);
    assert_eq!(contract.ft_balance_of(&r), 120);
    assert_eq!(contract.ft_total_supply(), 1_000_000);
}

#[test]
fn test_transfer_call_full_rollback() {
    let s = "sam".to_string();
    let r = "rita".to_string();
    let mut contract = two_accounts(&s, &r);
    let msg = "mint-me".to_string();
    let action = contract
        .ft_transfer_call(&s, &r, 300, 1, None, &msg)
        .unwrap();
    let receipt = contract
        .ft_resolve_transfer(action.pending_id, CallOutcome::Failed)
        .unwrap();
    assert_eq!(receipt.unused, 300);
    assert_eq!(receipt.refunded, 300);
    assert_eq!(contract.ft_balance_of(&s), 1_000_000);
    assert_eq!(contract.ft_balance_of(&r), 0);
    assert_eq!(contract.ft_total_supply(), 1_000_000);
}

#[test]
fn test_transfer_call_overclaimed_use_is_clamped() {
    let s = "sam".to_string();
    let r = "rita".to_string();
    let mut contract = two_accounts(&s, &r);
    let msg = "mint-me".to_string();
    let action = contract
        .ft_transfer_call(&s, &r, 300, 1, None, &msg)
        .unwrap();
    let receipt = contract
        .ft_resolve_transfer(action.pending_id, CallOutcome::Used(500))
        .unwrap();
    assert_eq!(receipt.unused, 0);
    assert_eq!(receipt.refunded, 0);
    assert_eq!(contract.ft_balance_of(&s), SUPPLY - 300);
    assert_eq!(contract.ft_balance_of(&r), 300);
}

#[test]
fn test_resolve_is_idempotent() {
    let s = "sam".to_string();
    let r = "rita".to_string();
    let mut contract = two_accounts(&s, &r);
    let msg = "mint-me".to_string();
    let action = contract
        .ft_transfer_call(&s, &r, 300, 1, None, &msg)
        .unwrap();
    contract
        .ft_resolve_transfer(action.pending_id, CallOutcome::Used(120))
        .unwrap();
    let before = contract.clone();
    // a second resolution of the same record is a no-op
    let receipt = contract
        .ft_resolve_transfer(action.pending_id, CallOutcome::Used(120))
        .unwrap();
    assert_eq!(receipt.unused, 0);
    assert_eq!(receipt.refunded, 0);
    assert_eq!(receipt.burned, 0);
    assert_eq!(contract, before);
}

#[test]
fn test_resolve_after_receiver_left_recredits_sender() {
    let s = "sam".to_string();
    let r = "rita".to_string();
    let mut contract = two_accounts(&s, &r);
    let msg = "mint-me".to_string();
    let action = contract
        .ft_transfer_call(&s, &r, 300, 1, None, &msg)
        .unwrap();
    // the receiver is force-unregistered during the window: its
    // provisional 300 are burned out of the supply
    let receipt = contract.storage_unregister(&r, true).unwrap();
    assert_eq!(receipt.burned, 300);
    assert_eq!(contract.ft_total_supply(), SUPPLY - 300);
    // the rollback re-credits the sender only; the burned destination
    // credit is discarded, so the supply stays reduced
    let receipt = contract
        .ft_resolve_transfer(action.pending_id, CallOutcome::Failed)
        .unwrap();
    assert_eq!(receipt.unused, 300);
    assert_eq!(receipt.refunded, 300);
    assert_eq!(contract.ft_balance_of(&s), SUPPLY);
    assert_eq!(contract.ft_balance_of(&r), 0);
    assert_eq!(contract.ft_total_supply(), SUPPLY - 300);
}

#[test]
fn test_resolve_reclaims_only_what_the_receiver_still_holds() {
    let s = "sam".to_string();
    let r = "rita".to_string();
    let mut contract = two_accounts(&s, &r);
    let msg = "mint-me".to_string();
    let action = contract
        .ft_transfer_call(&s, &r, 300, 1, None, &msg)
        .unwrap();
    // the receiver spends 200 of the provisional 300 during the window
    contract.ft_transfer(&r, &s, 200, 1, None).unwrap();
    let receipt = contract
        .ft_resolve_transfer(action.pending_id, CallOutcome::Failed)
        .unwrap();
    assert_eq!(receipt.unused, 300);
    assert_eq!(receipt.refunded, 100);
    assert_eq!(contract.ft_balance_of(&r), 0);
    assert_eq!(contract.ft_balance_of(&s), SUPPLY);
    assert_eq!(contract.ft_total_supply(), SUPPLY);
}

#[test]
fn test_transfer_call_refusals() {
    let s = "sam".to_string();
    let r = "rita".to_string();
    let msg = "mint-me".to_string();
    let mut contract = Contract::new_default_meta(&s, SUPPLY);
    let before = contract.clone();
    let res = contract.ft_transfer_call(&s, &r, 10, 1, None, &msg);
    assert_eq!(res, Err(FtError::AccountNotRegistered));
    assert_eq!(contract, before);
    contract
        .storage_deposit(&r, None, false, ACCOUNT_STORAGE_COST)
        .unwrap();
    let res = contract.ft_transfer_call(&s, &r, 0, 1, None, &msg);
    assert_eq!(res, Err(FtError::InvalidAmount));
    let res = contract.ft_transfer_call(&s, &r, 10, 0, None, &msg);
    assert_eq!(res, Err(FtError::InsufficientDeposit));
}

#[test]
fn test_conservation_across_a_session() {
    let s = "sam".to_string();
    let r = "rita".to_string();
    let t = "tom".to_string();
    let mut contract = two_accounts(&s, &r);
    contract
        .storage_deposit(&t, None, false, ACCOUNT_STORAGE_COST)
        .unwrap();
    let sum = |c: &Contract| {
        c.ft_balance_of(&s) + c.ft_balance_of(&r) + c.ft_balance_of(&t)
    };
    assert_eq!(sum(&contract), contract.ft_total_supply());
    contract.ft_transfer(&s, &r, 1_234, 1, None).unwrap();
    assert_eq!(sum(&contract), contract.ft_total_supply());
    let action = contract
        .ft_transfer_call(&s, &t, 777, 1, None, &"m".to_string())
        .unwrap();
    assert_eq!(sum(&contract), contract.ft_total_supply());
    contract
        .ft_resolve_transfer(action.pending_id, CallOutcome::Used(7))
        .unwrap();
    assert_eq!(sum(&contract), contract.ft_total_supply());
    contract.storage_unregister(&r, true).unwrap();
    assert_eq!(sum(&contract), contract.ft_total_supply());
}
