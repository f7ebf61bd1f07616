//! Ledger construction, queries, metadata, and the storage-deposit
//! subsystem, exercised through the public interface.

use fungible_token::errors::FtError;
use fungible_token::metadata::{default_metadata, Metadata};
use fungible_token::state::Contract;
use fungible_token::storage::{
    cost_of, refund_for, require_covered, ACCOUNT_STORAGE_COST, STORAGE_PRICE_PER_BYTE,
};

const TOTAL_SUPPLY: u128 = 1_000_000_000_000_000;

fn sample_metadata() -> Metadata {
    Metadata {
        spec_version: "ft-1.0.0".to_string(),
        name: "Example Token".to_string(),
        symbol: "EXLT".to_string(),
        icon: None,
        reference: None,
        reference_hash: None,
        decimals: 24,
    }
}

#[test]
fn test_new() {
    let owner = "bob".to_string();
    let contract = Contract::new_default_meta(&owner, TOTAL_SUPPLY);
    assert_eq!(contract.ft_total_supply(), TOTAL_SUPPLY);
    assert_eq!(contract.ft_balance_of(&owner), TOTAL_SUPPLY);
}

#[test]
fn test_default() {
    let contract = Contract::default();
    assert_eq!(contract.ft_metadata(), Err(FtError::NotInitialized));
    let mut contract = contract;
    let r = contract.ft_transfer(&"a".to_string(), &"b".to_string(), 1, 1, None);
    assert_eq!(r, Err(FtError::NotInitialized));
}

#[test]
fn test_transfer() {
    let owner = "charlie".to_string();
    let other = "bob".to_string();
    let mut contract = Contract::new_default_meta(&owner, TOTAL_SUPPLY);
    // Paying for account registration, aka storage deposit
    let bounds = contract.storage_balance_bounds();
    contract
        .storage_deposit(&other, None, false, bounds.min)
        .unwrap();

    let transfer_amount = TOTAL_SUPPLY / 3;
    contract
        .ft_transfer(&owner, &other, transfer_amount, 1, None)
        .unwrap();

    assert_eq!(contract.ft_balance_of(&owner), TOTAL_SUPPLY - transfer_amount);
    assert_eq!(contract.ft_balance_of(&other), transfer_amount);
}

#[test]
fn test_metadata_round_trip() {
    let owner = "alice".to_string();
    let meta = sample_metadata();
    let contract = Contract::new(&owner, 500, meta.clone()).unwrap();
    assert_eq!(contract.ft_metadata().unwrap(), &meta);
    assert_eq!(contract.ft_total_supply(), 500);
    assert_eq!(contract.ft_balance_of(&owner), 500);
}

#[test]
fn test_initialize_twice() {
    let owner = "alice".to_string();
    let mut contract = Contract::default();
    assert_eq!(contract.initialize(&owner, 500, sample_metadata()), Ok(()));
    let again = contract.initialize(&owner, 500, sample_metadata());
    assert_eq!(again, Err(FtError::AlreadyInitialized));
    assert_eq!(contract.ft_total_supply(), 500);
}

#[test]
fn test_invalid_metadata_refused() {
    let owner = "alice".to_string();
    let mut meta = sample_metadata();
    meta.name = String::new();
    match Contract::new(&owner, 500, meta) {
        Err(FtError::InvalidMetadata) => {}
        other => panic!("expected InvalidMetadata, got {:?}", other.map(|_| ())),
    }
    let mut meta = sample_metadata();
    meta.spec_version = "ft-0.9.0".to_string();
    assert!(!meta.is_valid());
    let mut meta = sample_metadata();
    meta.decimals = 39;
    assert!(!meta.is_valid());
    assert!(sample_metadata().is_valid());
    assert!(default_metadata().is_valid());
}

#[test]
fn test_default_metadata_fields() {
    let meta = default_metadata();
    assert_eq!(meta.spec_version, "ft-1.0.0");
    assert_eq!(meta.name, "ChaveroCoin Token");
    assert_eq!(meta.symbol, "ChC");
    assert_eq!(meta.decimals, 24);
    assert!(meta.icon.is_some());
    assert_eq!(
        meta.reference.as_deref(),
        Some("https://chaverocoin.com/token.json")
    );
    assert!(meta.reference_hash.is_none());
}

#[test]
fn test_storage_cost_formulas() {
    assert_eq!(cost_of(0), 0);
    assert_eq!(cost_of(2), 2 * STORAGE_PRICE_PER_BYTE);
    assert_eq!(cost_of(128), ACCOUNT_STORAGE_COST);
    assert_eq!(ACCOUNT_STORAGE_COST, 1_280_000_000_000_000_000_000);
    assert_eq!(refund_for(128), ACCOUNT_STORAGE_COST);
    assert_eq!(require_covered(ACCOUNT_STORAGE_COST + 7, 128), Ok(7));
    assert_eq!(
        require_covered(ACCOUNT_STORAGE_COST - 1, 128),
        Err(FtError::InsufficientDeposit)
    );
}

#[test]
fn test_storage_usage_grows_per_entry() {
    let owner = "alice".to_string();
    let mut contract = Contract::new_default_meta(&owner, 100);
    assert_eq!(contract.storage_usage(), 128);
    contract
        .storage_deposit(&"bob".to_string(), None, false, ACCOUNT_STORAGE_COST)
        .unwrap();
    assert_eq!(contract.storage_usage(), 256);
}

#[test]
fn test_deposit_below_minimum() {
    let owner = "alice".to_string();
    let bob = "bob".to_string();
    let mut contract = Contract::new_default_meta(&owner, 100);
    let before = contract.clone();
    let r = contract.storage_deposit(&bob, None, false, ACCOUNT_STORAGE_COST - 1);
    assert_eq!(r, Err(FtError::InsufficientDeposit));
    assert_eq!(contract, before);
    assert!(contract.storage_balance_of(&bob).is_none());
}

#[test]
fn test_deposit_registers_and_refunds_excess() {
    let owner = "alice".to_string();
    let bob = "bob".to_string();
    let mut contract = Contract::new_default_meta(&owner, 100);
    let receipt = contract
        .storage_deposit(&bob, None, false, ACCOUNT_STORAGE_COST + 55)
        .unwrap();
    assert_eq!(receipt.refund, 55);
    assert_eq!(receipt.balance.total, ACCOUNT_STORAGE_COST);
    assert_eq!(receipt.balance.available, 0);
    assert_eq!(contract.ft_balance_of(&bob), 0);
}

#[test]
fn test_deposit_names_the_caller_by_default() {
    let owner = "alice".to_string();
    let bob = "bob".to_string();
    let carol = "carol".to_string();
    let mut contract = Contract::new_default_meta(&owner, 100);
    // a named account is registered on the caller's payment
    contract
        .storage_deposit(&bob, Some(&carol), false, ACCOUNT_STORAGE_COST)
        .unwrap();
    assert!(contract.storage_balance_of(&carol).is_some());
    assert!(contract.storage_balance_of(&bob).is_none());
}

#[test]
fn test_deposit_top_up_and_registration_only() {
    let owner = "alice".to_string();
    let bob = "bob".to_string();
    let mut contract = Contract::new_default_meta(&owner, 100);
    contract
        .storage_deposit(&bob, None, false, ACCOUNT_STORAGE_COST)
        .unwrap();
    // registration-only on a registered account: everything refunded
    let receipt = contract.storage_deposit(&bob, None, true, 500).unwrap();
    assert_eq!(receipt.refund, 500);
    assert_eq!(receipt.balance.total, ACCOUNT_STORAGE_COST);
    // a plain second deposit tops the reserved deposit up
    let receipt = contract.storage_deposit(&bob, None, false, 500).unwrap();
    assert_eq!(receipt.refund, 0);
    assert_eq!(receipt.balance.total, ACCOUNT_STORAGE_COST + 500);
    assert_eq!(receipt.balance.available, 500);
}

#[test]
fn test_deposit_top_up_overflow() {
    let owner = "alice".to_string();
    let bob = "bob".to_string();
    let mut contract = Contract::new_default_meta(&owner, 100);
    contract
        .storage_deposit(&bob, None, false, ACCOUNT_STORAGE_COST)
        .unwrap();
    let before = contract.clone();
    let r = contract.storage_deposit(&bob, None, false, u128::MAX);
    assert_eq!(r, Err(FtError::Overflow));
    assert_eq!(contract, before);
}

#[test]
fn test_withdraw_excess_only() {
    let owner = "alice".to_string();
    let bob = "bob".to_string();
    let mut contract = Contract::new_default_meta(&owner, 100);
    contract
        .storage_deposit(&bob, None, false, ACCOUNT_STORAGE_COST)
        .unwrap();
    contract.storage_deposit(&bob, None, false, 300).unwrap();
    // asking beyond the excess is refused
    let before = contract.clone();
    let r = contract.storage_withdraw(&bob, Some(301));
    assert_eq!(r, Err(FtError::ExcessWithdrawal));
    assert_eq!(contract, before);
    // a named amount within the excess is paid out
    let receipt = contract.storage_withdraw(&bob, Some(100)).unwrap();
    assert_eq!(receipt.refund, 100);
    assert_eq!(receipt.balance.total, ACCOUNT_STORAGE_COST + 200);
    // no amount takes the whole excess
    let receipt = contract.storage_withdraw(&bob, None).unwrap();
    assert_eq!(receipt.refund, 200);
    assert_eq!(receipt.balance.total, ACCOUNT_STORAGE_COST);
    assert_eq!(receipt.balance.available, 0);
}

#[test]
fn test_withdraw_unregistered() {
    let owner = "alice".to_string();
    let mut contract = Contract::new_default_meta(&owner, 100);
    let r = contract.storage_withdraw(&"bob".to_string(), None);
    assert_eq!(r, Err(FtError::AccountNotRegistered));
}

#[test]
fn test_unregister_with_balance_refused() {
    let owner = "alice".to_string();
    let mut contract = Contract::new_default_meta(&owner, TOTAL_SUPPLY);
    let before = contract.clone();
    let r = contract.storage_unregister(&owner, false);
    assert_eq!(r, Err(FtError::AccountHasBalance));
    assert_eq!(contract, before);
}

#[test]
fn test_force_unregister_burns() {
    let owner = "alice".to_string();
    let bob = "bob".to_string();
    let mut contract = Contract::new_default_meta(&owner, TOTAL_SUPPLY);
    contract
        .storage_deposit(&bob, None, false, ACCOUNT_STORAGE_COST)
        .unwrap();
    contract.ft_transfer(&owner, &bob, 250, 1, None).unwrap();
    let receipt = contract.storage_unregister(&bob, true).unwrap();
    assert!(receipt.removed);
    assert_eq!(receipt.burned, 250);
    assert_eq!(receipt.refund, ACCOUNT_STORAGE_COST);
    assert!(contract.storage_balance_of(&bob).is_none());
    assert_eq!(contract.ft_balance_of(&bob), 0);
    assert_eq!(contract.ft_total_supply(), TOTAL_SUPPLY - 250);
    // conservation: the one remaining balance equals the supply
    assert_eq!(contract.ft_balance_of(&owner), contract.ft_total_supply());
}

#[test]
fn test_unregister_zero_balance_refunds_deposit() {
    let owner = "alice".to_string();
    let bob = "bob".to_string();
    let mut contract = Contract::new_default_meta(&owner, TOTAL_SUPPLY);
    contract
        .storage_deposit(&bob, None, false, ACCOUNT_STORAGE_COST + 40)
        .unwrap();
    contract.storage_deposit(&bob, None, false, 40).unwrap();
    let receipt = contract.storage_unregister(&bob, false).unwrap();
    assert!(receipt.removed);
    assert_eq!(receipt.burned, 0);
    assert_eq!(receipt.refund, ACCOUNT_STORAGE_COST + 40);
    assert_eq!(contract.ft_total_supply(), TOTAL_SUPPLY);
}

#[test]
fn test_unregister_unknown_account_is_a_no_op() {
    let owner = "alice".to_string();
    let mut contract = Contract::new_default_meta(&owner, TOTAL_SUPPLY);
    let before = contract.clone();
    let receipt = contract.storage_unregister(&"bob".to_string(), true).unwrap();
    assert!(!receipt.removed);
    assert_eq!(receipt.refund, 0);
    assert_eq!(receipt.burned, 0);
    assert_eq!(contract, before);
}

#[test]
fn test_storage_balance_bounds() {
    let owner = "alice".to_string();
    let contract = Contract::new_default_meta(&owner, 100);
    let bounds = contract.storage_balance_bounds();
    assert_eq!(bounds.min, ACCOUNT_STORAGE_COST);
    assert_eq!(bounds.max, None);
}
