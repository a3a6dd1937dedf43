//! The three transitions end to end on a ledger: the swap scenario, the
//! refund scenario, and every rejected precondition.

use anchor_escrow::address::Address;
use anchor_escrow::errors::EscrowError;
use anchor_escrow::ledger::Ledger;

fn addr(n: u64) -> Address {
    Address { w0: n, w1: 0, w2: 0, w3: 0 }
}

#[test]
fn create_deposits_into_vault() {
    let maker = addr(1);
    let mint_a = addr(100);
    let mint_b = addr(200);
    let mut l = Ledger::new();
    l.set_balance(&maker, &mint_a, 50);
    let record = l.make(&maker, 1, 100, 50, &mint_a, &mint_b).unwrap();
    let entry = l.lookup(&record).unwrap();
    assert_eq!(entry.vault_amount, 50);
    assert_eq!(entry.record.receive, 100);
    assert_eq!(entry.record.maker, maker);
    assert_eq!(entry.record.mint_a, mint_a);
    assert_eq!(entry.record.mint_b, mint_b);
    assert_eq!(entry.record.seed, 1);
    assert_eq!(entry.address, record);
    assert_eq!(l.balance_of(&maker, &mint_a), 0);
}

#[test]
fn fulfill_swaps_atomically() {
    let maker = addr(1);
    let taker = addr(2);
    let mint_a = addr(100);
    let mint_b = addr(200);
    let mut l = Ledger::new();
    l.set_balance(&maker, &mint_a, 50);
    l.set_balance(&taker, &mint_b, 100);
    let record = l.make(&maker, 1, 100, 50, &mint_a, &mint_b).unwrap();
    l.take(&taker, &record, &maker, &mint_a, &mint_b).unwrap();
    assert_eq!(l.balance_of(&maker, &mint_b), 100);
    assert_eq!(l.balance_of(&taker, &mint_a), 50);
    assert_eq!(l.balance_of(&taker, &mint_b), 0);
    assert_eq!(l.balance_of(&maker, &mint_a), 0);
    assert!(l.lookup(&record).is_none());
}

#[test]
fn cancel_returns_deposit() {
    let maker = addr(1);
    let taker = addr(2);
    let mint_a = addr(100);
    let mint_b = addr(200);
    let mut l = Ledger::new();
    l.set_balance(&maker, &mint_a, 50);
    l.set_balance(&taker, &mint_b, 100);
    let record = l.make(&maker, 1, 100, 50, &mint_a, &mint_b).unwrap();
    l.refund(&maker, &record).unwrap();
    assert_eq!(l.balance_of(&maker, &mint_a), 50);
    assert_eq!(l.balance_of(&maker, &mint_b), 0);
    assert_eq!(l.balance_of(&taker, &mint_b), 100);
    assert!(l.lookup(&record).is_none());
}

#[test]
fn second_transition_finds_no_record() {
    let maker = addr(1);
    let taker = addr(2);
    let mint_a = addr(100);
    let mint_b = addr(200);
    let mut l = Ledger::new();
    l.set_balance(&maker, &mint_a, 50);
    l.set_balance(&taker, &mint_b, 200);
    let record = l.make(&maker, 1, 100, 50, &mint_a, &mint_b).unwrap();
    l.take(&taker, &record, &maker, &mint_a, &mint_b).unwrap();
    assert_eq!(
        l.take(&taker, &record, &maker, &mint_a, &mint_b),
        Err(EscrowError::RecordNotFound)
    );
    assert_eq!(l.refund(&maker, &record), Err(EscrowError::RecordNotFound));
    // Balances as after the one successful fulfill, untouched by the failures.
    assert_eq!(l.balance_of(&maker, &mint_b), 100);
    assert_eq!(l.balance_of(&taker, &mint_b), 100);
    assert_eq!(l.balance_of(&taker, &mint_a), 50);
}

#[test]
fn duplicate_escrow_rejected_until_retired() {
    let maker = addr(1);
    let mint_a = addr(100);
    let mint_b = addr(200);
    let mut l = Ledger::new();
    l.set_balance(&maker, &mint_a, 100);
    let record = l.make(&maker, 1, 100, 50, &mint_a, &mint_b).unwrap();
    assert_eq!(
        l.make(&maker, 1, 100, 50, &mint_a, &mint_b),
        Err(EscrowError::DuplicateEscrow)
    );
    assert_eq!(l.balance_of(&maker, &mint_a), 50);
    // After retirement the same (maker, seed) derivation is reusable.
    l.refund(&maker, &record).unwrap();
    let again = l.make(&maker, 1, 100, 50, &mint_a, &mint_b).unwrap();
    assert_eq!(again, record);
}

#[test]
fn fulfill_without_funds_rejected() {
    let maker = addr(1);
    let taker = addr(2);
    let mint_a = addr(100);
    let mint_b = addr(200);
    let mut l = Ledger::new();
    l.set_balance(&maker, &mint_a, 50);
    l.set_balance(&taker, &mint_b, 40);
    let record = l.make(&maker, 1, 100, 50, &mint_a, &mint_b).unwrap();
    assert_eq!(
        l.take(&taker, &record, &maker, &mint_a, &mint_b),
        Err(EscrowError::InsufficientFunds)
    );
    // The vault and every balance are untouched.
    assert_eq!(l.lookup(&record).unwrap().vault_amount, 50);
    assert_eq!(l.balance_of(&taker, &mint_b), 40);
    assert_eq!(l.balance_of(&maker, &mint_b), 0);
    assert_eq!(l.balance_of(&taker, &mint_a), 0);
}

#[test]
fn cancel_by_stranger_rejected() {
    let maker = addr(1);
    let stranger = addr(3);
    let mint_a = addr(100);
    let mint_b = addr(200);
    let mut l = Ledger::new();
    l.set_balance(&maker, &mint_a, 50);
    let record = l.make(&maker, 1, 100, 50, &mint_a, &mint_b).unwrap();
    assert_eq!(l.refund(&stranger, &record), Err(EscrowError::InvalidMaker));
    assert_eq!(l.lookup(&record).unwrap().vault_amount, 50);
    assert_eq!(l.balance_of(&stranger, &mint_a), 0);
}

#[test]
fn fulfill_naming_wrong_maker_rejected() {
    let maker = addr(1);
    let taker = addr(2);
    let other = addr(3);
    let mint_a = addr(100);
    let mint_b = addr(200);
    let mut l = Ledger::new();
    l.set_balance(&maker, &mint_a, 50);
    l.set_balance(&taker, &mint_b, 100);
    let record = l.make(&maker, 1, 100, 50, &mint_a, &mint_b).unwrap();
    assert_eq!(
        l.take(&taker, &record, &other, &mint_a, &mint_b),
        Err(EscrowError::InvalidMaker)
    );
    assert!(l.lookup(&record).is_some());
}

#[test]
fn fulfill_with_wrong_assets_rejected() {
    let maker = addr(1);
    let taker = addr(2);
    let mint_a = addr(100);
    let mint_b = addr(200);
    let wrong = addr(300);
    let mut l = Ledger::new();
    l.set_balance(&maker, &mint_a, 50);
    l.set_balance(&taker, &mint_b, 100);
    let record = l.make(&maker, 1, 100, 50, &mint_a, &mint_b).unwrap();
    assert_eq!(
        l.take(&taker, &record, &maker, &wrong, &mint_b),
        Err(EscrowError::InvalidMintA)
    );
    assert_eq!(
        l.take(&taker, &record, &maker, &mint_a, &wrong),
        Err(EscrowError::InvalidMintB)
    );
    assert!(l.lookup(&record).is_some());
}

#[test]
fn zero_amounts_rejected() {
    let maker = addr(1);
    let mint_a = addr(100);
    let mint_b = addr(200);
    let mut l = Ledger::new();
    l.set_balance(&maker, &mint_a, 50);
    assert_eq!(
        l.make(&maker, 1, 0, 50, &mint_a, &mint_b),
        Err(EscrowError::InvalidAmount)
    );
    assert_eq!(
        l.make(&maker, 1, 100, 0, &mint_a, &mint_b),
        Err(EscrowError::InvalidAmount)
    );
    assert_eq!(l.balance_of(&maker, &mint_a), 50);
}

#[test]
fn same_asset_on_both_sides_rejected() {
    let maker = addr(1);
    let mint_a = addr(100);
    let mut l = Ledger::new();
    l.set_balance(&maker, &mint_a, 50);
    assert_eq!(
        l.make(&maker, 1, 100, 50, &mint_a, &mint_a),
        Err(EscrowError::InvalidMintA)
    );
}

#[test]
fn create_without_funds_rejected() {
    let maker = addr(1);
    let mint_a = addr(100);
    let mint_b = addr(200);
    let mut l = Ledger::new();
    l.set_balance(&maker, &mint_a, 30);
    assert_eq!(
        l.make(&maker, 1, 100, 50, &mint_a, &mint_b),
        Err(EscrowError::InsufficientFunds)
    );
    assert_eq!(l.balance_of(&maker, &mint_a), 30);
}

#[test]
fn transition_against_unknown_address_rejected() {
    let taker = addr(2);
    let nowhere = addr(99);
    let mint_a = addr(100);
    let mint_b = addr(200);
    let mut l = Ledger::new();
    assert_eq!(
        l.take(&taker, &nowhere, &addr(1), &mint_a, &mint_b),
        Err(EscrowError::RecordNotFound)
    );
    assert_eq!(l.refund(&taker, &nowhere), Err(EscrowError::RecordNotFound));
}

#[test]
fn maker_may_fulfill_its_own_escrow() {
    let maker = addr(1);
    let mint_a = addr(100);
    let mint_b = addr(200);
    let mut l = Ledger::new();
    l.set_balance(&maker, &mint_a, 50);
    l.set_balance(&maker, &mint_b, 100);
    let record = l.make(&maker, 1, 100, 50, &mint_a, &mint_b).unwrap();
    l.take(&maker, &record, &maker, &mint_a, &mint_b).unwrap();
    // Paying itself, the maker keeps its asset B and regains its asset A.
    assert_eq!(l.balance_of(&maker, &mint_b), 100);
    assert_eq!(l.balance_of(&maker, &mint_a), 50);
    assert!(l.lookup(&record).is_none());
}

#[test]
fn balances_default_to_zero_and_are_overwritten() {
    let owner = addr(4);
    let mint = addr(100);
    let mut l = Ledger::new();
    assert_eq!(l.balance_of(&owner, &mint), 0);
    l.set_balance(&owner, &mint, 7);
    l.set_balance(&owner, &mint, 9);
    assert_eq!(l.balance_of(&owner, &mint), 9);
    assert_eq!(l.balance_of(&mint, &owner), 0);
}
