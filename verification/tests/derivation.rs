//! The derivation engine against the real runtime primitive: determinism,
//! sensitivity to each input, and agreement with the underlying derivation.

use anchor_escrow::address::Address;
use anchor_escrow::derivation::{derive_record_address, derive_vault_address, sign_as_record};
use anchor_escrow::errors::EscrowError;
use anchor_escrow::state::Escrow;
use anchor_lang::prelude::Pubkey;

fn addr(n: u64) -> Address {
    Address { w0: n, w1: 0, w2: 0, w3: 0 }
}

#[test]
fn record_derivation_is_deterministic() {
    let maker = addr(5);
    let first = derive_record_address(&maker, 9).unwrap();
    let second = derive_record_address(&maker, 9).unwrap();
    assert_eq!(first, second);
}

#[test]
fn record_derivation_depends_on_every_input() {
    let maker = addr(5);
    let base = derive_record_address(&maker, 9).unwrap();
    let other_seed = derive_record_address(&maker, 10).unwrap();
    let other_maker = derive_record_address(&addr(6), 9).unwrap();
    assert_ne!(base.0, other_seed.0);
    assert_ne!(base.0, other_maker.0);
}

#[test]
fn derived_addresses_are_fresh() {
    let maker = addr(5);
    let (record, _) = derive_record_address(&maker, 9).unwrap();
    assert_ne!(record, maker);
    let (vault, _) = derive_vault_address(&record).unwrap();
    assert_ne!(vault, record);
    assert_ne!(vault, maker);
}

#[test]
fn record_derivation_matches_the_runtime_primitive() {
    let maker = addr(5);
    let (record, bump) = derive_record_address(&maker, 9).unwrap();
    let maker_bytes = maker.to_bytes();
    let program = Pubkey::new_from_array([7u8; 32]);
    let expected = Pubkey::find_program_address(
        &[b"escrow", maker_bytes.as_slice(), &9u64.to_le_bytes()],
        &program,
    );
    assert_eq!(record.to_bytes(), expected.0.to_bytes().to_vec());
    assert_eq!(bump, expected.1);
}

#[test]
fn vault_derivation_matches_the_runtime_primitive() {
    let maker = addr(5);
    let (record, _) = derive_record_address(&maker, 9).unwrap();
    let (vault, bump) = derive_vault_address(&record).unwrap();
    let record_bytes = record.to_bytes();
    let program = Pubkey::new_from_array([7u8; 32]);
    let expected = Pubkey::find_program_address(&[b"vault", record_bytes.as_slice()], &program);
    assert_eq!(vault.to_bytes(), expected.0.to_bytes().to_vec());
    assert_eq!(bump, expected.1);
}

#[test]
fn only_the_exact_derivation_inputs_can_sign() {
    let maker = addr(5);
    let (record, bump) = derive_record_address(&maker, 9).unwrap();
    let stored = Escrow {
        seed: 9,
        maker,
        mint_a: addr(100),
        mint_b: addr(200),
        receive: 5,
        bump,
    };
    assert!(sign_as_record(&stored, &record).is_ok());
    let wrong_bump = Escrow { bump: bump.wrapping_add(1), ..stored };
    assert_eq!(
        sign_as_record(&wrong_bump, &record),
        Err(EscrowError::AuthorityMismatch)
    );
    let wrong_seed = Escrow { seed: 10, ..stored };
    assert_eq!(
        sign_as_record(&wrong_seed, &record),
        Err(EscrowError::AuthorityMismatch)
    );
}

#[test]
fn addresses_round_trip_through_bytes() {
    let a = Address { w0: 1, w1: 2, w2: 3, w3: u64::MAX };
    let bytes = a.to_bytes();
    assert_eq!(bytes.len(), 32);
    assert_eq!(Address::from_bytes(bytes.as_slice()), a);
}
