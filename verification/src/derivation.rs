//! Deterministic addressing and delegated authority. A record's address is
//! derived from a fixed namespace tag, the maker and the maker's seed; the
//! vault's address from a fixed namespace tag and the record's address. The
//! capability to sign for a vault is not a stored secret but the ability to
//! reproduce the record's exact derivation inputs.

use crate::address::{lemma_address_view_injective, Address};
use crate::errors::EscrowError;
use crate::state::Escrow;
use anchor_lang::prelude::Pubkey;
use vstd::prelude::*;

verus! {

/// What the record-address derivation returns for a maker and a seed: the
/// derived address and its tag, or nothing in the statistically improbable
/// case that no tag yields a valid address.
pub uninterp spec fn record_derivation(maker: Seq<u8>, seed: u64) -> Option<(Seq<u8>, u8)>;

/// What the vault-address derivation returns for a record address.
pub uninterp spec fn vault_derivation(record: Seq<u8>) -> Option<(Seq<u8>, u8)>;

/// Relies on `Pubkey::try_find_program_address` (solana-address, re-exported
/// by anchor-lang): off the chain it computes the derived address and tag by
/// hashing the seed byte slices and the program id alone, so its result is a
/// pure function of the namespace tag, the maker and the seed, and it returns
/// `None` rather than panicking when no tag works.
#[verifier::external_body]
pub fn derive_record_address(maker: &Address, seed: u64) -> (r: Option<(Address, u8)>)
    ensures
        match r {
            Some(p) => record_derivation(maker@, seed) == Some((p.0@, p.1)),
            None => record_derivation(maker@, seed) is None,
        },
{
    let maker_bytes = maker.to_bytes();
    let program = Pubkey::new_from_array([7u8; 32]);
    let seeds: [&[u8]; 3] = [b"escrow", maker_bytes.as_slice(), &seed.to_le_bytes()];
    match Pubkey::try_find_program_address(&seeds, &program) {
        Some((key, bump)) => Some((Address::from_bytes(key.to_bytes().as_slice()), bump)),
        None => None,
    }
}

/// Relies on `Pubkey::try_find_program_address`, as `derive_record_address`
/// does, under the vault namespace tag with the record's address as the one
/// component.
#[verifier::external_body]
pub fn derive_vault_address(record: &Address) -> (r: Option<(Address, u8)>)
    ensures
        match r {
            Some(p) => vault_derivation(record@) == Some((p.0@, p.1)),
            None => vault_derivation(record@) is None,
        },
{
    let record_bytes = record.to_bytes();
    let program = Pubkey::new_from_array([7u8; 32]);
    let seeds: [&[u8]; 2] = [b"vault", record_bytes.as_slice()];
    match Pubkey::try_find_program_address(&seeds, &program) {
        Some((key, bump)) => Some((Address::from_bytes(key.to_bytes().as_slice()), bump)),
        None => None,
    }
}

/// The capability to sign for a record's vault: the record's exact derivation
/// inputs. It is a function of the stored terms, never a stored credential.
#[derive(Clone, Copy, PartialEq, Eq, Structural, Debug)]
pub struct SignerSeeds {
    pub maker: Address,
    pub seed: u64,
    pub bump: u8,
}

impl SignerSeeds {
    /// The record addresses this capability signs for.
    pub open spec fn authorizes(self, record_address: Seq<u8>) -> bool {
        record_derivation(self.maker@, self.seed) == Some((record_address, self.bump))
    }
}

/// Reproduce a record's derivation to obtain the capability over its vault.
/// Succeeds exactly when the stored maker, seed and tag re-derive the
/// record's address; anything else is an authority mismatch.
pub fn sign_as_record(record: &Escrow, record_address: &Address) -> (r: Result<
    SignerSeeds,
    EscrowError,
>)
    ensures
        r is Ok <==> record_derivation(record.maker@, record.seed) == Some(
            (record_address@, record.bump),
        ),
        (r matches Ok(c) ==> c.authorizes(record_address@) && c == (SignerSeeds {
            maker: record.maker,
            seed: record.seed,
            bump: record.bump,
        })),
        r matches Err(e) ==> e == EscrowError::AuthorityMismatch,
{
    match derive_record_address(&record.maker, record.seed) {
        Some((addr, bump)) => {
            if addr == *record_address && bump == record.bump {
                Ok(SignerSeeds { maker: record.maker, seed: record.seed, bump })
            } else {
                proof {
                    if record_derivation(record.maker@, record.seed) == Some(
                        (record_address@, record.bump),
                    ) {
                        lemma_address_view_injective(addr, *record_address);
                    }
                }
                Err(EscrowError::AuthorityMismatch)
            }
        },
        None => Err(EscrowError::AuthorityMismatch),
    }
}

/// Derivation is deterministic: any two address-tag pairs that the record
/// derivation admits for one maker and one seed are the same pair.
pub proof fn lemma_record_derivation_deterministic(
    maker: Address,
    seed: u64,
    r1: (Address, u8),
    r2: (Address, u8),
)
    requires
        record_derivation(maker@, seed) == Some((r1.0@, r1.1)),
        record_derivation(maker@, seed) == Some((r2.0@, r2.1)),
    ensures
        r1 == r2,
{
    assert(r1.0@ == r2.0@);
    lemma_address_view_injective(r1.0, r2.0);
}

/// The vault derivation is deterministic in the same way.
pub proof fn lemma_vault_derivation_deterministic(
    record: Address,
    r1: (Address, u8),
    r2: (Address, u8),
)
    requires
        vault_derivation(record@) == Some((r1.0@, r1.1)),
        vault_derivation(record@) == Some((r2.0@, r2.1)),
    ensures
        r1 == r2,
{
    assert(r1.0@ == r2.0@);
    lemma_address_view_injective(r1.0, r2.0);
}

} // verus!
