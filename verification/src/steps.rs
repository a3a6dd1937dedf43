//! The three transitions as mathematical functions from a ledger state and a
//! request to the next state and the result, and the laws they obey. The
//! executable transitions of `Ledger` are proved to return exactly what these
//! functions say.

use crate::derivation::{record_derivation, vault_derivation};
use crate::errors::EscrowError;
use crate::state::{EscrowEntryV, EscrowV, LedgerView};
use vstd::prelude::*;

verus! {

/// A live escrow is well formed: its stored terms re-derive its address, its
/// vault is the one derived from that address, its amounts are positive and
/// its two assets differ.
pub open spec fn entry_wf(k: Seq<u8>, e: EscrowEntryV) -> bool {
    &&& record_derivation(e.record.maker, e.record.seed) == Some((k, e.record.bump))
    &&& vault_derivation(k) matches Some(p) && p.0 == e.vault
    &&& e.record.receive > 0
    &&& e.vault_amount > 0
    &&& e.record.mint_a != e.record.mint_b
}

/// Every live escrow of a ledger state is well formed.
pub open spec fn view_wf(v: LedgerView) -> bool {
    forall|k: Seq<u8>| #[trigger] v.escrows.contains_key(k) ==> entry_wf(k, v.escrows[k])
}

/// Create: derive the record's address from the maker and the seed; reject a
/// zero amount, a self-swap, an address already in use, or an undercapitalised
/// maker; otherwise move the deposit from the maker into the new vault and
/// open the record.
pub open spec fn make_spec(
    v: LedgerView,
    maker: Seq<u8>,
    seed: u64,
    receive: u64,
    amount: u64,
    mint_a: Seq<u8>,
    mint_b: Seq<u8>,
) -> (LedgerView, Result<Seq<u8>, EscrowError>) {
    if receive == 0 || amount == 0 {
        (v, Err(EscrowError::InvalidAmount))
    } else if mint_a == mint_b {
        (v, Err(EscrowError::InvalidMintA))
    } else if record_derivation(maker, seed) is None {
        (v, Err(EscrowError::AuthorityMismatch))
    } else {
        let addr = record_derivation(maker, seed).unwrap().0;
        let bump = record_derivation(maker, seed).unwrap().1;
        if v.escrows.contains_key(addr) {
            (v, Err(EscrowError::DuplicateEscrow))
        } else if v.balances[(maker, mint_a)] < amount {
            (v, Err(EscrowError::InsufficientFunds))
        } else if vault_derivation(addr) is None {
            (v, Err(EscrowError::AuthorityMismatch))
        } else {
            let entry = EscrowEntryV {
                vault: vault_derivation(addr).unwrap().0,
                record: EscrowV { seed, maker, mint_a, mint_b, receive, bump },
                vault_amount: amount,
            };
            (
                LedgerView {
                    escrows: v.escrows.insert(addr, entry),
                    balances: v.balances.insert(
                        (maker, mint_a),
                        (v.balances[(maker, mint_a)] - amount) as u64,
                    ),
                },
                Ok(addr),
            )
        }
    }
}

/// Fulfill: against the record at `addr`, check the named maker and both
/// assets against the stored terms, re-derive the authority, and check the
/// taker's funds; then pay the maker `receive` of asset B from the taker,
/// release the whole vault of asset A to the taker, and retire record and
/// vault.
pub open spec fn take_spec(
    v: LedgerView,
    taker: Seq<u8>,
    addr: Seq<u8>,
    maker: Seq<u8>,
    mint_a: Seq<u8>,
    mint_b: Seq<u8>,
) -> (LedgerView, Result<(), EscrowError>) {
    if !v.escrows.contains_key(addr) {
        (v, Err(EscrowError::RecordNotFound))
    } else {
        let e = v.escrows[addr];
        if e.record.maker != maker {
            (v, Err(EscrowError::InvalidMaker))
        } else if e.record.mint_a != mint_a {
            (v, Err(EscrowError::InvalidMintA))
        } else if e.record.mint_b != mint_b {
            (v, Err(EscrowError::InvalidMintB))
        } else if record_derivation(e.record.maker, e.record.seed) != Some((addr, e.record.bump)) {
            (v, Err(EscrowError::AuthorityMismatch))
        } else if v.balances[(taker, mint_b)] < e.record.receive {
            (v, Err(EscrowError::InsufficientFunds))
        } else {
            let paid = v.balances.insert(
                (taker, mint_b),
                (v.balances[(taker, mint_b)] - e.record.receive) as u64,
            );
            let credited = paid.insert(
                (maker, mint_b),
                (paid[(maker, mint_b)] + e.record.receive) as u64,
            );
            let released = credited.insert(
                (taker, mint_a),
                (credited[(taker, mint_a)] + e.vault_amount) as u64,
            );
            (LedgerView { escrows: v.escrows.remove(addr), balances: released }, Ok(()))
        }
    }
}

/// Cancel: against the record at `addr`, check that the signer is the stored
/// maker and re-derive the authority; then return the whole vault of asset A
/// to the maker and retire record and vault.
pub open spec fn refund_spec(v: LedgerView, signer: Seq<u8>, addr: Seq<u8>) -> (
    LedgerView,
    Result<(), EscrowError>,
) {
    if !v.escrows.contains_key(addr) {
        (v, Err(EscrowError::RecordNotFound))
    } else {
        let e = v.escrows[addr];
        if e.record.maker != signer {
            (v, Err(EscrowError::InvalidMaker))
        } else if record_derivation(e.record.maker, e.record.seed) != Some((addr, e.record.bump)) {
            (v, Err(EscrowError::AuthorityMismatch))
        } else {
            (
                LedgerView {
                    escrows: v.escrows.remove(addr),
                    balances: v.balances.insert(
                        (signer, e.record.mint_a),
                        (v.balances[(signer, e.record.mint_a)] + e.vault_amount) as u64,
                    ),
                },
                Ok(()),
            )
        }
    }
}

/// Balances are 64-bit: where a fulfill would succeed, what it credits must
/// fit. A machine limit, not a rule of the protocol.
pub open spec fn take_fits(
    v: LedgerView,
    taker: Seq<u8>,
    addr: Seq<u8>,
    maker: Seq<u8>,
    mint_a: Seq<u8>,
    mint_b: Seq<u8>,
) -> bool {
    take_spec(v, taker, addr, maker, mint_a, mint_b).1 is Ok ==> {
        let e = v.escrows[addr];
        &&& (taker != maker ==> v.balances[(maker, mint_b)] + e.record.receive <= u64::MAX)
        &&& v.balances[(taker, mint_a)] + e.vault_amount <= u64::MAX
    }
}

/// Where a cancel would succeed, what it returns to the maker must fit.
pub open spec fn refund_fits(v: LedgerView, signer: Seq<u8>, addr: Seq<u8>) -> bool {
    refund_spec(v, signer, addr).1 is Ok ==> v.balances[(signer, v.escrows[addr].record.mint_a)]
        + v.escrows[addr].vault_amount <= u64::MAX
}

/// Atomicity of create: a failed create changes no balance and no record.
pub proof fn lemma_make_atomic(
    v: LedgerView,
    maker: Seq<u8>,
    seed: u64,
    receive: u64,
    amount: u64,
    mint_a: Seq<u8>,
    mint_b: Seq<u8>,
)
    requires
        make_spec(v, maker, seed, receive, amount, mint_a, mint_b).1 is Err,
    ensures
        make_spec(v, maker, seed, receive, amount, mint_a, mint_b).0 == v,
{
}

/// Atomicity of fulfill: a failed fulfill changes no balance and no record.
pub proof fn lemma_take_atomic(
    v: LedgerView,
    taker: Seq<u8>,
    addr: Seq<u8>,
    maker: Seq<u8>,
    mint_a: Seq<u8>,
    mint_b: Seq<u8>,
)
    requires
        take_spec(v, taker, addr, maker, mint_a, mint_b).1 is Err,
    ensures
        take_spec(v, taker, addr, maker, mint_a, mint_b).0 == v,
{
}

/// Atomicity of cancel: a failed cancel changes no balance and no record.
pub proof fn lemma_refund_atomic(v: LedgerView, signer: Seq<u8>, addr: Seq<u8>)
    requires
        refund_spec(v, signer, addr).1 is Err,
    ensures
        refund_spec(v, signer, addr).0 == v,
{
}

/// Single use, after a fulfill: the record is retired, and any later fulfill
/// or cancel at the same address fails with `RecordNotFound` and changes
/// nothing.
pub proof fn lemma_single_use_after_take(
    v: LedgerView,
    taker: Seq<u8>,
    addr: Seq<u8>,
    maker: Seq<u8>,
    mint_a: Seq<u8>,
    mint_b: Seq<u8>,
    taker2: Seq<u8>,
    maker2: Seq<u8>,
    mint_a2: Seq<u8>,
    mint_b2: Seq<u8>,
    signer2: Seq<u8>,
)
    requires
        take_spec(v, taker, addr, maker, mint_a, mint_b).1 is Ok,
    ensures
        ({
            let v2 = take_spec(v, taker, addr, maker, mint_a, mint_b).0;
            &&& !v2.escrows.contains_key(addr)
            &&& take_spec(v2, taker2, addr, maker2, mint_a2, mint_b2) == (
                v2,
                Err::<(), EscrowError>(EscrowError::RecordNotFound),
            )
            &&& refund_spec(v2, signer2, addr) == (
                v2,
                Err::<(), EscrowError>(EscrowError::RecordNotFound),
            )
        }),
{
}

/// Single use, after a cancel: the record is retired, and any later fulfill
/// or cancel at the same address fails with `RecordNotFound` and changes
/// nothing.
pub proof fn lemma_single_use_after_refund(
    v: LedgerView,
    signer: Seq<u8>,
    addr: Seq<u8>,
    taker2: Seq<u8>,
    maker2: Seq<u8>,
    mint_a2: Seq<u8>,
    mint_b2: Seq<u8>,
    signer2: Seq<u8>,
)
    requires
        refund_spec(v, signer, addr).1 is Ok,
    ensures
        ({
            let v2 = refund_spec(v, signer, addr).0;
            &&& !v2.escrows.contains_key(addr)
            &&& take_spec(v2, taker2, addr, maker2, mint_a2, mint_b2) == (
                v2,
                Err::<(), EscrowError>(EscrowError::RecordNotFound),
            )
            &&& refund_spec(v2, signer2, addr) == (
                v2,
                Err::<(), EscrowError>(EscrowError::RecordNotFound),
            )
        }),
{
}

/// Conservation: a successful fulfill by a taker other than the maker raises
/// the taker's asset-A balance by exactly what the vault held, raises the
/// maker's asset-B balance by exactly the stored receive amount, lowers the
/// taker's asset-B balance by the same, and retires the vault and record.
pub proof fn lemma_take_conserves(
    v: LedgerView,
    taker: Seq<u8>,
    addr: Seq<u8>,
    maker: Seq<u8>,
    mint_a: Seq<u8>,
    mint_b: Seq<u8>,
)
    requires
        view_wf(v),
        take_fits(v, taker, addr, maker, mint_a, mint_b),
        take_spec(v, taker, addr, maker, mint_a, mint_b).1 is Ok,
        taker != maker,
    ensures
        ({
            let v2 = take_spec(v, taker, addr, maker, mint_a, mint_b).0;
            let e = v.escrows[addr];
            &&& v2.balances[(taker, e.record.mint_a)] == v.balances[(taker, e.record.mint_a)]
                + e.vault_amount
            &&& v2.balances[(maker, e.record.mint_b)] == v.balances[(maker, e.record.mint_b)]
                + e.record.receive
            &&& v2.balances[(taker, e.record.mint_b)] == v.balances[(taker, e.record.mint_b)]
                - e.record.receive
            &&& !v2.escrows.contains_key(addr)
        }),
{
    let e = v.escrows[addr];
    assert(entry_wf(addr, e));
    assert(e.record.mint_a != e.record.mint_b);
}

/// Authorization of cancel: a cancel signed by anything other than the stored
/// maker fails with `InvalidMaker` and changes nothing.
pub proof fn lemma_refund_requires_maker(v: LedgerView, signer: Seq<u8>, addr: Seq<u8>)
    requires
        v.escrows.contains_key(addr),
        signer != v.escrows[addr].record.maker,
    ensures
        refund_spec(v, signer, addr) == (v, Err::<(), EscrowError>(EscrowError::InvalidMaker)),
{
}

/// Authorization of fulfill: a fulfill that names a maker other than the
/// stored one fails with `InvalidMaker` and changes nothing.
pub proof fn lemma_take_requires_maker(
    v: LedgerView,
    taker: Seq<u8>,
    addr: Seq<u8>,
    maker: Seq<u8>,
    mint_a: Seq<u8>,
    mint_b: Seq<u8>,
)
    requires
        v.escrows.contains_key(addr),
        maker != v.escrows[addr].record.maker,
    ensures
        take_spec(v, taker, addr, maker, mint_a, mint_b) == (
            v,
            Err::<(), EscrowError>(EscrowError::InvalidMaker),
        ),
{
}

} // verus!
