//! The data model: the escrow record, the entry that binds a record to its
//! vault, token balances, and the ledger's mathematical view — a map from
//! record addresses to live escrows and a total map from (owner, asset) pairs
//! to balances.

use crate::address::Address;
use vstd::prelude::*;

verus! {

/// The persistent escrow record: the terms of one offer. Immutable once
/// created; destroyed by exactly one of fulfill or cancel.
#[derive(Clone, Copy, PartialEq, Eq, Structural, Debug)]
pub struct Escrow {
    /// Disambiguator chosen by the maker, so one maker can run several offers.
    pub seed: u64,
    /// Owner and beneficiary of the offer.
    pub maker: Address,
    /// The asset deposited and held in the vault.
    pub mint_a: Address,
    /// The asset the maker wants in return.
    pub mint_b: Address,
    /// The exact quantity of `mint_b` that releases the vault.
    pub receive: u64,
    /// Derivation tag proving the record's address was computed, not chosen.
    pub bump: u8,
}

/// The view of a record: the same terms over address views.
pub struct EscrowV {
    pub seed: u64,
    pub maker: Seq<u8>,
    pub mint_a: Seq<u8>,
    pub mint_b: Seq<u8>,
    pub receive: u64,
    pub bump: u8,
}

impl View for Escrow {
    type V = EscrowV;

    open spec fn view(&self) -> EscrowV {
        EscrowV {
            seed: self.seed,
            maker: self.maker@,
            mint_a: self.mint_a@,
            mint_b: self.mint_b@,
            receive: self.receive,
            bump: self.bump,
        }
    }
}

/// A live escrow: the record, its derived address, its derived vault, and the
/// amount of `mint_a` the vault holds.
#[derive(Clone, Copy, PartialEq, Eq, Structural, Debug)]
pub struct EscrowEntry {
    /// The record's derived address.
    pub address: Address,
    /// The vault's derived address.
    pub vault: Address,
    /// The stored terms.
    pub record: Escrow,
    /// What the vault holds of `record.mint_a`.
    pub vault_amount: u64,
}

/// The view of a live escrow. Its address is not repeated here: it is the key
/// under which the entry stands in the ledger's view.
pub struct EscrowEntryV {
    pub vault: Seq<u8>,
    pub record: EscrowV,
    pub vault_amount: u64,
}

impl View for EscrowEntry {
    type V = EscrowEntryV;

    open spec fn view(&self) -> EscrowEntryV {
        EscrowEntryV { vault: self.vault@, record: self.record@, vault_amount: self.vault_amount }
    }
}

/// One owner's holding of one asset.
#[derive(Clone, Copy, PartialEq, Eq, Structural, Debug)]
pub struct TokenBalance {
    pub owner: Address,
    pub mint: Address,
    pub amount: u64,
}

/// The ledger's mathematical state: live escrows keyed by record address, and
/// a total balance map — an (owner, asset) pair that never appeared holds 0.
#[verifier::ext_equal]
pub struct LedgerView {
    pub escrows: Map<Seq<u8>, EscrowEntryV>,
    pub balances: Map<(Seq<u8>, Seq<u8>), u64>,
}

/// The balance a journal of postings gives an (owner, asset) pair: the amount
/// of the latest posting for the pair, 0 if there is none.
pub open spec fn bal_of(s: Seq<TokenBalance>, owner: Seq<u8>, mint: Seq<u8>) -> u64
    decreases s.len(),
{
    if s.len() == 0 {
        0u64
    } else if s.last().owner@ == owner && s.last().mint@ == mint {
        s.last().amount
    } else {
        bal_of(s.drop_last(), owner, mint)
    }
}

/// The entry a store of escrows gives an address: the latest entry whose
/// address matches, none if there is none.
pub open spec fn rec_of(s: Seq<EscrowEntry>, addr: Seq<u8>) -> Option<EscrowEntry>
    decreases s.len(),
{
    if s.len() == 0 {
        None
    } else if s.last().address@ == addr {
        Some(s.last())
    } else {
        rec_of(s.drop_last(), addr)
    }
}

/// No two entries of the store claim the same address.
pub open spec fn uniq_addresses(s: Seq<EscrowEntry>) -> bool {
    forall|i: int, j: int|
        0 <= i < j < s.len() ==> (#[trigger] s[i]).address@ != (#[trigger] s[j]).address@
}

/// The escrow map a store denotes.
pub open spec fn escrows_view(s: Seq<EscrowEntry>) -> Map<Seq<u8>, EscrowEntryV> {
    Map::new(|k: Seq<u8>| rec_of(s, k) is Some, |k: Seq<u8>| rec_of(s, k).unwrap()@)
}

/// The total balance map a journal denotes.
pub open spec fn balances_view(s: Seq<TokenBalance>) -> Map<(Seq<u8>, Seq<u8>), u64> {
    Map::total(|k: (Seq<u8>, Seq<u8>)| bal_of(s, k.0, k.1))
}

/// Appending a posting updates the denoted balance map at exactly its key.
pub proof fn lemma_balances_view_push(s: Seq<TokenBalance>, e: TokenBalance)
    ensures
        balances_view(s.push(e)) == balances_view(s).insert((e.owner@, e.mint@), e.amount),
{
    assert(s.push(e).drop_last() =~= s);
    assert(s.push(e).last() == e);
    assert(balances_view(s.push(e)) =~= balances_view(s).insert((e.owner@, e.mint@), e.amount));
}

/// Appending an entry updates the denoted escrow map at exactly its address.
pub proof fn lemma_escrows_view_push(s: Seq<EscrowEntry>, e: EscrowEntry)
    ensures
        escrows_view(s.push(e)) == escrows_view(s).insert(e.address@, e@),
{
    assert(s.push(e).drop_last() =~= s);
    assert(s.push(e).last() == e);
    assert(escrows_view(s.push(e)) =~= escrows_view(s).insert(e.address@, e@));
}

/// An address no entry claims is absent from the denotation.
pub proof fn lemma_rec_of_absent(s: Seq<EscrowEntry>, addr: Seq<u8>)
    requires
        forall|j: int| 0 <= j < s.len() ==> (#[trigger] s[j]).address@ != addr,
    ensures
        rec_of(s, addr) is None,
    decreases s.len(),
{
    if s.len() > 0 {
        assert(s.last() == s[s.len() - 1]);
        assert(forall|j: int|
            0 <= j < s.drop_last().len() ==> (#[trigger] s.drop_last()[j]).address@ != addr);
        lemma_rec_of_absent(s.drop_last(), addr);
    }
}

/// In a store without duplicate addresses, the denotation at an entry's
/// address is that entry.
pub proof fn lemma_rec_of_present(s: Seq<EscrowEntry>, i: int)
    requires
        uniq_addresses(s),
        0 <= i < s.len(),
    ensures
        rec_of(s, s[i].address@) == Some(s[i]),
    decreases s.len(),
{
    if i == s.len() - 1 {
        assert(s.last() == s[i]);
    } else {
        assert(s.last() == s[s.len() - 1]);
        assert(s.last().address@ != s[i].address@);
        assert(uniq_addresses(s.drop_last()));
        assert(s.drop_last()[i] == s[i]);
        lemma_rec_of_present(s.drop_last(), i);
    }
}

/// Removing the entry at one index erases exactly its address from the
/// denotation, provided no other entry claims that address.
pub proof fn lemma_rec_of_remove(s: Seq<EscrowEntry>, i: int, k: Seq<u8>)
    requires
        uniq_addresses(s),
        0 <= i < s.len(),
    ensures
        rec_of(s.remove(i), k) == (if k == s[i].address@ {
            None::<EscrowEntry>
        } else {
            rec_of(s, k)
        }),
    decreases s.len(),
{
    let t = s.remove(i);
    if i == s.len() - 1 {
        assert(t =~= s.drop_last());
        if k == s[i].address@ {
            assert(forall|j: int|
                0 <= j < s.drop_last().len() ==> (#[trigger] s.drop_last()[j]).address@ != k);
            lemma_rec_of_absent(s.drop_last(), k);
        } else {
            assert(s.last() == s[i]);
        }
    } else {
        assert(t.len() == s.len() - 1);
        assert(t.last() == s[s.len() - 1]);
        assert(t.drop_last() =~= s.drop_last().remove(i));
        assert(uniq_addresses(s.drop_last()));
        assert(s.drop_last()[i] == s[i]);
        lemma_rec_of_remove(s.drop_last(), i, k);
        assert(s.last() == s[s.len() - 1]);
        if k == s.last().address@ {
            assert(k != s[i].address@);
        }
    }
}

/// Removing one entry of a duplicate-free store removes exactly its address
/// from the denoted escrow map.
pub proof fn lemma_escrows_view_remove(s: Seq<EscrowEntry>, i: int)
    requires
        uniq_addresses(s),
        0 <= i < s.len(),
    ensures
        escrows_view(s.remove(i)) == escrows_view(s).remove(s[i].address@),
{
    assert forall|k: Seq<u8>| true implies #[trigger] rec_of(s.remove(i), k) == (if k
        == s[i].address@ {
        None::<EscrowEntry>
    } else {
        rec_of(s, k)
    }) by {
        lemma_rec_of_remove(s, i, k);
    }
    assert(escrows_view(s.remove(i)) =~= escrows_view(s).remove(s[i].address@));
}

} // verus!
