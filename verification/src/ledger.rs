//! The executable ledger and its three transitions. Each transition is proved
//! to return exactly the state and result that the corresponding transition
//! function of `steps` gives, and to keep the ledger well formed.

use crate::address::{addr_eq, lemma_address_view_injective, Address};
use crate::derivation::{derive_record_address, derive_vault_address, sign_as_record};
use crate::errors::EscrowError;
use crate::state::{
    bal_of, balances_view, escrows_view, lemma_balances_view_push, lemma_escrows_view_push,
    lemma_escrows_view_remove, lemma_rec_of_absent, lemma_rec_of_present, uniq_addresses,
    Escrow, EscrowEntry, EscrowEntryV, LedgerView, TokenBalance,
};
use crate::steps::{
    entry_wf, make_spec, refund_fits, refund_spec, take_fits, take_spec, view_wf,
};
use vstd::prelude::*;

verus! {

/// The ledger: the live escrows and the token balances. Its view is the pair
/// of maps that the transition functions of `steps` speak of.
pub struct Ledger {
    pub escrows: Vec<EscrowEntry>,
    pub balances: Vec<TokenBalance>,
}

impl View for Ledger {
    type V = LedgerView;

    open spec fn view(&self) -> LedgerView {
        LedgerView {
            escrows: escrows_view(self.escrows@),
            balances: balances_view(self.balances@),
        }
    }
}

impl Ledger {
    /// Well formed: no two live escrows share an address, and every live
    /// escrow re-derives its address and vault and has valid terms.
    pub open spec fn wf(&self) -> bool {
        &&& uniq_addresses(self.escrows@)
        &&& view_wf(self@)
    }

    /// An empty ledger: no escrows, every balance zero.
    pub fn new() -> (r: Ledger)
        ensures
            r.wf(),
            r@.escrows == Map::<Seq<u8>, EscrowEntryV>::empty(),
            forall|o: Seq<u8>, m: Seq<u8>| r@.balances[(o, m)] == 0,
    {
        let r = Ledger { escrows: Vec::new(), balances: Vec::new() };
        proof {
            assert(r@.escrows =~= Map::<Seq<u8>, EscrowEntryV>::empty());
        }
        r
    }

    /// The balance an owner holds of an asset.
    pub fn balance_of(&self, owner: &Address, mint: &Address) -> (r: u64)
        ensures
            r == self@.balances[(owner@, mint@)],
    {
        let ghost s = self.balances@;
        let n = self.balances.len();
        proof {
            assert(s.take(n as int) =~= s);
        }
        let mut i: usize = n;
        while i > 0
            invariant
                i <= n,
                n == s.len(),
                s == self.balances@,
                bal_of(s, owner@, mint@) == bal_of(s.take(i as int), owner@, mint@),
            decreases i,
        {
            let b = &self.balances[i - 1];
            proof {
                assert(s.take(i as int).last() == s[i as int - 1]);
                assert(s.take(i as int).drop_last() =~= s.take(i as int - 1));
            }
            if addr_eq(&b.owner, owner) && addr_eq(&b.mint, mint) {
                return b.amount;
            }
            i = i - 1;
        }
        proof {
            assert(s.take(0) =~= Seq::<TokenBalance>::empty());
        }
        0
    }

    /// Post a balance: afterwards the owner holds exactly `amount` of the
    /// asset and every other holding is unchanged. This is the balance
    /// collaborator's effect on one account; it is how accounts are funded.
    pub fn set_balance(&mut self, owner: &Address, mint: &Address, amount: u64)
        ensures
            final(self)@.balances == old(self)@.balances.insert((owner@, mint@), amount),
            final(self)@.escrows == old(self)@.escrows,
            final(self).escrows == old(self).escrows,
            old(self).wf() ==> final(self).wf(),
    {
        let e = TokenBalance { owner: *owner, mint: *mint, amount };
        proof {
            lemma_balances_view_push(self.balances@, e);
        }
        self.balances.push(e);
    }

    /// The index of the live escrow at an address, if any.
    fn find_escrow(&self, addr: &Address) -> (r: Option<usize>)
        requires
            uniq_addresses(self.escrows@),
        ensures
            match r {
                Some(i) => {
                    &&& i < self.escrows@.len()
                    &&& self.escrows@[i as int].address@ == addr@
                    &&& self@.escrows.contains_key(addr@)
                    &&& self@.escrows[addr@] == self.escrows@[i as int]@
                },
                None => {
                    &&& !self@.escrows.contains_key(addr@)
                    &&& forall|j: int|
                        0 <= j < self.escrows@.len() ==> (#[trigger] self.escrows@[j]).address@
                            != addr@
                },
            },
    {
        let n = self.escrows.len();
        let mut i: usize = 0;
        while i < n
            invariant
                i <= n,
                n == self.escrows@.len(),
                uniq_addresses(self.escrows@),
                forall|j: int| 0 <= j < i ==> (#[trigger] self.escrows@[j]).address@ != addr@,
            decreases n - i,
        {
            if addr_eq(&self.escrows[i].address, addr) {
                proof {
                    lemma_rec_of_present(self.escrows@, i as int);
                }
                return Some(i);
            }
            i = i + 1;
        }
        proof {
            lemma_rec_of_absent(self.escrows@, addr@);
        }
        None
    }

    /// Read-only lookup of the live escrow at a derived address.
    pub fn lookup(&self, addr: &Address) -> (r: Option<EscrowEntry>)
        requires
            self.wf(),
        ensures
            match r {
                Some(e) => {
                    &&& self@.escrows.contains_key(addr@)
                    &&& self@.escrows[addr@] == e@
                    &&& e.address == *addr
                },
                None => !self@.escrows.contains_key(addr@),
            },
    {
        match self.find_escrow(addr) {
            Some(i) => {
                let e = self.escrows[i];
                proof {
                    lemma_address_view_injective(e.address, *addr);
                }
                Some(e)
            },
            None => None,
        }
    }

    /// Create: open an escrow for `maker` under `seed`, offering `amount` of
    /// `mint_a` for `receive` of `mint_b`. On success the deposit moves from
    /// the maker into the new vault and the derived record address is
    /// returned; on failure nothing changes.
    pub fn make(
        &mut self,
        maker: &Address,
        seed: u64,
        receive: u64,
        amount: u64,
        mint_a: &Address,
        mint_b: &Address,
    ) -> (r: Result<Address, EscrowError>)
        requires
            old(self).wf(),
        ensures
            final(self).wf(),
            ({
                let (v2, res) = make_spec(
                    old(self)@,
                    maker@,
                    seed,
                    receive,
                    amount,
                    mint_a@,
                    mint_b@,
                );
                &&& final(self)@ == v2
                &&& match r {
                    Ok(a) => res == Ok::<Seq<u8>, EscrowError>(a@),
                    Err(e) => res == Err::<Seq<u8>, EscrowError>(e),
                }
            }),
    {
        if receive == 0 || amount == 0 {
            return Err(EscrowError::InvalidAmount);
        }
        if addr_eq(mint_a, mint_b) {
            return Err(EscrowError::InvalidMintA);
        }
        let (addr, bump) = match derive_record_address(maker, seed) {
            None => { return Err(EscrowError::AuthorityMismatch) },
            Some(p) => p,
        };
        match self.find_escrow(&addr) {
            Some(_) => { return Err(EscrowError::DuplicateEscrow) },
            None => {},
        }
        let bal = self.balance_of(maker, mint_a);
        if bal < amount {
            return Err(EscrowError::InsufficientFunds);
        }
        let vault = match derive_vault_address(&addr) {
            None => { return Err(EscrowError::AuthorityMismatch) },
            Some(p) => p.0,
        };
        let entry = EscrowEntry {
            address: addr,
            vault,
            record: Escrow {
                seed,
                maker: *maker,
                mint_a: *mint_a,
                mint_b: *mint_b,
                receive,
                bump,
            },
            vault_amount: amount,
        };
        self.set_balance(maker, mint_a, bal - amount);
        proof {
            lemma_escrows_view_push(self.escrows@, entry);
        }
        self.escrows.push(entry);
        proof {
            assert(uniq_addresses(self.escrows@)) by {
                let s = self.escrows@;
                let old_s = old(self).escrows@;
                assert forall|x: int, y: int| 0 <= x < y < s.len() implies (#[trigger] s[x]).address@
                    != (#[trigger] s[y]).address@ by {
                    if y < s.len() - 1 {
                        assert(s[x] == old_s[x] && s[y] == old_s[y]);
                    } else {
                        assert(s[y] == entry && s[x] == old_s[x]);
                    }
                }
            }
            assert(view_wf(self@)) by {
                let m = self@.escrows;
                assert forall|k: Seq<u8>| #[trigger] m.contains_key(k) implies entry_wf(
                    k,
                    m[k],
                ) by {
                    if k != entry.address@ {
                        assert(old(self)@.escrows.contains_key(k));
                    }
                }
            }
        }
        Ok(addr)
    }

    /// Fulfill: against the record at `record_address`, pay the stored
    /// receive amount of `mint_b` from the taker to the maker, release the
    /// whole vault of `mint_a` to the taker, and retire the record and vault.
    /// On any failed check nothing changes.
    pub fn take(
        &mut self,
        taker: &Address,
        record_address: &Address,
        maker: &Address,
        mint_a: &Address,
        mint_b: &Address,
    ) -> (r: Result<(), EscrowError>)
        requires
            old(self).wf(),
            take_fits(old(self)@, taker@, record_address@, maker@, mint_a@, mint_b@),
        ensures
            final(self).wf(),
            ({
                let (v2, res) = take_spec(
                    old(self)@,
                    taker@,
                    record_address@,
                    maker@,
                    mint_a@,
                    mint_b@,
                );
                &&& final(self)@ == v2
                &&& r == res
            }),
    {
        let i = match self.find_escrow(record_address) {
            None => { return Err(EscrowError::RecordNotFound) },
            Some(i) => i,
        };
        let entry = self.escrows[i];
        proof {
            assert(entry_wf(record_address@, entry@));
        }
        if !addr_eq(&entry.record.maker, maker) {
            return Err(EscrowError::InvalidMaker);
        }
        if !addr_eq(&entry.record.mint_a, mint_a) {
            return Err(EscrowError::InvalidMintA);
        }
        if !addr_eq(&entry.record.mint_b, mint_b) {
            return Err(EscrowError::InvalidMintB);
        }
        match sign_as_record(&entry.record, record_address) {
            Err(e) => { return Err(e) },
            Ok(_authority) => {},
        }
        let taker_b = self.balance_of(taker, mint_b);
        if taker_b < entry.record.receive {
            return Err(EscrowError::InsufficientFunds);
        }
        proof {
            assert(take_spec(
                old(self)@,
                taker@,
                record_address@,
                maker@,
                mint_a@,
                mint_b@,
            ).1 is Ok);
        }
        // Pay the maker from the taker.
        self.set_balance(taker, mint_b, taker_b - entry.record.receive);
        let maker_b = self.balance_of(maker, mint_b);
        proof {
            if taker@ == maker@ {
                assert(maker_b == taker_b - entry.record.receive);
            }
        }
        self.set_balance(maker, mint_b, maker_b + entry.record.receive);
        // Release the whole vault to the taker.
        let taker_a = self.balance_of(taker, mint_a);
        self.set_balance(taker, mint_a, taker_a + entry.vault_amount);
        proof {
            lemma_escrows_view_remove(self.escrows@, i as int);
        }
        self.escrows.remove(i);
        proof {
            self.lemma_wf_after_remove(old(self).escrows@, i as int);
        }
        Ok(())
    }

    /// Cancel: against the record at `record_address`, return the whole vault
    /// of `mint_a` to the maker, who must be the signer, and retire the
    /// record and vault. On any failed check nothing changes.
    pub fn refund(&mut self, signer: &Address, record_address: &Address) -> (r: Result<
        (),
        EscrowError,
    >)
        requires
            old(self).wf(),
            refund_fits(old(self)@, signer@, record_address@),
        ensures
            final(self).wf(),
            ({
                let (v2, res) = refund_spec(old(self)@, signer@, record_address@);
                &&& final(self)@ == v2
                &&& r == res
            }),
    {
        let i = match self.find_escrow(record_address) {
            None => { return Err(EscrowError::RecordNotFound) },
            Some(i) => i,
        };
        let entry = self.escrows[i];
        proof {
            assert(entry_wf(record_address@, entry@));
        }
        if !addr_eq(&entry.record.maker, signer) {
            return Err(EscrowError::InvalidMaker);
        }
        match sign_as_record(&entry.record, record_address) {
            Err(e) => { return Err(e) },
            Ok(_authority) => {},
        }
        proof {
            assert(refund_spec(old(self)@, signer@, record_address@).1 is Ok);
        }
        let maker_a = self.balance_of(signer, &entry.record.mint_a);
        self.set_balance(signer, &entry.record.mint_a, maker_a + entry.vault_amount);
        proof {
            lemma_escrows_view_remove(self.escrows@, i as int);
        }
        self.escrows.remove(i);
        proof {
            self.lemma_wf_after_remove(old(self).escrows@, i as int);
        }
        Ok(())
    }

    /// After removing one entry of a well-formed store, the store is still
    /// well formed.
    proof fn lemma_wf_after_remove(&self, old_s: Seq<EscrowEntry>, i: int)
        requires
            uniq_addresses(old_s),
            0 <= i < old_s.len(),
            self.escrows@ == old_s.remove(i),
            escrows_view(self.escrows@) == escrows_view(old_s).remove(old_s[i].address@),
            forall|k: Seq<u8>| #[trigger] escrows_view(old_s).contains_key(k) ==> entry_wf(
                k,
                escrows_view(old_s)[k],
            ),
        ensures
            uniq_addresses(self.escrows@),
            view_wf(self@),
    {
        let s = self.escrows@;
        assert forall|x: int, y: int| 0 <= x < y < s.len() implies (#[trigger] s[x]).address@
            != (#[trigger] s[y]).address@ by {
            let x0 = if x < i { x } else { x + 1 };
            let y0 = if y < i { y } else { y + 1 };
            assert(s[x] == old_s[x0] && s[y] == old_s[y0]);
        }
        assert forall|k: Seq<u8>| #[trigger] self@.escrows.contains_key(k) implies entry_wf(
            k,
            self@.escrows[k],
        ) by {
            assert(escrows_view(old_s).contains_key(k));
        }
    }
}

} // verus!
