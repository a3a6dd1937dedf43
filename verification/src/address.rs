//! Identities on the ledger: makers, takers, assets, records and vaults are
//! all named by 32-byte addresses. The library stores an address as four
//! 64-bit words so that equality is plain field equality; its view is the
//! 32-byte little-endian sequence those words spell.

use vstd::bytes::{
    lemma_auto_spec_u64_to_from_le_bytes, spec_u64_from_le_bytes, spec_u64_to_le_bytes,
    u64_from_le_bytes, u64_to_le_bytes,
};
use vstd::prelude::*;
use vstd::slice::slice_subrange;

verus! {

/// A 32-byte ledger address, held as four 64-bit words.
#[derive(Clone, Copy, PartialEq, Eq, Structural, Debug, Hash)]
pub struct Address {
    pub w0: u64,
    pub w1: u64,
    pub w2: u64,
    pub w3: u64,
}

impl View for Address {
    type V = Seq<u8>;

    open spec fn view(&self) -> Seq<u8> {
        spec_u64_to_le_bytes(self.w0) + spec_u64_to_le_bytes(self.w1)
            + spec_u64_to_le_bytes(self.w2) + spec_u64_to_le_bytes(self.w3)
    }
}

impl Address {
    /// The bytes an address spells, lowest word first.
    pub fn to_bytes(&self) -> (r: Vec<u8>)
        ensures
            r@ == self@,
            r@.len() == 32,
    {
        proof {
            lemma_auto_spec_u64_to_from_le_bytes();
        }
        let mut r = u64_to_le_bytes(self.w0);
        let mut r1 = u64_to_le_bytes(self.w1);
        let mut r2 = u64_to_le_bytes(self.w2);
        let mut r3 = u64_to_le_bytes(self.w3);
        r.append(&mut r1);
        r.append(&mut r2);
        r.append(&mut r3);
        r
    }

    /// The address whose view is the given 32 bytes.
    pub fn from_bytes(b: &[u8]) -> (r: Address)
        requires
            b@.len() == 32,
        ensures
            r@ == b@,
    {
        proof {
            lemma_auto_spec_u64_to_from_le_bytes();
        }
        let r = Address {
            w0: u64_from_le_bytes(slice_subrange(b, 0, 8)),
            w1: u64_from_le_bytes(slice_subrange(b, 8, 16)),
            w2: u64_from_le_bytes(slice_subrange(b, 16, 24)),
            w3: u64_from_le_bytes(slice_subrange(b, 24, 32)),
        };
        proof {
            assert(r@ =~= b@);
        }
        r
    }
}

/// Equality of addresses decides equality of their views.
pub fn addr_eq(a: &Address, b: &Address) -> (r: bool)
    ensures
        r == (a@ == b@),
        r == (*a == *b),
{
    let r = *a == *b;
    proof {
        if a@ == b@ {
            lemma_address_view_injective(*a, *b);
        }
    }
    r
}

/// An address is determined by its view: equal byte sequences name equal
/// addresses.
pub proof fn lemma_address_view_injective(a: Address, b: Address)
    requires
        a@ == b@,
    ensures
        a == b,
{
    lemma_auto_spec_u64_to_from_le_bytes();
    assert(a@.subrange(0, 8) =~= spec_u64_to_le_bytes(a.w0));
    assert(a@.subrange(8, 16) =~= spec_u64_to_le_bytes(a.w1));
    assert(a@.subrange(16, 24) =~= spec_u64_to_le_bytes(a.w2));
    assert(a@.subrange(24, 32) =~= spec_u64_to_le_bytes(a.w3));
    assert(b@.subrange(0, 8) =~= spec_u64_to_le_bytes(b.w0));
    assert(b@.subrange(8, 16) =~= spec_u64_to_le_bytes(b.w1));
    assert(b@.subrange(16, 24) =~= spec_u64_to_le_bytes(b.w2));
    assert(b@.subrange(24, 32) =~= spec_u64_to_le_bytes(b.w3));
    assert(spec_u64_from_le_bytes(spec_u64_to_le_bytes(a.w0)) == a.w0);
    assert(spec_u64_from_le_bytes(spec_u64_to_le_bytes(a.w1)) == a.w1);
    assert(spec_u64_from_le_bytes(spec_u64_to_le_bytes(a.w2)) == a.w2);
    assert(spec_u64_from_le_bytes(spec_u64_to_le_bytes(a.w3)) == a.w3);
}

} // verus!
