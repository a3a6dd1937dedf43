//! The failure kinds a transition can report. Every precondition check of a
//! transition happens before any state change, so each of these is returned
//! with the ledger untouched.

use vstd::prelude::*;

verus! {

/// One error kind per rejected precondition.
#[derive(Clone, Copy, PartialEq, Eq, Structural, Debug)]
pub enum EscrowError {
    /// A zero receive or deposit amount was offered.
    InvalidAmount,
    /// The two assets of an offer coincide, or the supplied first asset does
    /// not match the one stored in the record.
    InvalidMintA,
    /// The supplied second asset does not match the one stored in the record.
    InvalidMintB,
    /// The signer of a cancel, or the maker named by a fulfill, is not the
    /// maker stored in the record.
    InvalidMaker,
    /// The payer holds less of the asset than the transition moves.
    InsufficientFunds,
    /// The record's stored derivation does not reproduce its address, so no
    /// signing capability over the vault exists.
    AuthorityMismatch,
    /// A record already sits at the derived address.
    DuplicateEscrow,
    /// No record sits at the given address.
    RecordNotFound,
}

} // verus!
