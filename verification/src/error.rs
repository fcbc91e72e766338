//! The reasons for which an operation is refused.

use vstd::prelude::*;

verus! {

/// Why an operation was refused. A refused operation changes nothing.
#[derive(Clone, Copy, Debug, PartialEq, Eq, Structural)]
pub enum EscrowError {
    /// An amount of zero was given where tokens must be locked or asked for.
    InvalidAmount,
    /// A mint is unknown, is not the mint of a holding account that was
    /// passed for it, or has another decimal precision than the one stated.
    InvalidMint,
    /// A holding account is missing where one must exist, is not the
    /// canonical account of its owner and mint, or is not fresh where a
    /// fresh one is needed.
    InvalidTokenAccount,
    /// The source of a transfer holds fewer tokens than are to be moved.
    InsufficientFunds,
    /// A live vault record exists already at the derived address.
    DuplicateVault,
    /// The taker holds less of token B than the vault asks for.
    InsufficientPayment,
    /// A mint that was passed is not the one that the vault record stores.
    VaultMintMismatch,
    /// The seeds do not derive the address of the authority that was passed.
    AuthorityDerivationMismatch,
    /// The party that acts is not the one that may.
    Unauthorized,
    /// No live vault record exists at the address.
    VaultAlreadyClosed,
}

} // verus!
