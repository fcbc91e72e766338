//! A two-party, asset-for-asset escrow: one party locks token A in a
//! program-controlled custody account and names a price in token B; a taker
//! pays the price and receives the locked tokens, or the initializer cancels
//! and takes them back.
//!
//! The state that the escrow works on is a [`ledger::Ledger`]: the mints,
//! the token holding accounts and the live vault records, each at its
//! address. A vault record sits at the address that the escrow program
//! controls under the vault's seed, and its custody account is the
//! canonical holding account of that address. A ledger in order keeps, for
//! every live vault, a custody account that holds exactly what was locked.
//!
//! The three operations are [`vault::initialize`], [`vault::deposit`] and
//! [`vault::cancel`]. Each names its accounts in a structure of addresses
//! ([`initialize::Initialize`], [`deposit::Deposit`], [`cancel::Cancel`]),
//! runs its steps on a [`ledger::Transaction`], and takes effect as a whole
//! or not at all. What holds of them on every ledger is stated in [`laws`].
//!
//! The accounts that a step sends to the token service are plain values
//! ([`token::TransferChecked`], [`token::CloseAccount`]), so that a program
//! on a real ledger can send what the library decided.

pub mod address;
pub mod cancel;
pub mod deposit;
pub mod error;
pub mod initialize;
pub mod laws;
pub mod layout;
pub mod ledger;
pub mod states;
mod supply;
mod table;
pub mod token;
pub mod vault;
