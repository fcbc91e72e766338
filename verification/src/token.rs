//! Mints, token holding accounts, the canonical holding account of an owner
//! and a mint, and the instructions that are sent to the token service.

use crate::address::{find_address, found_address, seeds_view, Address};
use crate::error::EscrowError;
use vstd::prelude::*;

verus! {

/// The address of the token program.
pub const TOKEN_PROGRAM_ID: [u8; 32] = [
    6, 221, 246, 225, 215, 101, 161, 147, 217, 203, 225, 70, 206, 235, 121, 172,
    28, 180, 133, 237, 95, 91, 55, 145, 58, 140, 245, 133, 126, 255, 0, 169,
];

/// The address of the associated token account program.
pub const ASSOCIATED_TOKEN_PROGRAM_ID: [u8; 32] = [
    140, 151, 37, 143, 78, 36, 137, 241, 187, 61, 16, 41, 20, 142, 13, 131,
    11, 90, 19, 153, 218, 255, 16, 132, 4, 142, 123, 216, 219, 233, 248, 89,
];

/// A kind of token.
#[derive(Clone, Copy, Debug, PartialEq, Eq)]
pub struct Mint {
    /// The decimal precision of amounts of this token.
    pub decimals: u8,
    /// How many tokens of this kind exist.
    pub supply: u64,
}

/// An account that holds tokens of one mint for one owner.
#[derive(Clone, Copy, Debug, PartialEq, Eq)]
pub struct TokenAccount {
    /// The mint of the tokens held.
    pub mint: Address,
    /// The authority over the tokens held.
    pub owner: Address,
    /// How many tokens are held.
    pub amount: u64,
}

/// The accounts of a checked transfer.
#[derive(Clone, Copy, Debug, PartialEq, Eq)]
pub struct TransferChecked {
    /// The holding account that is debited.
    pub from: Address,
    /// The mint of the tokens moved.
    pub mint: Address,
    /// The holding account that is credited.
    pub to: Address,
    /// The authority over the account that is debited.
    pub authority: Address,
}

/// The accounts of the closure of a holding account.
#[derive(Clone, Copy, Debug, PartialEq, Eq)]
pub struct CloseAccount {
    /// The holding account that is closed.
    pub account: Address,
    /// The account that receives the rent of the closed account.
    pub destination: Address,
    /// The authority over the account that is closed.
    pub authority: Address,
}

/// The seeds of the canonical holding account of `owner` for `mint`: the
/// owner, the token program and the mint.
pub open spec fn associated_seeds(owner: Address, mint: Address) -> Seq<Seq<u8>> {
    seq![owner@, TOKEN_PROGRAM_ID@, mint@]
}

/// The address of the canonical holding account of `owner` for `mint`: the
/// one that the associated token account program controls under the seeds
/// of the two.
pub open spec fn associated_address(owner: Address, mint: Address) -> Option<Address> {
    match found_address(
        associated_seeds(owner, mint),
        Address { bytes: ASSOCIATED_TOKEN_PROGRAM_ID },
    ) {
        Some((a, _)) => Some(a),
        None => None,
    }
}

/// The address of the token program.
pub fn token_program() -> (r: Address)
    ensures
        r == (Address { bytes: TOKEN_PROGRAM_ID }),
{
    Address { bytes: TOKEN_PROGRAM_ID }
}

/// The address of the associated token account program.
pub fn associated_token_program() -> (r: Address)
    ensures
        r == (Address { bytes: ASSOCIATED_TOKEN_PROGRAM_ID }),
{
    Address { bytes: ASSOCIATED_TOKEN_PROGRAM_ID }
}

/// Derives the address of the canonical holding account of `owner` for
/// `mint`.
pub fn associated_token_address(owner: &Address, mint: &Address) -> (r: Option<Address>)
    ensures
        r == associated_address(*owner, *mint),
{
    let mut seeds: Vec<Vec<u8>> = Vec::new();
    seeds.push(owner.to_vec());
    seeds.push(token_program().to_vec());
    seeds.push(mint.to_vec());
    proof {
        assert(seeds_view(seeds@) =~= associated_seeds(*owner, *mint));
    }
    match find_address(&seeds, &associated_token_program()) {
        Some((a, _)) => Some(a),
        None => None,
    }
}

/// Holds the canonical address that was derived for an owner and a mint
/// against the address that was passed for their holding account: they
/// must be the same address.
pub fn check_holding_account(derived: Option<Address>, account: &Address) -> (r: Result<
    (),
    EscrowError,
>)
    ensures
        r == (if derived == Some(*account) {
            Ok::<(), EscrowError>(())
        } else {
            Err::<(), EscrowError>(EscrowError::InvalidTokenAccount)
        }),
{
    match derived {
        Some(a) => {
            if a == *account {
                Ok(())
            } else {
                Err(EscrowError::InvalidTokenAccount)
            }
        },
        None => Err(EscrowError::InvalidTokenAccount),
    }
}

} // verus!
