//! The vault record and the derivation of its address.

use crate::address::{
    derive_address, derived_address, find_address, found_address, seeds_view, Address,
};
use crate::error::EscrowError;
use vstd::bytes::{spec_u64_to_le_bytes, u64_to_le_bytes};
use vstd::prelude::*;

verus! {

/// The persistent state of one escrow.
#[derive(Clone, Copy, Debug, PartialEq, Eq)]
pub struct Vault {
    /// Chosen by the initializer; makes the vault's address unique.
    pub seed: u64,
    /// The bump seed with which the vault's address was derived.
    pub bump: u8,
    /// The mint of the tokens that are locked.
    pub mint_a: Address,
    /// The mint of the tokens that are asked for.
    pub mint_b: Address,
    /// The party that created the vault.
    pub initializer: Address,
    /// How many tokens of mint A are locked.
    pub initializer_amount: u64,
    /// How many tokens of mint B are asked for.
    pub taker_amount: u64,
}

/// The tag that every vault address is derived under: the bytes of `state`.
pub open spec fn state_tag() -> Seq<u8> {
    seq![115u8, 116u8, 97u8, 116u8, 101u8]
}

/// The seeds that a vault's address is searched under: the tag and the seed
/// in little-endian bytes.
pub open spec fn address_seeds(seed: u64) -> Seq<Seq<u8>> {
    seq![state_tag(), spec_u64_to_le_bytes(seed)]
}

/// The seeds with which the program signs for a vault: the seeds of its
/// address, followed by the bump seed.
pub open spec fn signer_seeds(seed: u64, bump: u8) -> Seq<Seq<u8>> {
    address_seeds(seed).push(seq![bump])
}

/// The address and bump seed of the vault that `program` keeps for `seed`.
pub open spec fn vault_address(program: Address, seed: u64) -> Option<(Address, u8)> {
    found_address(address_seeds(seed), program)
}

/// The address that `program` signs for with the seeds of a vault.
pub open spec fn vault_authority(program: Address, seed: u64, bump: u8) -> Option<Address> {
    derived_address(signer_seeds(seed, bump), program)
}

fn tag_bytes() -> (r: Vec<u8>)
    ensures
        r@ == state_tag(),
{
    let mut r: Vec<u8> = Vec::new();
    r.push(115u8);
    r.push(116u8);
    r.push(97u8);
    r.push(116u8);
    r.push(101u8);
    proof {
        assert(r@ =~= state_tag());
    }
    r
}

/// The seeds that the address of the vault for `seed` is searched under.
pub fn vault_address_seeds(seed: u64) -> (r: Vec<Vec<u8>>)
    ensures
        seeds_view(r@) == address_seeds(seed),
{
    let mut r: Vec<Vec<u8>> = Vec::new();
    r.push(tag_bytes());
    r.push(u64_to_le_bytes(seed));
    proof {
        assert(seeds_view(r@) =~= address_seeds(seed));
    }
    r
}

/// Searches for the address and bump seed of the vault that `program` keeps
/// for `seed`. The program signs for that address with the seeds and the
/// bump seed.
pub fn find_vault_address(program: &Address, seed: u64) -> (r: Option<(Address, u8)>)
    ensures
        r == vault_address(*program, seed),
        r matches Some((a, bump)) ==> vault_authority(*program, seed, bump) == Some(a),
{
    let seeds = vault_address_seeds(seed);
    find_address(&seeds, program)
}

/// Holds the address that a vault's seeds derive against the address that
/// was passed for the vault: they must be the same address.
pub fn check_authority(derived: Option<Address>, vault: &Address) -> (r: Result<(), EscrowError>)
    ensures
        r == (if derived == Some(*vault) {
            Ok::<(), EscrowError>(())
        } else {
            Err::<(), EscrowError>(EscrowError::AuthorityDerivationMismatch)
        }),
{
    match derived {
        Some(a) => {
            if a == *vault {
                Ok(())
            } else {
                Err(EscrowError::AuthorityDerivationMismatch)
            }
        },
        None => Err(EscrowError::AuthorityDerivationMismatch),
    }
}

/// Holds the address and bump seed that were found for a seed against the
/// address that was passed for the vault, and gives the bump seed where the
/// address is the one found.
pub fn check_vault_address(found: Option<(Address, u8)>, vault: &Address) -> (r: Result<
    u8,
    EscrowError,
>)
    ensures
        r == (match found {
            Some((a, bump)) if a == *vault => Ok::<u8, EscrowError>(bump),
            _ => Err::<u8, EscrowError>(EscrowError::AuthorityDerivationMismatch),
        }),
{
    match found {
        Some((a, bump)) => {
            if a == *vault {
                Ok(bump)
            } else {
                Err(EscrowError::AuthorityDerivationMismatch)
            }
        },
        None => Err(EscrowError::AuthorityDerivationMismatch),
    }
}

impl Vault {
    /// The seeds with which the program signs for the vault.
    pub fn signer_seeds(&self) -> (r: Vec<Vec<u8>>)
        ensures
            seeds_view(r@) == signer_seeds(self.seed, self.bump),
    {
        let mut r = vault_address_seeds(self.seed);
        let mut bump: Vec<u8> = Vec::new();
        bump.push(self.bump);
        proof {
            assert(bump@ =~= seq![self.bump]);
        }
        let ghost before = r@;
        r.push(bump);
        proof {
            assert(seeds_view(r@) =~= seeds_view(before).push(bump@));
        }
        r
    }

    /// The address that the program signs for with the vault's stored seed
    /// and bump seed, derived anew.
    pub fn authority(&self, program: &Address) -> (r: Option<Address>)
        ensures
            r == vault_authority(*program, self.seed, self.bump),
    {
        let seeds = self.signer_seeds();
        derive_address(&seeds, program)
    }
}

} // verus!
