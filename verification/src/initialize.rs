//! Opening a vault: the initializer locks token A and names the price in
//! token B.

use crate::address::Address;
use crate::error::EscrowError;
use crate::ledger::{spec_lock, LedgerView, Transaction};
use crate::states::{check_vault_address, find_vault_address, vault_address, Vault};
use crate::token::TransferChecked;
use vstd::prelude::*;

verus! {

/// The accounts with which a vault is opened.
#[derive(Clone, Copy, Debug, PartialEq, Eq)]
pub struct Initialize {
    /// The party that locks token A; it signs.
    pub initializer: Address,
    /// The mint of the tokens that are locked.
    pub mint_a: Address,
    /// The mint of the tokens that are asked for.
    pub mint_b: Address,
    /// The initializer's holding account for token A.
    pub initializer_ata_a: Address,
    /// The address of the vault record, derived from the seed.
    pub vault: Address,
    /// The vault's custody account; created where it is missing.
    pub custody: Address,
}

impl Initialize {
    /// The accounts of the locking transfer: from the initializer's holding
    /// account for token A to the custody account, on the initializer's
    /// word.
    pub open spec fn deposit_context(self) -> TransferChecked {
        TransferChecked {
            from: self.initializer_ata_a,
            mint: self.mint_a,
            to: self.custody,
            authority: self.initializer,
        }
    }

    /// The record of a vault that is opened with these accounts.
    pub open spec fn record(
        self,
        seed: u64,
        bump: u8,
        initializer_amount: u64,
        taker_amount: u64,
    ) -> Vault {
        Vault {
            seed,
            bump,
            mint_a: self.mint_a,
            mint_b: self.mint_b,
            initializer: self.initializer,
            initializer_amount,
            taker_amount,
        }
    }

    /// The bump seed of the vault's address, where the address passed is
    /// the one that `program` keeps for `seed`.
    pub open spec fn spec_bump(self, program: Address, seed: u64) -> Result<u8, EscrowError> {
        match vault_address(program, seed) {
            Some((a, bump)) if a == self.vault => Ok(bump),
            _ => Err(EscrowError::AuthorityDerivationMismatch),
        }
    }

    /// The ledger after the locking transfer, which opens the vault with
    /// `record` and fills its custody account.
    pub open spec fn spec_deposit(self, s: LedgerView, record: Vault, amount: u64) -> Result<
        LedgerView,
        EscrowError,
    > {
        spec_lock(
            s,
            self.vault,
            record,
            self.deposit_context(),
            amount,
            s.decimals(self.mint_a),
        )
    }

    /// The accounts of the locking transfer.
    pub fn into_deposit_context(&self) -> (r: TransferChecked)
        ensures
            r == self.deposit_context(),
    {
        TransferChecked {
            from: self.initializer_ata_a,
            mint: self.mint_a,
            to: self.custody,
            authority: self.initializer,
        }
    }

    /// Searches for the bump seed of the vault's address, and refuses an
    /// address that is not the one derived from `seed`.
    pub fn bump(&self, program: &Address, seed: u64) -> (r: Result<u8, EscrowError>)
        ensures
            r == self.spec_bump(*program, seed),
    {
        check_vault_address(find_vault_address(program, seed), &self.vault)
    }

    /// The record of the vault: the seed, the bump seed, both mints, the
    /// initializer and both amounts.
    pub fn initialize_vault(
        &self,
        seed: u64,
        bump: u8,
        initializer_amount: u64,
        taker_amount: u64,
    ) -> (r: Vault)
        ensures
            r == self.record(seed, bump, initializer_amount, taker_amount),
    {
        Vault {
            seed,
            bump,
            mint_a: self.mint_a,
            mint_b: self.mint_b,
            initializer: self.initializer,
            initializer_amount,
            taker_amount,
        }
    }

    /// Locks: opens the vault with `record` and moves `amount` tokens from
    /// the initializer's holding account for token A into the custody
    /// account.
    pub fn deposit(&self, tx: &mut Transaction, record: &Vault, amount: u64) -> (r: Result<
        (),
        EscrowError,
    >)
        requires
            old(tx).wf(),
        ensures
            final(tx).wf(),
            match self.spec_deposit(old(tx)@, *record, amount) {
                Ok(post) => r is Ok && final(tx)@ == post,
                Err(e) => r == Err::<(), EscrowError>(e) && final(tx)@ == old(tx)@,
            },
    {
        let decimals = tx.ledger().decimals(&self.mint_a);
        tx.lock(&self.vault, record, &self.into_deposit_context(), amount, decimals)
    }
}

} // verus!
