//! Cancellation: the initializer takes back what the vault holds.

use crate::address::Address;
use crate::error::EscrowError;
use crate::ledger::{spec_open_account, spec_release, LedgerView, Transaction};
use crate::states::{check_authority, signer_seeds, vault_authority};
use crate::token::{
    associated_address, associated_token_address, check_holding_account, CloseAccount,
    TransferChecked,
};
use vstd::prelude::*;

verus! {

/// The accounts of a cancellation.
#[derive(Clone, Copy, Debug, PartialEq, Eq)]
pub struct Cancel {
    /// The party that cancels; it signs, and must be the one that opened
    /// the vault.
    pub initializer: Address,
    /// The mint of the tokens that are locked.
    pub mint_a: Address,
    /// The initializer's holding account for token A; opened where it is
    /// missing.
    pub initializer_ata_a: Address,
    /// The vault record.
    pub vault: Address,
    /// The vault's custody account.
    pub custody: Address,
}

impl Cancel {
    /// The accounts of the refund: from the custody account to the
    /// initializer's holding account for token A, on the vault's word.
    pub open spec fn refund_context(self) -> TransferChecked {
        TransferChecked {
            from: self.custody,
            mint: self.mint_a,
            to: self.initializer_ata_a,
            authority: self.vault,
        }
    }

    /// The accounts of the closure of the custody account: its rent goes to
    /// the initializer, on the vault's word.
    pub open spec fn close_context(self) -> CloseAccount {
        CloseAccount { account: self.custody, destination: self.initializer, authority: self.vault }
    }

    /// The accounts of the refund.
    pub fn into_refund_context(&self) -> (r: TransferChecked)
        ensures
            r == self.refund_context(),
    {
        TransferChecked {
            from: self.custody,
            mint: self.mint_a,
            to: self.initializer_ata_a,
            authority: self.vault,
        }
    }

    /// The accounts of the closure of the custody account.
    pub fn into_close_context(&self) -> (r: CloseAccount)
        ensures
            r == self.close_context(),
    {
        CloseAccount { account: self.custody, destination: self.initializer, authority: self.vault }
    }

    /// The ledger after the accounts of a cancellation were found in order,
    /// with the initializer's holding account opened where it was missing;
    /// or the reason for which they are not in order. The vault must be
    /// live, the signer its initializer, the mint that of the record, the
    /// vault's address the one that its stored seeds derive, and the custody
    /// account the canonical one.
    pub open spec fn spec_try_accounts(self, s: LedgerView) -> Result<LedgerView, EscrowError> {
        if !s.vaults.contains_key(self.vault) {
            Err(EscrowError::VaultAlreadyClosed)
        } else {
            let r = s.vaults[self.vault];
            if self.initializer != r.initializer {
                Err(EscrowError::Unauthorized)
            } else if self.mint_a != r.mint_a {
                Err(EscrowError::VaultMintMismatch)
            } else if vault_authority(s.program, r.seed, r.bump) != Some(self.vault) {
                Err(EscrowError::AuthorityDerivationMismatch)
            } else if associated_address(self.vault, self.mint_a) != Some(self.custody) {
                Err(EscrowError::InvalidTokenAccount)
            } else {
                match spec_open_account(s, self.initializer, self.mint_a) {
                    Some((a, s1)) if a == self.initializer_ata_a => Ok(s1),
                    _ => Err(EscrowError::InvalidTokenAccount),
                }
            }
        }
    }

    /// The ledger after the refund: what the vault holds moves from the
    /// custody account to the initializer's holding account for token A,
    /// and the custody account and the vault record are closed.
    pub open spec fn spec_refund_and_close_vault(self, s: LedgerView) -> Result<
        LedgerView,
        EscrowError,
    > {
        if !s.vaults.contains_key(self.vault) {
            Err(EscrowError::VaultAlreadyClosed)
        } else {
            let r = s.vaults[self.vault];
            spec_release(
                s,
                self.refund_context(),
                self.close_context(),
                signer_seeds(r.seed, r.bump),
                r.initializer_amount,
                s.decimals(self.mint_a),
            )
        }
    }

    /// Finds the accounts of the cancellation in order and opens the
    /// initializer's holding account where it is missing, or says what is
    /// out of order.
    pub fn try_accounts(&self, tx: &mut Transaction) -> (r: Result<(), EscrowError>)
        requires
            old(tx).wf(),
        ensures
            final(tx).wf(),
            match self.spec_try_accounts(old(tx)@) {
                Ok(post) => r is Ok && final(tx)@ == post,
                Err(e) => r == Err::<(), EscrowError>(e) && final(tx)@ == old(tx)@,
            },
    {
        let record = match tx.ledger().vault(&self.vault) {
            Some(v) => v,
            None => {
                return Err(EscrowError::VaultAlreadyClosed);
            },
        };
        if self.initializer != record.initializer {
            return Err(EscrowError::Unauthorized);
        }
        if self.mint_a != record.mint_a {
            return Err(EscrowError::VaultMintMismatch);
        }
        match check_authority(record.authority(&tx.ledger().program()), &self.vault) {
            Ok(()) => {},
            Err(e) => {
                return Err(e);
            },
        }
        match check_holding_account(
            associated_token_address(&self.vault, &self.mint_a),
            &self.custody,
        ) {
            Ok(()) => {},
            Err(e) => {
                return Err(e);
            },
        }
        let mut work = tx.fork();
        match work.open_account(&self.initializer, &self.mint_a) {
            Some(a) => {
                if a != self.initializer_ata_a {
                    return Err(EscrowError::InvalidTokenAccount);
                }
            },
            None => {
                return Err(EscrowError::InvalidTokenAccount);
            },
        }
        *tx = work;
        Ok(())
    }

    /// Refunds: moves what the vault holds from the custody account back to
    /// the initializer's holding account for token A, the program signing
    /// with the vault's seeds, and closes the custody account and the vault
    /// record.
    pub fn refund_and_close_vault(&self, tx: &mut Transaction) -> (r: Result<(), EscrowError>)
        requires
            old(tx).wf(),
        ensures
            final(tx).wf(),
            match self.spec_refund_and_close_vault(old(tx)@) {
                Ok(post) => r is Ok && final(tx)@ == post,
                Err(e) => r == Err::<(), EscrowError>(e) && final(tx)@ == old(tx)@,
            },
    {
        let record = match tx.ledger().vault(&self.vault) {
            Some(v) => v,
            None => {
                return Err(EscrowError::VaultAlreadyClosed);
            },
        };
        let signer_seeds = record.signer_seeds();
        let decimals = tx.ledger().decimals(&self.mint_a);
        tx.release(
            &self.into_refund_context(),
            &self.into_close_context(),
            &signer_seeds,
            record.initializer_amount,
            decimals,
        )
    }
}

} // verus!
