//! Settlement: the taker pays what the vault asks for and receives what it
//! holds.

use crate::address::Address;
use crate::error::EscrowError;
use crate::ledger::{
    spec_open_account, spec_release, spec_transfer_checked, LedgerView, Transaction,
};
use crate::states::{check_authority, signer_seeds, vault_authority};
use crate::token::{
    associated_address, associated_token_address, check_holding_account, CloseAccount,
    TransferChecked,
};
use vstd::prelude::*;

verus! {

/// The accounts of a settlement.
#[derive(Clone, Copy, Debug, PartialEq, Eq)]
pub struct Deposit {
    /// The party that pays token B and receives token A; it signs.
    pub taker: Address,
    /// The party that locked token A; it receives token B and the rent of
    /// what is closed.
    pub initializer: Address,
    /// The mint of the tokens that are locked.
    pub mint_a: Address,
    /// The mint of the tokens that are asked for.
    pub mint_b: Address,
    /// The taker's holding account for token A; opened where it is missing.
    pub taker_ata_a: Address,
    /// The taker's holding account for token B.
    pub taker_ata_b: Address,
    /// The initializer's holding account for token B; opened where it is
    /// missing.
    pub initializer_ata_b: Address,
    /// The vault record.
    pub vault: Address,
    /// The vault's custody account.
    pub custody: Address,
}

impl Deposit {
    /// The accounts of the payment: from the taker's holding account for
    /// token B to the initializer's, on the taker's word.
    pub open spec fn deposit_context(self) -> TransferChecked {
        TransferChecked {
            from: self.taker_ata_b,
            mint: self.mint_b,
            to: self.initializer_ata_b,
            authority: self.taker,
        }
    }

    /// The accounts of the release: from the custody account to the taker's
    /// holding account for token A, on the vault's word.
    pub open spec fn withdraw_context(self) -> TransferChecked {
        TransferChecked {
            from: self.custody,
            mint: self.mint_a,
            to: self.taker_ata_a,
            authority: self.vault,
        }
    }

    /// The accounts of the closure of the custody account: its rent goes to
    /// the initializer, on the vault's word.
    pub open spec fn close_context(self) -> CloseAccount {
        CloseAccount { account: self.custody, destination: self.initializer, authority: self.vault }
    }

    /// The accounts of the payment.
    pub fn into_deposit_context(&self) -> (r: TransferChecked)
        ensures
            r == self.deposit_context(),
    {
        TransferChecked {
            from: self.taker_ata_b,
            mint: self.mint_b,
            to: self.initializer_ata_b,
            authority: self.taker,
        }
    }

    /// The accounts of the release.
    pub fn into_withdraw_context(&self) -> (r: TransferChecked)
        ensures
            r == self.withdraw_context(),
    {
        TransferChecked {
            from: self.custody,
            mint: self.mint_a,
            to: self.taker_ata_a,
            authority: self.vault,
        }
    }

    /// The accounts of the closure of the custody account.
    pub fn into_close_context(&self) -> (r: CloseAccount)
        ensures
            r == self.close_context(),
    {
        CloseAccount { account: self.custody, destination: self.initializer, authority: self.vault }
    }

    /// The ledger after the accounts of a settlement were found in order,
    /// with the two holding accounts that may be missing opened; or the
    /// reason for which they are not in order. The vault must be live, the
    /// taker no vault, the initializer and both mints those of the record,
    /// the vault's address the one that its stored seeds derive, the custody
    /// account and the taker's holding account for token B the canonical
    /// ones, and the latter must hold what the vault asks for.
    pub open spec fn spec_try_accounts(self, s: LedgerView) -> Result<LedgerView, EscrowError> {
        if !s.vaults.contains_key(self.vault) {
            Err(EscrowError::VaultAlreadyClosed)
        } else {
            let r = s.vaults[self.vault];
            if s.vaults.contains_key(self.taker) || self.initializer != r.initializer {
                Err(EscrowError::Unauthorized)
            } else if self.mint_a != r.mint_a || self.mint_b != r.mint_b {
                Err(EscrowError::VaultMintMismatch)
            } else if vault_authority(s.program, r.seed, r.bump) != Some(self.vault) {
                Err(EscrowError::AuthorityDerivationMismatch)
            } else if associated_address(self.vault, self.mint_a) != Some(self.custody)
                || associated_address(self.taker, self.mint_b) != Some(self.taker_ata_b) {
                Err(EscrowError::InvalidTokenAccount)
            } else if s.balance(self.taker_ata_b) < r.taker_amount {
                Err(EscrowError::InsufficientPayment)
            } else if s.tokens[self.taker_ata_b].mint != self.mint_b {
                Err(EscrowError::InvalidMint)
            } else if s.tokens[self.taker_ata_b].owner != self.taker {
                Err(EscrowError::Unauthorized)
            } else {
                match spec_open_account(s, self.taker, self.mint_a) {
                    Some((a, s1)) if a == self.taker_ata_a => match spec_open_account(
                        s1,
                        self.initializer,
                        self.mint_b,
                    ) {
                        Some((b, s2)) if b == self.initializer_ata_b => Ok(s2),
                        _ => Err(EscrowError::InvalidTokenAccount),
                    },
                    _ => Err(EscrowError::InvalidTokenAccount),
                }
            }
        }
    }

    /// The ledger after the payment: what the vault asks for moves from the
    /// taker's holding account for token B to the initializer's.
    pub open spec fn spec_deposit(self, s: LedgerView) -> Result<LedgerView, EscrowError> {
        if !s.vaults.contains_key(self.vault) {
            Err(EscrowError::VaultAlreadyClosed)
        } else {
            spec_transfer_checked(
                s,
                self.deposit_context(),
                s.vaults[self.vault].taker_amount,
                s.decimals(self.mint_b),
            )
        }
    }

    /// The ledger after the release: what the vault holds moves from the
    /// custody account to the taker's holding account for token A, and the
    /// custody account and the vault record are closed.
    pub open spec fn spec_withdraw_and_close_vault(self, s: LedgerView) -> Result<
        LedgerView,
        EscrowError,
    > {
        if !s.vaults.contains_key(self.vault) {
            Err(EscrowError::VaultAlreadyClosed)
        } else {
            let r = s.vaults[self.vault];
            spec_release(
                s,
                self.withdraw_context(),
                self.close_context(),
                signer_seeds(r.seed, r.bump),
                r.initializer_amount,
                s.decimals(self.mint_a),
            )
        }
    }

    /// Finds the accounts of the settlement in order and opens the two
    /// holding accounts that may be missing, or says what is out of order.
    pub fn try_accounts(&self, tx: &mut Transaction) -> (r: Result<(), EscrowError>)
        requires
            old(tx).wf(),
        ensures
            final(tx).wf(),
            match self.spec_try_accounts(old(tx)@) {
                Ok(post) => r is Ok && final(tx)@ == post,
                Err(e) => r == Err::<(), EscrowError>(e) && final(tx)@ == old(tx)@,
            },
    {
        let record = match tx.ledger().vault(&self.vault) {
            Some(v) => v,
            None => {
                return Err(EscrowError::VaultAlreadyClosed);
            },
        };
        if tx.ledger().vault(&self.taker).is_some() || self.initializer != record.initializer {
            return Err(EscrowError::Unauthorized);
        }
        if self.mint_a != record.mint_a || self.mint_b != record.mint_b {
            return Err(EscrowError::VaultMintMismatch);
        }
        match check_authority(record.authority(&tx.ledger().program()), &self.vault) {
            Ok(()) => {},
            Err(e) => {
                return Err(e);
            },
        }
        match check_holding_account(
            associated_token_address(&self.vault, &self.mint_a),
            &self.custody,
        ) {
            Ok(()) => {},
            Err(e) => {
                return Err(e);
            },
        }
        match check_holding_account(
            associated_token_address(&self.taker, &self.mint_b),
            &self.taker_ata_b,
        ) {
            Ok(()) => {},
            Err(e) => {
                return Err(e);
            },
        }
        let payer = match tx.ledger().token_account(&self.taker_ata_b) {
            Some(t) => t,
            None => {
                proof {
                    tx.lemma_wf();
                    assert(tx@.vault_inv(self.vault));
                }
                return Err(EscrowError::InsufficientPayment);
            },
        };
        if payer.amount < record.taker_amount {
            return Err(EscrowError::InsufficientPayment);
        }
        if payer.mint != self.mint_b {
            return Err(EscrowError::InvalidMint);
        }
        if payer.owner != self.taker {
            return Err(EscrowError::Unauthorized);
        }
        let mut work = tx.fork();
        match work.open_account(&self.taker, &self.mint_a) {
            Some(a) => {
                if a != self.taker_ata_a {
                    return Err(EscrowError::InvalidTokenAccount);
                }
            },
            None => {
                return Err(EscrowError::InvalidTokenAccount);
            },
        }
        match work.open_account(&self.initializer, &self.mint_b) {
            Some(b) => {
                if b != self.initializer_ata_b {
                    return Err(EscrowError::InvalidTokenAccount);
                }
            },
            None => {
                return Err(EscrowError::InvalidTokenAccount);
            },
        }
        *tx = work;
        Ok(())
    }

    /// Pays: moves what the vault asks for from the taker's holding account
    /// for token B to the initializer's.
    pub fn deposit(&self, tx: &mut Transaction) -> (r: Result<(), EscrowError>)
        requires
            old(tx).wf(),
        ensures
            final(tx).wf(),
            match self.spec_deposit(old(tx)@) {
                Ok(post) => r is Ok && final(tx)@ == post,
                Err(e) => r == Err::<(), EscrowError>(e) && final(tx)@ == old(tx)@,
            },
    {
        let record = match tx.ledger().vault(&self.vault) {
            Some(v) => v,
            None => {
                return Err(EscrowError::VaultAlreadyClosed);
            },
        };
        let decimals = tx.ledger().decimals(&self.mint_b);
        tx.transfer_checked(&self.into_deposit_context(), record.taker_amount, decimals)
    }

    /// Releases: moves what the vault holds from the custody account to the
    /// taker's holding account for token A, the program signing with the
    /// vault's seeds, and closes the custody account and the vault record.
    pub fn withdraw_and_close_vault(&self, tx: &mut Transaction) -> (r: Result<(), EscrowError>)
        requires
            old(tx).wf(),
        ensures
            final(tx).wf(),
            match self.spec_withdraw_and_close_vault(old(tx)@) {
                Ok(post) => r is Ok && final(tx)@ == post,
                Err(e) => r == Err::<(), EscrowError>(e) && final(tx)@ == old(tx)@,
            },
    {
        let record = match tx.ledger().vault(&self.vault) {
            Some(v) => v,
            None => {
                return Err(EscrowError::VaultAlreadyClosed);
            },
        };
        let signer_seeds = record.signer_seeds();
        let decimals = tx.ledger().decimals(&self.mint_a);
        tx.release(
            &self.into_withdraw_context(),
            &self.into_close_context(),
            &signer_seeds,
            record.initializer_amount,
            decimals,
        )
    }
}

} // verus!
