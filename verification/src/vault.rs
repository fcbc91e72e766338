//! The three operations of the escrow. Each runs as one transaction: it
//! takes effect as a whole or not at all.

use crate::cancel::Cancel;
use crate::deposit::Deposit;
use crate::error::EscrowError;
use crate::initialize::Initialize;
use crate::ledger::{Ledger, LedgerView};
use vstd::prelude::*;

verus! {

/// The ledger after a vault was opened, or the reason for which it is not.
/// The vault's address must be the one derived from the seed; no live vault
/// may exist there; both amounts must be positive; and the initializer's
/// holding account must be of mint A, be its own and cover the amount.
pub open spec fn spec_initialize(
    s: LedgerView,
    ctx: Initialize,
    seed: u64,
    initializer_amount: u64,
    taker_amount: u64,
) -> Result<LedgerView, EscrowError> {
    match ctx.spec_bump(s.program, seed) {
        Err(e) => Err(e),
        Ok(bump) => ctx.spec_deposit(
            s,
            ctx.record(seed, bump, initializer_amount, taker_amount),
            initializer_amount,
        ),
    }
}

/// The ledger after a cancellation, or the reason for which it is refused.
pub open spec fn spec_cancel(s: LedgerView, ctx: Cancel) -> Result<LedgerView, EscrowError> {
    match ctx.spec_try_accounts(s) {
        Err(e) => Err(e),
        Ok(s1) => ctx.spec_refund_and_close_vault(s1),
    }
}

/// The ledger after a settlement, or the reason for which it is refused:
/// the accounts are found in order, the taker pays, the vault releases.
pub open spec fn spec_deposit(s: LedgerView, ctx: Deposit) -> Result<LedgerView, EscrowError> {
    match ctx.spec_try_accounts(s) {
        Err(e) => Err(e),
        Ok(s1) => match ctx.spec_deposit(s1) {
            Err(e) => Err(e),
            Ok(s2) => ctx.spec_withdraw_and_close_vault(s2),
        },
    }
}

/// Opens a vault: records the seed, the mints, the initializer and both
/// amounts at the address derived from the seed, and moves
/// `initializer_amount` tokens of mint A from the initializer's holding
/// account into the vault's custody account. Where it is refused, nothing
/// changes.
pub fn initialize(
    ledger: &mut Ledger,
    ctx: &Initialize,
    seed: u64,
    initializer_amount: u64,
    taker_amount: u64,
) -> (r: Result<(), EscrowError>)
    requires
        old(ledger).wf(),
    ensures
        final(ledger).wf(),
        match spec_initialize(old(ledger)@, *ctx, seed, initializer_amount, taker_amount) {
            Ok(post) => r is Ok && final(ledger)@ == post,
            Err(e) => r == Err::<(), EscrowError>(e) && final(ledger)@ == old(ledger)@,
        },
{
    let bump = match ctx.bump(&ledger.program(), seed) {
        Ok(bump) => bump,
        Err(e) => {
            return Err(e);
        },
    };
    let record = ctx.initialize_vault(seed, bump, initializer_amount, taker_amount);
    let mut tx = ledger.begin();
    match ctx.deposit(&mut tx, &record, initializer_amount) {
        Ok(()) => {},
        Err(e) => {
            return Err(e);
        },
    }
    ledger.commit(tx);
    Ok(())
}

/// Cancels a vault: moves what it holds back to the initializer and closes
/// the custody account and the vault record. Where it is refused, nothing
/// changes.
pub fn cancel(ledger: &mut Ledger, ctx: &Cancel) -> (r: Result<(), EscrowError>)
    requires
        old(ledger).wf(),
    ensures
        final(ledger).wf(),
        match spec_cancel(old(ledger)@, *ctx) {
            Ok(post) => r is Ok && final(ledger)@ == post,
            Err(e) => r == Err::<(), EscrowError>(e) && final(ledger)@ == old(ledger)@,
        },
{
    let mut tx = ledger.begin();
    match ctx.try_accounts(&mut tx) {
        Ok(()) => {},
        Err(e) => {
            return Err(e);
        },
    }
    match ctx.refund_and_close_vault(&mut tx) {
        Ok(()) => {},
        Err(e) => {
            return Err(e);
        },
    }
    ledger.commit(tx);
    Ok(())
}

/// Settles a vault: the taker pays what the vault asks for to the
/// initializer, receives what the vault holds, and the custody account and
/// the vault record are closed. Where it is refused, nothing changes.
pub fn deposit(ledger: &mut Ledger, ctx: &Deposit) -> (r: Result<(), EscrowError>)
    requires
        old(ledger).wf(),
    ensures
        final(ledger).wf(),
        match spec_deposit(old(ledger)@, *ctx) {
            Ok(post) => r is Ok && final(ledger)@ == post,
            Err(e) => r == Err::<(), EscrowError>(e) && final(ledger)@ == old(ledger)@,
        },
{
    let mut tx = ledger.begin();
    match ctx.try_accounts(&mut tx) {
        Ok(()) => {},
        Err(e) => {
            return Err(e);
        },
    }
    match ctx.deposit(&mut tx) {
        Ok(()) => {},
        Err(e) => {
            return Err(e);
        },
    }
    match ctx.withdraw_and_close_vault(&mut tx) {
        Ok(()) => {},
        Err(e) => {
            return Err(e);
        },
    }
    ledger.commit(tx);
    Ok(())
}

} // verus!
