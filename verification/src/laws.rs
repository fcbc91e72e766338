//! What holds of the three operations, whatever the ledger and the accounts.

use crate::address::Address;
use crate::cancel::Cancel;
use crate::deposit::Deposit;
use crate::error::EscrowError;
use crate::initialize::Initialize;
use crate::ledger::{is_initializer, Ledger, LedgerView};
use crate::states::vault_address;
use crate::token::{associated_address, TokenAccount};
use crate::vault::{spec_cancel, spec_deposit, spec_initialize};
use vstd::prelude::*;

verus! {

/// `a` is the canonical holding account of `owner` for `mint`, and where an
/// account exists there, it is theirs.
pub open spec fn holds_for(s: LedgerView, a: Address, owner: Address, mint: Address) -> bool {
    &&& associated_address(owner, mint) == Some(a)
    &&& s.tokens.contains_key(a) ==> s.tokens[a].owner == owner && s.tokens[a].mint == mint
}

/// The accounts with which a vault is opened for `seed` are in order: the
/// address is the one that the seed derives and no live vault exists there;
/// neither is the initializer a vault, nor the vault's address that of a
/// party; both mints exist; the custody account is the canonical one of the
/// vault and, where it exists, is the vault's and empty; and the holding
/// account is the initializer's.
pub open spec fn initialize_accounts_in_order(s: LedgerView, ctx: Initialize, seed: u64) -> bool {
    &&& vault_address(s.program, seed) matches Some((a, _))
    &&& a == ctx.vault
    &&& !s.vaults.contains_key(ctx.vault)
    &&& !s.vaults.contains_key(ctx.initializer)
    &&& ctx.initializer != ctx.vault
    &&& !is_initializer(s, ctx.vault)
    &&& s.mints.contains_key(ctx.mint_a)
    &&& s.mints.contains_key(ctx.mint_b)
    &&& associated_address(ctx.vault, ctx.mint_a) == Some(ctx.custody)
    &&& s.tokens.contains_key(ctx.custody) ==> s.tokens[ctx.custody] == (TokenAccount {
        mint: ctx.mint_a,
        owner: ctx.vault,
        amount: 0,
    })
    &&& holds_for(s, ctx.initializer_ata_a, ctx.initializer, ctx.mint_a)
}

/// The accounts of a cancellation are those of the live vault at
/// `ctx.vault`: the mint is the record's, the custody account is the
/// vault's, and the holding account is the signer's.
pub open spec fn cancel_accounts_in_order(s: LedgerView, ctx: Cancel) -> bool {
    &&& s.vaults.contains_key(ctx.vault)
    &&& ctx.mint_a == s.vaults[ctx.vault].mint_a
    &&& associated_address(ctx.vault, ctx.mint_a) == Some(ctx.custody)
    &&& holds_for(s, ctx.initializer_ata_a, ctx.initializer, ctx.mint_a)
}

/// The accounts of a settlement are those of the live vault at `ctx.vault`
/// and of a taker that is no vault: the initializer and the mints are the
/// record's, the custody account is the vault's, each holding account is
/// the canonical one of its party and mint, and two of them share an
/// address only where they stand for the same party and mint.
pub open spec fn deposit_accounts_in_order(s: LedgerView, ctx: Deposit) -> bool {
    &&& s.vaults.contains_key(ctx.vault)
    &&& !s.vaults.contains_key(ctx.taker)
    &&& ctx.initializer == s.vaults[ctx.vault].initializer
    &&& ctx.mint_a == s.vaults[ctx.vault].mint_a
    &&& ctx.mint_b == s.vaults[ctx.vault].mint_b
    &&& associated_address(ctx.vault, ctx.mint_a) == Some(ctx.custody)
    &&& holds_for(s, ctx.taker_ata_a, ctx.taker, ctx.mint_a)
    &&& holds_for(s, ctx.taker_ata_b, ctx.taker, ctx.mint_b)
    &&& holds_for(s, ctx.initializer_ata_b, ctx.initializer, ctx.mint_b)
    &&& ctx.taker_ata_a == ctx.taker_ata_b ==> ctx.mint_a == ctx.mint_b
    &&& ctx.taker_ata_b == ctx.initializer_ata_b ==> ctx.taker == ctx.initializer
    &&& ctx.taker_ata_a == ctx.initializer_ata_b ==> ctx.taker == ctx.initializer && ctx.mint_a
        == ctx.mint_b
}

/// With positive amounts and accounts in order, a vault is opened exactly
/// when the initializer's balance of token A covers the amount to lock, and
/// the opening is refused for insufficient funds otherwise.
pub proof fn law_initialize_succeeds_iff_funded(
    ledger: Ledger,
    ctx: Initialize,
    seed: u64,
    initializer_amount: u64,
    taker_amount: u64,
)
    requires
        ledger.wf(),
        initializer_amount > 0,
        taker_amount > 0,
        initialize_accounts_in_order(ledger@, ctx, seed),
    ensures
        spec_initialize(ledger@, ctx, seed, initializer_amount, taker_amount) is Ok
            <==> ledger@.balance(ctx.initializer_ata_a) >= initializer_amount,
        spec_initialize(ledger@, ctx, seed, initializer_amount, taker_amount) matches Err(e)
            ==> e == EscrowError::InsufficientFunds,
{
    ledger.lemma_wf();
}

/// After a vault was opened, its record is live with the values that were
/// passed, and its custody account holds exactly the amount that was
/// locked.
pub proof fn law_initialize_fills_custody(
    s: LedgerView,
    ctx: Initialize,
    seed: u64,
    initializer_amount: u64,
    taker_amount: u64,
)
    requires
        spec_initialize(s, ctx, seed, initializer_amount, taker_amount) is Ok,
    ensures
        ({
            let post = spec_initialize(s, ctx, seed, initializer_amount, taker_amount)->Ok_0;
            &&& initializer_amount > 0
            &&& taker_amount > 0
            &&& post.balance(ctx.custody) == initializer_amount
            &&& post.tokens.contains_key(ctx.custody)
            &&& post.tokens[ctx.custody].owner == ctx.vault
            &&& post.tokens[ctx.custody].mint == ctx.mint_a
            &&& post.vaults.contains_key(ctx.vault)
            &&& post.vaults[ctx.vault].seed == seed
            &&& post.vaults[ctx.vault].initializer == ctx.initializer
            &&& post.vaults[ctx.vault].mint_a == ctx.mint_a
            &&& post.vaults[ctx.vault].mint_b == ctx.mint_b
            &&& post.vaults[ctx.vault].initializer_amount == initializer_amount
            &&& post.vaults[ctx.vault].taker_amount == taker_amount
            &&& post.balance(ctx.initializer_ata_a) + initializer_amount == s.balance(
                ctx.initializer_ata_a,
            )
        }),
{
}

/// After a settlement, the vault is closed: a further settlement or a
/// cancellation at the same address is refused, because no live vault
/// exists there.
pub proof fn law_settled_vault_is_closed(s: LedgerView, ctx: Deposit, again: Deposit, back: Cancel)
    requires
        spec_deposit(s, ctx) is Ok,
        again.vault == ctx.vault,
        back.vault == ctx.vault,
    ensures
        ({
            let post = spec_deposit(s, ctx)->Ok_0;
            &&& !post.vaults.contains_key(ctx.vault)
            &&& spec_deposit(post, again) == Err::<LedgerView, EscrowError>(
                EscrowError::VaultAlreadyClosed,
            )
            &&& spec_cancel(post, back) == Err::<LedgerView, EscrowError>(
                EscrowError::VaultAlreadyClosed,
            )
        }),
{
}

/// After a cancellation, the vault is closed: a settlement or a further
/// cancellation at the same address is refused, because no live vault
/// exists there.
pub proof fn law_cancelled_vault_is_closed(s: LedgerView, ctx: Cancel, again: Cancel, take: Deposit)
    requires
        spec_cancel(s, ctx) is Ok,
        again.vault == ctx.vault,
        take.vault == ctx.vault,
    ensures
        ({
            let post = spec_cancel(s, ctx)->Ok_0;
            &&& !post.vaults.contains_key(ctx.vault)
            &&& spec_cancel(post, again) == Err::<LedgerView, EscrowError>(
                EscrowError::VaultAlreadyClosed,
            )
            &&& spec_deposit(post, take) == Err::<LedgerView, EscrowError>(
                EscrowError::VaultAlreadyClosed,
            )
        }),
{
}

/// After a vault was opened for a seed, no second one can be opened for the
/// same seed, whoever asks and whatever the amounts: where the address
/// passed is the vault's, the reason is that a live vault exists there, and
/// no other address is the one that the seed derives.
pub proof fn law_seed_opens_one_vault(
    s: LedgerView,
    ctx: Initialize,
    seed: u64,
    initializer_amount: u64,
    taker_amount: u64,
    again: Initialize,
    initializer_amount_again: u64,
    taker_amount_again: u64,
)
    requires
        spec_initialize(s, ctx, seed, initializer_amount, taker_amount) is Ok,
    ensures
        ({
            let post = spec_initialize(s, ctx, seed, initializer_amount, taker_amount)->Ok_0;
            let second = spec_initialize(
                post,
                again,
                seed,
                initializer_amount_again,
                taker_amount_again,
            );
            &&& second is Err
            &&& again.vault == ctx.vault ==> second == Err::<LedgerView, EscrowError>(
                EscrowError::DuplicateVault,
            )
            &&& again.vault != ctx.vault ==> second == Err::<LedgerView, EscrowError>(
                EscrowError::AuthorityDerivationMismatch,
            )
        }),
{
}

/// A cancellation of a live vault succeeds exactly when the signer is the
/// one that opened the vault, and is refused as unauthorized otherwise.
/// Where it succeeds, the initializer's balance of token A grows by exactly
/// the amount that was locked, and the vault record and the custody account
/// exist no longer.
pub proof fn law_cancel_restores_initializer(ledger: Ledger, ctx: Cancel)
    requires
        ledger.wf(),
        cancel_accounts_in_order(ledger@, ctx),
    ensures
        spec_cancel(ledger@, ctx) is Ok <==> ctx.initializer
            == ledger@.vaults[ctx.vault].initializer,
        spec_cancel(ledger@, ctx) matches Err(e) ==> e == EscrowError::Unauthorized,
        spec_cancel(ledger@, ctx) matches Ok(post) ==> {
            &&& post.balance(ctx.initializer_ata_a) == ledger@.balance(ctx.initializer_ata_a)
                + ledger@.vaults[ctx.vault].initializer_amount
            &&& !post.vaults.contains_key(ctx.vault)
            &&& !post.tokens.contains_key(ctx.custody)
        },
{
    ledger.lemma_wf();
    let s = ledger@;
    assert(s.vault_inv(ctx.vault));
    if s.tokens.contains_key(ctx.initializer_ata_a) {
        assert(s.token_inv(ctx.initializer_ata_a));
    }
}

/// A settlement of a live vault succeeds exactly when the taker's balance
/// of token B covers what the vault asks for, and is refused for
/// insufficient payment otherwise. Where it succeeds, the vault record and
/// the custody account exist no longer.
pub proof fn law_settle_succeeds_iff_paid(ledger: Ledger, ctx: Deposit)
    requires
        ledger.wf(),
        deposit_accounts_in_order(ledger@, ctx),
    ensures
        spec_deposit(ledger@, ctx) is Ok <==> ledger@.balance(ctx.taker_ata_b)
            >= ledger@.vaults[ctx.vault].taker_amount,
        spec_deposit(ledger@, ctx) matches Err(e) ==> e == EscrowError::InsufficientPayment,
        spec_deposit(ledger@, ctx) matches Ok(post) ==> {
            &&& !post.vaults.contains_key(ctx.vault)
            &&& !post.tokens.contains_key(ctx.custody)
        },
{
    ledger.lemma_wf();
    let s = ledger@;
    assert(s.vault_inv(ctx.vault));
}

/// Where a settlement succeeds, the mints differ and the taker is not the
/// initializer, the taker's balance of token A grows by exactly the amount
/// that was locked, the initializer's balance of token B grows by exactly
/// the amount that was asked for, and the taker's balance of token B
/// shrinks by it.
pub proof fn law_settle_moves_both_legs(ledger: Ledger, ctx: Deposit)
    requires
        ledger.wf(),
        deposit_accounts_in_order(ledger@, ctx),
        ctx.mint_a != ctx.mint_b,
        ctx.taker != ctx.initializer,
        spec_deposit(ledger@, ctx) is Ok,
    ensures
        ({
            let post = spec_deposit(ledger@, ctx)->Ok_0;
            let r = ledger@.vaults[ctx.vault];
            &&& post.balance(ctx.taker_ata_a) == ledger@.balance(ctx.taker_ata_a)
                + r.initializer_amount
            &&& post.balance(ctx.initializer_ata_b) == ledger@.balance(ctx.initializer_ata_b)
                + r.taker_amount
            &&& post.balance(ctx.taker_ata_b) + r.taker_amount == ledger@.balance(ctx.taker_ata_b)
        }),
{
    ledger.lemma_wf();
    let s = ledger@;
    assert(s.vault_inv(ctx.vault));
}

/// A cancellation right after the opening undoes it: with the accounts of
/// the opening it succeeds, and every holding account that existed before
/// the opening holds what it held then. `after` is the ledger that the
/// opening left.
pub proof fn law_cancel_undoes_initialize(
    ledger: Ledger,
    after: Ledger,
    ctx: Initialize,
    seed: u64,
    initializer_amount: u64,
    taker_amount: u64,
)
    requires
        ledger.wf(),
        after.wf(),
        spec_initialize(ledger@, ctx, seed, initializer_amount, taker_amount) == Ok::<
            LedgerView,
            EscrowError,
        >(after@),
    ensures
        ({
            let back = Cancel {
                initializer: ctx.initializer,
                mint_a: ctx.mint_a,
                initializer_ata_a: ctx.initializer_ata_a,
                vault: ctx.vault,
                custody: ctx.custody,
            };
            &&& spec_cancel(after@, back) matches Ok(post)
            &&& post.mints == ledger@.mints
            &&& post.vaults == ledger@.vaults
            &&& post.tokens == ledger@.tokens.remove(ctx.custody)
            &&& post.balance(ctx.initializer_ata_a) == ledger@.balance(ctx.initializer_ata_a)
        }),
{
    ledger.lemma_wf();
    after.lemma_wf();
    let back = Cancel {
        initializer: ctx.initializer,
        mint_a: ctx.mint_a,
        initializer_ata_a: ctx.initializer_ata_a,
        vault: ctx.vault,
        custody: ctx.custody,
    };
    assert(after@.vault_inv(ctx.vault));
    assert(ledger@.token_inv(ctx.initializer_ata_a));
    assert(after@.token_inv(ctx.initializer_ata_a));
    let post = spec_cancel(after@, back)->Ok_0;
    assert(post.vaults =~= ledger@.vaults);
    assert(post.tokens =~= ledger@.tokens.remove(ctx.custody));
}

/// An operation that succeeds creates and destroys no tokens, and touches
/// no holding account and no vault but those that it was passed: opening a
/// vault leaves every mint, every other vault and every holding account but
/// the initializer's and the custody account as they were.
pub proof fn law_initialize_touches_its_accounts_alone(
    s: LedgerView,
    ctx: Initialize,
    seed: u64,
    initializer_amount: u64,
    taker_amount: u64,
)
    requires
        spec_initialize(s, ctx, seed, initializer_amount, taker_amount) is Ok,
    ensures
        ({
            let post = spec_initialize(s, ctx, seed, initializer_amount, taker_amount)->Ok_0;
            &&& post.program == s.program
            &&& post.mints == s.mints
            &&& post.vaults.remove(ctx.vault) == s.vaults
            &&& post.tokens.remove(ctx.initializer_ata_a).remove(ctx.custody) == s.tokens.remove(
                ctx.initializer_ata_a,
            ).remove(ctx.custody)
        }),
{
    let post = spec_initialize(s, ctx, seed, initializer_amount, taker_amount)->Ok_0;
    assert(post.vaults.remove(ctx.vault) =~= s.vaults);
    assert(post.tokens.remove(ctx.initializer_ata_a).remove(ctx.custody) =~= s.tokens.remove(
        ctx.initializer_ata_a,
    ).remove(ctx.custody));
}

/// A settlement leaves every mint, every other vault and every holding
/// account but the three of the parties and the custody account as they
/// were.
pub proof fn law_settle_touches_its_accounts_alone(s: LedgerView, ctx: Deposit)
    requires
        spec_deposit(s, ctx) is Ok,
    ensures
        ({
            let post = spec_deposit(s, ctx)->Ok_0;
            &&& post.program == s.program
            &&& post.mints == s.mints
            &&& post.vaults == s.vaults.remove(ctx.vault)
            &&& forall|a: Address|
                a != ctx.taker_ata_a && a != ctx.taker_ata_b && a != ctx.initializer_ata_b && a
                    != ctx.custody ==> (#[trigger] post.tokens.contains_key(a)
                    <==> s.tokens.contains_key(a)) && post.tokens[a] == s.tokens[a]
        }),
{
    let post = spec_deposit(s, ctx)->Ok_0;
    assert(post.vaults =~= s.vaults.remove(ctx.vault));
}

/// A cancellation leaves every mint, every other vault and every holding
/// account but the initializer's and the custody account as they were.
pub proof fn law_cancel_touches_its_accounts_alone(s: LedgerView, ctx: Cancel)
    requires
        spec_cancel(s, ctx) is Ok,
    ensures
        ({
            let post = spec_cancel(s, ctx)->Ok_0;
            &&& post.program == s.program
            &&& post.mints == s.mints
            &&& post.vaults == s.vaults.remove(ctx.vault)
            &&& forall|a: Address|
                a != ctx.initializer_ata_a && a != ctx.custody ==> (
                #[trigger] post.tokens.contains_key(a) <==> s.tokens.contains_key(a))
                    && post.tokens[a] == s.tokens[a]
        }),
{
    let post = spec_cancel(s, ctx)->Ok_0;
    assert(post.vaults =~= s.vaults.remove(ctx.vault));
}

} // verus!
