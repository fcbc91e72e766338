use escrow_vault::address::Address;
use escrow_vault::cancel::Cancel;
use escrow_vault::deposit::Deposit;
use escrow_vault::error::EscrowError;
use escrow_vault::initialize::Initialize;
use escrow_vault::ledger::Ledger;
use escrow_vault::states::{find_vault_address, Vault};
use escrow_vault::token::{associated_token_address, CloseAccount, TransferChecked};
use escrow_vault::vault::initialize;

fn address(n: u8) -> Address {
    Address { bytes: [n; 32] }
}

fn ata(owner: &Address, mint: &Address) -> Address {
    associated_token_address(owner, mint).unwrap()
}

fn ledger(initializer_a: u64, taker_b: u64) -> Ledger {
    let mut ledger = Ledger::new(address(100));
    assert!(ledger.create_mint(address(10), 6));
    assert!(ledger.create_mint(address(11), 9));
    let a = ledger.open_account(&address(1), &address(10)).unwrap();
    let b = ledger.open_account(&address(2), &address(11)).unwrap();
    assert!(ledger.mint_to(&a, initializer_a));
    assert!(ledger.mint_to(&b, taker_b));
    ledger
}

fn opening(ledger: &Ledger, seed: u64) -> Initialize {
    let vault = find_vault_address(&ledger.program(), seed).unwrap().0;
    Initialize {
        initializer: address(1),
        mint_a: address(10),
        mint_b: address(11),
        initializer_ata_a: ata(&address(1), &address(10)),
        vault,
        custody: ata(&vault, &address(10)),
    }
}

fn settlement(ledger: &Ledger, seed: u64) -> Deposit {
    let vault = find_vault_address(&ledger.program(), seed).unwrap().0;
    Deposit {
        taker: address(2),
        initializer: address(1),
        mint_a: address(10),
        mint_b: address(11),
        taker_ata_a: ata(&address(2), &address(10)),
        taker_ata_b: ata(&address(2), &address(11)),
        initializer_ata_b: ata(&address(1), &address(11)),
        vault,
        custody: ata(&vault, &address(10)),
    }
}

fn cancellation(ledger: &Ledger, seed: u64) -> Cancel {
    let vault = find_vault_address(&ledger.program(), seed).unwrap().0;
    Cancel {
        initializer: address(1),
        mint_a: address(10),
        initializer_ata_a: ata(&address(1), &address(10)),
        vault,
        custody: ata(&vault, &address(10)),
    }
}

fn opened(initializer_a: u64, taker_b: u64, amount: u64, ask: u64) -> Ledger {
    let mut l = ledger(initializer_a, taker_b);
    let ctx = opening(&l, 1);
    assert_eq!(initialize(&mut l, &ctx, 1, amount, ask), Ok(()));
    l
}

#[test]
fn deposit_contexts_name_the_accounts_of_each_leg() {
    let ctx = Deposit {
        taker: address(2),
        initializer: address(1),
        mint_a: address(10),
        mint_b: address(11),
        taker_ata_a: address(21),
        taker_ata_b: address(22),
        initializer_ata_b: address(23),
        vault: address(30),
        custody: address(31),
    };
    assert_eq!(
        ctx.into_deposit_context(),
        TransferChecked {
            from: address(22),
            mint: address(11),
            to: address(23),
            authority: address(2)
        }
    );
    assert_eq!(
        ctx.into_withdraw_context(),
        TransferChecked {
            from: address(31),
            mint: address(10),
            to: address(21),
            authority: address(30)
        }
    );
    assert_eq!(
        ctx.into_close_context(),
        CloseAccount { account: address(31), destination: address(1), authority: address(30) }
    );
}

#[test]
fn initialize_and_cancel_contexts_name_their_accounts() {
    let open = Initialize {
        initializer: address(1),
        mint_a: address(10),
        mint_b: address(11),
        initializer_ata_a: address(20),
        vault: address(30),
        custody: address(31),
    };
    assert_eq!(
        open.into_deposit_context(),
        TransferChecked {
            from: address(20),
            mint: address(10),
            to: address(31),
            authority: address(1)
        }
    );
    let back = Cancel {
        initializer: address(1),
        mint_a: address(10),
        initializer_ata_a: address(20),
        vault: address(30),
        custody: address(31),
    };
    assert_eq!(
        back.into_refund_context(),
        TransferChecked {
            from: address(31),
            mint: address(10),
            to: address(20),
            authority: address(30)
        }
    );
    assert_eq!(
        back.into_close_context(),
        CloseAccount { account: address(31), destination: address(1), authority: address(30) }
    );
}

#[test]
fn initialize_vault_builds_the_record() {
    let l = ledger(1000, 500);
    let ctx = opening(&l, 4);
    assert_eq!(
        ctx.initialize_vault(4, 250, 1000, 500),
        Vault {
            seed: 4,
            bump: 250,
            mint_a: address(10),
            mint_b: address(11),
            initializer: address(1),
            initializer_amount: 1000,
            taker_amount: 500,
        }
    );
}

#[test]
fn bump_is_that_of_the_derived_address() {
    let l = ledger(1000, 500);
    let ctx = opening(&l, 4);
    let (_, bump) = find_vault_address(&l.program(), 4).unwrap();
    assert_eq!(ctx.bump(&l.program(), 4), Ok(bump));
    assert_eq!(ctx.bump(&l.program(), 5), Err(EscrowError::AuthorityDerivationMismatch));
    assert_eq!(ctx.bump(&address(101), 4), Err(EscrowError::AuthorityDerivationMismatch));
}

#[test]
fn locking_step_runs_on_the_transaction_alone() {
    let l = ledger(1000, 500);
    let ctx = opening(&l, 1);
    let bump = ctx.bump(&l.program(), 1).unwrap();
    let record = ctx.initialize_vault(1, bump, 1000, 500);
    let mut tx = l.begin();
    assert_eq!(ctx.deposit(&mut tx, &record, 999), Err(EscrowError::InvalidAmount));
    assert_eq!(tx.ledger().vault(&ctx.vault), None);
    assert_eq!(ctx.deposit(&mut tx, &record, 1000), Ok(()));
    assert_eq!(tx.ledger().vault(&ctx.vault), Some(record));
    assert_eq!(tx.ledger().balance(&ctx.custody), Some(1000));
    assert_eq!(tx.ledger().balance(&ctx.initializer_ata_a), Some(0));
    assert_eq!(ctx.deposit(&mut tx, &record, 1000), Err(EscrowError::DuplicateVault));
    assert_eq!(l.vault(&ctx.vault), None);
    assert_eq!(l.balance(&ctx.custody), None);
    assert_eq!(l.balance(&ctx.initializer_ata_a), Some(1000));
}

#[test]
fn locking_step_refuses_a_record_with_another_bump() {
    let l = ledger(1000, 500);
    let ctx = opening(&l, 1);
    let bump = ctx.bump(&l.program(), 1).unwrap();
    let record = ctx.initialize_vault(1, bump.wrapping_sub(1), 1000, 500);
    let mut tx = l.begin();
    assert_eq!(
        ctx.deposit(&mut tx, &record, 1000),
        Err(EscrowError::AuthorityDerivationMismatch)
    );
    let record = Vault { initializer: address(3), ..ctx.initialize_vault(1, bump, 1000, 500) };
    assert_eq!(ctx.deposit(&mut tx, &record, 1000), Err(EscrowError::Unauthorized));
    let record = Vault { mint_a: address(11), ..ctx.initialize_vault(1, bump, 1000, 500) };
    assert_eq!(ctx.deposit(&mut tx, &record, 1000), Err(EscrowError::InvalidMint));
    assert_eq!(tx.ledger().vault(&ctx.vault), None);
}

#[test]
fn settlement_steps_run_on_the_transaction_alone() {
    let l = opened(1000, 700, 1000, 500);
    let ctx = settlement(&l, 1);
    let mut tx = l.begin();
    assert_eq!(ctx.try_accounts(&mut tx), Ok(()));
    assert_eq!(tx.ledger().balance(&ctx.taker_ata_a), Some(0));
    assert_eq!(tx.ledger().balance(&ctx.initializer_ata_b), Some(0));
    assert_eq!(tx.ledger().balance(&ctx.taker_ata_b), Some(700));
    assert_eq!(ctx.deposit(&mut tx), Ok(()));
    assert_eq!(tx.ledger().balance(&ctx.taker_ata_b), Some(200));
    assert_eq!(tx.ledger().balance(&ctx.initializer_ata_b), Some(500));
    assert_eq!(tx.ledger().balance(&ctx.custody), Some(1000));
    assert!(tx.ledger().vault(&ctx.vault).is_some());
    assert_eq!(ctx.withdraw_and_close_vault(&mut tx), Ok(()));
    assert_eq!(tx.ledger().balance(&ctx.taker_ata_a), Some(1000));
    assert_eq!(tx.ledger().balance(&ctx.custody), None);
    assert_eq!(tx.ledger().vault(&ctx.vault), None);
    assert_eq!(ctx.withdraw_and_close_vault(&mut tx), Err(EscrowError::VaultAlreadyClosed));
    assert_eq!(ctx.deposit(&mut tx), Err(EscrowError::VaultAlreadyClosed));
    assert_eq!(ctx.try_accounts(&mut tx), Err(EscrowError::VaultAlreadyClosed));

    assert_eq!(l.balance(&ctx.taker_ata_a), None);
    assert_eq!(l.balance(&ctx.initializer_ata_b), None);
    assert_eq!(l.balance(&ctx.taker_ata_b), Some(700));
    assert_eq!(l.balance(&ctx.custody), Some(1000));
    assert!(l.vault(&ctx.vault).is_some());
}

#[test]
fn payment_step_needs_the_accounts_to_exist() {
    let l = opened(1000, 700, 1000, 500);
    let ctx = settlement(&l, 1);
    let mut tx = l.begin();
    assert_eq!(ctx.deposit(&mut tx), Err(EscrowError::InvalidTokenAccount));
    assert_eq!(ctx.withdraw_and_close_vault(&mut tx), Err(EscrowError::InvalidTokenAccount));
    assert_eq!(tx.ledger().balance(&ctx.taker_ata_b), Some(700));
    assert_eq!(tx.ledger().balance(&ctx.custody), Some(1000));
}

#[test]
fn payment_step_refuses_what_the_taker_lacks() {
    let l = opened(1000, 400, 1000, 500);
    let ctx = settlement(&l, 1);
    let mut tx = l.begin();
    assert_eq!(ctx.try_accounts(&mut tx), Err(EscrowError::InsufficientPayment));
    assert_eq!(tx.ledger().balance(&ctx.taker_ata_a), None);
    assert_eq!(tx.ledger().balance(&ctx.initializer_ata_b), None);
}

#[test]
fn try_accounts_opens_nothing_where_an_account_is_out_of_order() {
    let l = opened(1000, 700, 1000, 500);
    let ctx = Deposit { initializer_ata_b: address(90), ..settlement(&l, 1) };
    let mut tx = l.begin();
    assert_eq!(ctx.try_accounts(&mut tx), Err(EscrowError::InvalidTokenAccount));
    assert_eq!(tx.ledger().balance(&ctx.taker_ata_a), None);
    assert_eq!(tx.ledger().balance(&address(90)), None);
}

#[test]
fn release_step_sends_the_rent_to_the_initializer_alone() {
    let l = opened(1000, 700, 1000, 500);
    let good = settlement(&l, 1);
    let mut tx = l.begin();
    assert_eq!(good.try_accounts(&mut tx), Ok(()));
    let ctx = Deposit { initializer: address(3), ..good };
    assert_eq!(ctx.withdraw_and_close_vault(&mut tx), Err(EscrowError::Unauthorized));
    let ctx = Deposit { custody: good.taker_ata_a, ..good };
    assert_eq!(ctx.withdraw_and_close_vault(&mut tx), Err(EscrowError::InvalidTokenAccount));
    let ctx = Deposit { taker_ata_a: good.custody, ..good };
    assert_eq!(ctx.withdraw_and_close_vault(&mut tx), Err(EscrowError::InvalidTokenAccount));
    let ctx = Deposit { mint_a: address(11), ..good };
    assert_eq!(ctx.withdraw_and_close_vault(&mut tx), Err(EscrowError::InvalidMint));
    let ctx = Deposit { taker_ata_a: good.taker_ata_b, ..good };
    assert_eq!(ctx.withdraw_and_close_vault(&mut tx), Err(EscrowError::InvalidMint));
    assert_eq!(tx.ledger().balance(&good.custody), Some(1000));
    assert!(tx.ledger().vault(&good.vault).is_some());
}

#[test]
fn cancellation_steps_run_on_the_transaction_alone() {
    let l = opened(1000, 700, 600, 500);
    let ctx = cancellation(&l, 1);
    let mut tx = l.begin();
    assert_eq!(ctx.try_accounts(&mut tx), Ok(()));
    assert_eq!(ctx.refund_and_close_vault(&mut tx), Ok(()));
    assert_eq!(tx.ledger().balance(&ctx.initializer_ata_a), Some(1000));
    assert_eq!(tx.ledger().balance(&ctx.custody), None);
    assert_eq!(tx.ledger().vault(&ctx.vault), None);
    assert_eq!(ctx.refund_and_close_vault(&mut tx), Err(EscrowError::VaultAlreadyClosed));
    assert_eq!(l.balance(&ctx.initializer_ata_a), Some(400));
    assert_eq!(l.balance(&ctx.custody), Some(600));
    assert!(l.vault(&ctx.vault).is_some());
}

#[test]
fn cancellation_checks_the_signer_before_anything_moves() {
    let l = opened(1000, 700, 600, 500);
    let ctx = Cancel { initializer: address(2), ..cancellation(&l, 1) };
    let mut tx = l.begin();
    assert_eq!(ctx.try_accounts(&mut tx), Err(EscrowError::Unauthorized));
    assert_eq!(ctx.refund_and_close_vault(&mut tx), Err(EscrowError::Unauthorized));
    assert_eq!(tx.ledger().balance(&ctx.custody), Some(600));
}
