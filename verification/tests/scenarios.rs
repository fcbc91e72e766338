use escrow_vault::address::Address;
use escrow_vault::cancel::Cancel;
use escrow_vault::deposit::Deposit;
use escrow_vault::error::EscrowError;
use escrow_vault::initialize::Initialize;
use escrow_vault::ledger::Ledger;
use escrow_vault::states::find_vault_address;
use escrow_vault::token::associated_token_address;
use escrow_vault::vault::{cancel, deposit, initialize};

const PROGRAM: [u8; 32] = [
    138, 5, 238, 127, 115, 39, 103, 80, 249, 77, 170, 222, 125, 58, 22, 1, 190, 136, 1, 215, 121,
    31, 194, 17, 70, 147, 204, 171, 252, 112, 85, 199,
];

fn address(n: u8) -> Address {
    Address { bytes: [n; 32] }
}

struct World {
    ledger: Ledger,
    initializer: Address,
    taker: Address,
    mint_a: Address,
    mint_b: Address,
    initializer_ata_a: Address,
    taker_ata_b: Address,
}

fn world(initializer_a: u64, taker_b: u64) -> World {
    let mut ledger = Ledger::new(Address { bytes: PROGRAM });
    let initializer = address(1);
    let taker = address(2);
    let mint_a = address(10);
    let mint_b = address(11);
    assert!(ledger.create_mint(mint_a, 6));
    assert!(ledger.create_mint(mint_b, 9));
    let initializer_ata_a = ledger.open_account(&initializer, &mint_a).unwrap();
    let taker_ata_b = ledger.open_account(&taker, &mint_b).unwrap();
    assert!(ledger.mint_to(&initializer_ata_a, initializer_a));
    assert!(ledger.mint_to(&taker_ata_b, taker_b));
    World { ledger, initializer, taker, mint_a, mint_b, initializer_ata_a, taker_ata_b }
}

fn opening(w: &World, seed: u64) -> Initialize {
    let (vault, _) = find_vault_address(&w.ledger.program(), seed).unwrap();
    Initialize {
        initializer: w.initializer,
        mint_a: w.mint_a,
        mint_b: w.mint_b,
        initializer_ata_a: w.initializer_ata_a,
        vault,
        custody: associated_token_address(&vault, &w.mint_a).unwrap(),
    }
}

fn settlement(w: &World, seed: u64) -> Deposit {
    let (vault, _) = find_vault_address(&w.ledger.program(), seed).unwrap();
    Deposit {
        taker: w.taker,
        initializer: w.initializer,
        mint_a: w.mint_a,
        mint_b: w.mint_b,
        taker_ata_a: associated_token_address(&w.taker, &w.mint_a).unwrap(),
        taker_ata_b: w.taker_ata_b,
        initializer_ata_b: associated_token_address(&w.initializer, &w.mint_b).unwrap(),
        vault,
        custody: associated_token_address(&vault, &w.mint_a).unwrap(),
    }
}

fn cancellation(w: &World, seed: u64) -> Cancel {
    let (vault, _) = find_vault_address(&w.ledger.program(), seed).unwrap();
    Cancel {
        initializer: w.initializer,
        mint_a: w.mint_a,
        initializer_ata_a: w.initializer_ata_a,
        vault,
        custody: associated_token_address(&vault, &w.mint_a).unwrap(),
    }
}

#[test]
fn initialize_fills_custody_with_the_locked_amount() {
    let mut w = world(1000, 500);
    let ctx = opening(&w, 1);
    assert_eq!(initialize(&mut w.ledger, &ctx, 1, 1000, 500), Ok(()));
    assert_eq!(w.ledger.balance(&ctx.custody), Some(1000));
    assert_eq!(w.ledger.balance(&w.initializer_ata_a), Some(0));
    let record = w.ledger.vault(&ctx.vault).unwrap();
    assert_eq!(record.seed, 1);
    assert_eq!(record.initializer, w.initializer);
    assert_eq!(record.mint_a, w.mint_a);
    assert_eq!(record.mint_b, w.mint_b);
    assert_eq!(record.initializer_amount, 1000);
    assert_eq!(record.taker_amount, 500);
}

#[test]
fn settle_swaps_both_legs_and_closes_the_vault() {
    let mut w = world(1000, 500);
    let open = opening(&w, 1);
    assert_eq!(initialize(&mut w.ledger, &open, 1, 1000, 500), Ok(()));
    let ctx = settlement(&w, 1);
    assert_eq!(deposit(&mut w.ledger, &ctx), Ok(()));
    assert_eq!(w.ledger.balance(&ctx.taker_ata_a), Some(1000));
    assert_eq!(w.ledger.balance(&ctx.taker_ata_b), Some(0));
    assert_eq!(w.ledger.balance(&ctx.initializer_ata_b), Some(500));
    assert_eq!(w.ledger.balance(&w.initializer_ata_a), Some(0));
    assert_eq!(w.ledger.balance(&ctx.custody), None);
    assert_eq!(w.ledger.vault(&ctx.vault), None);
}

#[test]
fn cancel_returns_the_locked_amount_and_moves_no_token_b() {
    let mut w = world(1000, 500);
    let open = opening(&w, 1);
    assert_eq!(initialize(&mut w.ledger, &open, 1, 1000, 500), Ok(()));
    let ctx = cancellation(&w, 1);
    assert_eq!(cancel(&mut w.ledger, &ctx), Ok(()));
    assert_eq!(w.ledger.balance(&w.initializer_ata_a), Some(1000));
    assert_eq!(w.ledger.balance(&w.taker_ata_b), Some(500));
    assert_eq!(w.ledger.balance(&ctx.custody), None);
    assert_eq!(w.ledger.vault(&ctx.vault), None);
}

#[test]
fn settle_with_too_little_token_b_is_refused_and_changes_nothing() {
    let mut w = world(1000, 400);
    let open = opening(&w, 1);
    assert_eq!(initialize(&mut w.ledger, &open, 1, 1000, 500), Ok(()));
    let ctx = settlement(&w, 1);
    assert_eq!(deposit(&mut w.ledger, &ctx), Err(EscrowError::InsufficientPayment));
    assert_eq!(w.ledger.balance(&ctx.taker_ata_b), Some(400));
    assert_eq!(w.ledger.balance(&ctx.taker_ata_a), None);
    assert_eq!(w.ledger.balance(&ctx.initializer_ata_b), None);
    assert_eq!(w.ledger.balance(&ctx.custody), Some(1000));
    assert!(w.ledger.vault(&ctx.vault).is_some());
}
