use anchor_lang::prelude::Pubkey;
use escrow_vault::address::{derive_address, find_address, Address};
use escrow_vault::error::EscrowError;
use escrow_vault::states::{
    check_authority, check_vault_address, find_vault_address, vault_address_seeds, Vault,
};
use escrow_vault::token::{
    associated_token_address, associated_token_program, check_holding_account, token_program,
};

const PROGRAM_BYTES: [u8; 32] = [
    138, 5, 238, 127, 115, 39, 103, 80, 249, 77, 170, 222, 125, 58, 22, 1, 190, 136, 1, 215, 121,
    31, 194, 17, 70, 147, 204, 171, 252, 112, 85, 199,
];

fn program() -> Address {
    Address { bytes: PROGRAM_BYTES }
}

fn key(a: &Address) -> Pubkey {
    Pubkey::new_from_array(a.bytes)
}

fn record(seed: u64, bump: u8) -> Vault {
    Vault {
        seed,
        bump,
        mint_a: Address { bytes: [10; 32] },
        mint_b: Address { bytes: [11; 32] },
        initializer: Address { bytes: [1; 32] },
        initializer_amount: 1000,
        taker_amount: 500,
    }
}

#[test]
fn address_equality_is_by_bytes() {
    let mut bytes = [7u8; 32];
    let a = Address { bytes };
    assert_eq!(a, Address { bytes: [7; 32] });
    bytes[31] = 8;
    assert_ne!(a, Address { bytes });
    bytes[31] = 7;
    bytes[0] = 6;
    assert_ne!(a, Address { bytes });
    assert_eq!(a.to_vec(), vec![7u8; 32]);
}

#[test]
fn program_ids_are_those_of_the_token_programs() {
    assert_eq!(key(&token_program()), anchor_spl::token::ID);
    assert_eq!(key(&associated_token_program()), anchor_spl::associated_token::ID);
    assert_eq!(
        key(&token_program()).to_string(),
        "TokenkegQfeZyiNwAJbNbGKPFXCWuBvf9Ss623VQ5DA"
    );
    assert_eq!(
        key(&associated_token_program()).to_string(),
        "ATokenGPvbdGVxr1b2hvZbsiqW5xWH25efTNsLJA8knL"
    );
}

#[test]
fn vault_seeds_are_the_tag_and_the_seed_in_little_endian() {
    assert_eq!(
        vault_address_seeds(1),
        vec![b"state".to_vec(), vec![1u8, 0, 0, 0, 0, 0, 0, 0]]
    );
    assert_eq!(
        vault_address_seeds(0x0102030405060708),
        vec![b"state".to_vec(), vec![8u8, 7, 6, 5, 4, 3, 2, 1]]
    );
    assert_eq!(
        record(258, 254).signer_seeds(),
        vec![b"state".to_vec(), vec![2u8, 1, 0, 0, 0, 0, 0, 0], vec![254u8]]
    );
}

#[test]
fn vault_address_is_the_program_derived_address_of_the_seed() {
    for seed in [0u64, 1, 2, 77, u64::MAX] {
        let (address, bump) = find_vault_address(&program(), seed).unwrap();
        let (expected, expected_bump) =
            Pubkey::find_program_address(&[b"state", &seed.to_le_bytes()], &key(&program()));
        assert_eq!(key(&address), expected);
        assert_eq!(bump, expected_bump);
        assert!(!expected.is_on_curve());
    }
    let (one, _) = find_vault_address(&program(), 1).unwrap();
    let (two, _) = find_vault_address(&program(), 2).unwrap();
    assert_ne!(one, two);
    assert_ne!(one, program());
}

#[test]
fn vault_authority_is_rederived_from_the_stored_bump() {
    let (address, bump) = find_vault_address(&program(), 9).unwrap();
    assert_eq!(record(9, bump).authority(&program()), Some(address));
    let expected = Pubkey::create_program_address(
        &[b"state", &9u64.to_le_bytes(), &[bump]],
        &key(&program()),
    )
    .unwrap();
    assert_eq!(key(&address), expected);
    assert_ne!(record(10, bump).authority(&program()), Some(address));
    let other = record(9, bump.wrapping_sub(1)).authority(&program());
    assert_ne!(other, Some(address));
}

#[test]
fn derive_address_agrees_with_the_key_type() {
    let seeds = vec![b"abc".to_vec(), vec![1u8, 2, 3]];
    let mut found = 0;
    for bump in 0..=255u8 {
        let mut with_bump = seeds.clone();
        with_bump.push(vec![bump]);
        let expected =
            Pubkey::create_program_address(&[b"abc", &[1, 2, 3], &[bump]], &key(&program())).ok();
        let derived = derive_address(&with_bump, &program());
        assert_eq!(derived.map(|a| a.bytes), expected.map(|k| k.to_bytes()));
        if derived.is_some() {
            found += 1;
            assert_ne!(derived, Some(program()));
        }
    }
    assert!(found > 0);
}

#[test]
fn derive_address_refuses_a_seed_that_is_too_long() {
    assert_eq!(derive_address(&vec![vec![0u8; 33]], &program()), None);
    assert_eq!(find_address(&vec![vec![0u8; 33]], &program()), None);
    assert_eq!(derive_address(&vec![vec![0u8; 1]; 17], &program()), None);
    assert_eq!(find_address(&vec![vec![0u8; 1]; 16], &program()), None);
}

#[test]
fn find_address_gives_the_bump_that_derives_the_address() {
    let seeds = vec![b"vault".to_vec(), vec![9u8; 32]];
    let (address, bump) = find_address(&seeds, &program()).unwrap();
    let mut with_bump = seeds.clone();
    with_bump.push(vec![bump]);
    assert_eq!(derive_address(&with_bump, &program()), Some(address));
    let (expected, expected_bump) =
        Pubkey::find_program_address(&[b"vault", &[9u8; 32]], &key(&program()));
    assert_eq!(key(&address), expected);
    assert_eq!(bump, expected_bump);
    let other = find_address(&seeds, &Address { bytes: [3; 32] }).unwrap();
    assert_ne!(other.0, address);
}

#[test]
fn associated_address_is_the_one_of_the_token_library() {
    for (owner, mint) in [(1u8, 10u8), (2, 10), (1, 11), (200, 201)] {
        let owner = Address { bytes: [owner; 32] };
        let mint = Address { bytes: [mint; 32] };
        let expected =
            anchor_spl::associated_token::get_associated_token_address(&key(&owner), &key(&mint));
        let address = associated_token_address(&owner, &mint).unwrap();
        assert_eq!(key(&address), expected);
        assert_ne!(address, owner);
        assert_ne!(address, mint);
    }
    let a = associated_token_address(&Address { bytes: [1; 32] }, &Address { bytes: [10; 32] });
    let b = associated_token_address(&Address { bytes: [10; 32] }, &Address { bytes: [1; 32] });
    assert_ne!(a, b);
}

#[test]
fn check_authority_compares_with_what_was_derived() {
    let a = Address { bytes: [1; 32] };
    let b = Address { bytes: [2; 32] };
    assert_eq!(check_authority(Some(a), &a), Ok(()));
    assert_eq!(check_authority(Some(b), &a), Err(EscrowError::AuthorityDerivationMismatch));
    assert_eq!(check_authority(None, &a), Err(EscrowError::AuthorityDerivationMismatch));
}

#[test]
fn check_vault_address_gives_the_bump_of_the_address_found() {
    let a = Address { bytes: [1; 32] };
    let b = Address { bytes: [2; 32] };
    assert_eq!(check_vault_address(Some((a, 254)), &a), Ok(254));
    assert_eq!(
        check_vault_address(Some((b, 254)), &a),
        Err(EscrowError::AuthorityDerivationMismatch)
    );
    assert_eq!(check_vault_address(None, &a), Err(EscrowError::AuthorityDerivationMismatch));
}

#[test]
fn check_holding_account_compares_with_what_was_derived() {
    let a = Address { bytes: [1; 32] };
    let b = Address { bytes: [2; 32] };
    assert_eq!(check_holding_account(Some(a), &a), Ok(()));
    assert_eq!(check_holding_account(Some(b), &a), Err(EscrowError::InvalidTokenAccount));
    assert_eq!(check_holding_account(None, &a), Err(EscrowError::InvalidTokenAccount));
}
