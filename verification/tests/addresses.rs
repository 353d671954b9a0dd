use std::str::FromStr;

use anchor_spl::associated_token::get_associated_token_address_with_program_id;
use eqm_miner::address::{
    config_address, derive_ata, resolve_program_id, short_key_text, short_pk, try_derive_ata,
    vault_address, AddressError, ASSOCIATED_TOKEN_ID, CONFIG_SEED, EQUIUM_PROGRAM_ID, VAULT_SEED,
};
use solana_sdk::pubkey::Pubkey;

const TOKEN: &str = "TokenkegQfeZyiNwAJbNbGKPFXCWuBvf9Ss623VQ5DA";

fn key(text: &str) -> [u8; 32] {
    Pubkey::from_str(text).unwrap().to_bytes()
}

#[test]
fn seeds_are_their_names() {
    assert_eq!(&CONFIG_SEED, b"equium-config");
    assert_eq!(&VAULT_SEED, b"equium-vault");
    assert_eq!(ASSOCIATED_TOKEN_ID, key("ATokenGPvbdGVxr1b2hvZbsiqW5xWH25efTNsLJA8knL"));
}

#[test]
fn main_network_program_is_the_default() {
    assert_eq!(resolve_program_id(None), Ok(key(EQUIUM_PROGRAM_ID)));
    assert_eq!(
        resolve_program_id(None),
        resolve_program_id(Some("ZKGMUfxiRCXFPnqz9zgqAnuqJy15jk7fKbR4o6FuEQM"))
    );
}

#[test]
fn another_program_can_be_asked_for() {
    assert_eq!(resolve_program_id(Some(TOKEN)), Ok(key(TOKEN)));
    assert_eq!(resolve_program_id(Some("11111111111111111111111111111111")), Ok([0; 32]));
}

#[test]
fn texts_that_are_no_address_are_refused() {
    assert_eq!(resolve_program_id(Some("abc")), Err(AddressError::WrongSize));
    assert_eq!(resolve_program_id(Some("")), Err(AddressError::WrongSize));
    let long = "1".repeat(45);
    assert_eq!(resolve_program_id(Some(&long)), Err(AddressError::WrongSize));
    assert_eq!(resolve_program_id(Some("not an address")), Err(AddressError::Invalid));
    assert_eq!(resolve_program_id(Some("0OIl")), Err(AddressError::Invalid));
}

#[test]
fn accounts_are_derived_from_the_program() {
    let program = key(EQUIUM_PROGRAM_ID);
    let id = Pubkey::new_from_array(program);
    let config = Pubkey::find_program_address(&[b"equium-config"], &id).0;
    let vault = Pubkey::find_program_address(&[b"equium-vault"], &id).0;
    assert_eq!(config_address(&program), Some(config.to_bytes()));
    assert_eq!(vault_address(&program), Some(vault.to_bytes()));
    assert_ne!(config_address(&program), vault_address(&program));
    assert_ne!(config_address(&program), config_address(&key(TOKEN)));
}

#[test]
fn token_account_is_derived_from_wallet_and_mint() {
    let wallet = [7u8; 32];
    let mint = [9u8; 32];
    let token = key(TOKEN);
    let expected = get_associated_token_address_with_program_id(
        &Pubkey::new_from_array(wallet),
        &Pubkey::new_from_array(mint),
        &Pubkey::new_from_array(token),
    );
    assert_eq!(try_derive_ata(&wallet, &mint, &token), Some(expected.to_bytes()));
    assert_eq!(derive_ata(&wallet, &mint, &token), expected.to_bytes());
    assert_ne!(try_derive_ata(&mint, &wallet, &token), Some(expected.to_bytes()));
}

#[test]
fn addresses_are_shown_by_their_ends() {
    assert_eq!(short_pk(&key(EQUIUM_PROGRAM_ID)), "ZKGM…uEQM");
    assert_eq!(short_pk(&[0; 32]), "1111…1111");
    assert_eq!(short_key_text("abcdefgh"), "abcd…efgh");
    assert_eq!(short_key_text("abcd"), "abcd…abcd");
}
