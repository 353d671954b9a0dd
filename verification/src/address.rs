//! Account addresses: their text, and those that are derived from a program.
//!
//! An address is 32 bytes. In text it is written in base58.

use anchor_spl::associated_token::get_associated_token_address_with_program_id;
use solana_sdk::pubkey::{ParsePubkeyError, Pubkey};
use solana_sdk::signature::Signature;
use vstd::prelude::*;
use vstd::string::*;
use vstd::utf8::{encode_utf8, is_ascii_chars};

use crate::text::{ascii_is_shortened_by_characters, shorten};

verus! {

/// The Equium program on the main network.
pub const EQUIUM_PROGRAM_ID: &'static str = "ZKGMUfxiRCXFPnqz9zgqAnuqJy15jk7fKbR4o6FuEQM";

/// The seed of the configuration account, "equium-config".
pub const CONFIG_SEED: [u8; 13] = [
    101, 113, 117, 105, 117, 109, 45, 99, 111, 110, 102, 105, 103,
];

/// The seed of the vault account, "equium-vault".
pub const VAULT_SEED: [u8; 12] = [101, 113, 117, 105, 117, 109, 45, 118, 97, 117, 108, 116];

/// The associated token account program, `ATokenGPvbdGVxr1b2hvZbsiqW5xWH25efTNsLJA8knL`.
pub const ASSOCIATED_TOKEN_ID: [u8; 32] = [
    140, 151, 37, 143, 78, 36, 137, 241, 187, 61, 16, 41, 20, 142, 13, 131, 11, 90, 19, 153, 218,
    255, 16, 132, 4, 142, 123, 216, 219, 233, 248, 89,
];

/// Why a text is not an address.
#[derive(Debug, Clone, Copy, PartialEq, Eq, Structural)]
pub enum AddressError {
    /// The text is too long, or does not write 32 bytes.
    WrongSize,
    /// The text is not base58.
    Invalid,
}

/// The base58 text of an address.
pub uninterp spec fn pubkey_base58(bytes: Seq<u8>) -> Seq<char>;

/// What a text says when it is read as an address.
pub enum Reading {
    Address(Seq<u8>),
    NoAddress(AddressError),
}

/// What a text says when it is read as a base58 address.
pub uninterp spec fn pubkey_from_base58(text: Seq<char>) -> Reading;

/// The reading that a result stands for.
pub open spec fn reading(r: Result<[u8; 32], AddressError>) -> Reading {
    match r {
        Ok(bytes) => Reading::Address(bytes@),
        Err(e) => Reading::NoAddress(e),
    }
}

/// The base58 text of a transaction signature.
pub uninterp spec fn signature_base58(bytes: Seq<u8>) -> Seq<char>;

/// The address derived from `seeds` for a program, with its bump seed. There is none in the
/// improbable event that every bump seed gives a point on the curve, or where the seeds are too
/// many or too long.
pub uninterp spec fn program_address(seeds: Seq<Seq<u8>>, program_id: Seq<u8>) -> Option<
    (Seq<u8>, u8),
>;

/// Calls `solana_sdk::pubkey::Pubkey::to_string`. The text is base58, hence ASCII, and each of the
/// 32 bytes takes at least one character.
#[verifier::external_body]
pub(crate) fn pubkey_text(bytes: &[u8; 32]) -> (r: String)
    ensures
        r@ == pubkey_base58(bytes@),
        is_ascii_chars(r@),
        r@.len() >= 32,
{
    Pubkey::new_from_array(*bytes).to_string()
}

/// Calls `solana_sdk::pubkey::Pubkey::from_str`. A text of more than 44 bytes has the wrong size,
/// whatever it holds.
#[verifier::external_body]
pub(crate) fn parse_pubkey(text: &str) -> (r: Result<[u8; 32], AddressError>)
    ensures
        reading(r) == pubkey_from_base58(text@),
        encode_utf8(text@).len() <= 44 || reading(r) == Reading::NoAddress(
            AddressError::WrongSize,
        ),
{
    match <Pubkey as std::str::FromStr>::from_str(text) {
        Ok(key) => Ok(key.to_bytes()),
        Err(ParsePubkeyError::WrongSize) => Err(AddressError::WrongSize),
        Err(ParsePubkeyError::Invalid) => Err(AddressError::Invalid),
    }
}

/// Calls `solana_sdk::signature::Signature::to_string`. The text is base58, hence ASCII, and each
/// of the 64 bytes takes at least one character.
#[verifier::external_body]
pub(crate) fn signature_text(bytes: &[u8; 64]) -> (r: String)
    ensures
        r@ == signature_base58(bytes@),
        is_ascii_chars(r@),
        r@.len() >= 64,
{
    Signature::from(*bytes).to_string()
}

/// Calls `solana_sdk::pubkey::Pubkey::try_find_program_address`: the derived address and its bump
/// seed, or nothing where there is none.
#[verifier::external_body]
fn try_find_program_address(seeds: &Vec<Vec<u8>>, program_id: &[u8; 32]) -> (r: Option<
    ([u8; 32], u8),
>)
    ensures
        match r {
            Some(found) => program_address(seeds@.map_values(|s: Vec<u8>| s@), program_id@)
                == Some((found.0@, found.1)),
            None => program_address(seeds@.map_values(|s: Vec<u8>| s@), program_id@) is None,
        },
{
    let seeds: Vec<&[u8]> = seeds.iter().map(|seed| seed.as_slice()).collect();
    Pubkey::try_find_program_address(&seeds, &Pubkey::new_from_array(*program_id)).map(
        |found| (found.0.to_bytes(), found.1),
    )
}

/// Calls `anchor_spl::associated_token::get_associated_token_address_with_program_id`: the
/// address that the associated token account program derives from the wallet, the token program
/// and the mint, in this order. The outside function panics where there is none.
#[verifier::external_body]
fn associated_token_address(
    wallet: &[u8; 32],
    mint: &[u8; 32],
    token_program_id: &[u8; 32],
) -> (r: [u8; 32])
    requires
        associated_address(wallet@, mint@, token_program_id@) is Some,
    ensures
        associated_address(wallet@, mint@, token_program_id@) == Some(r@),
{
    get_associated_token_address_with_program_id(
        &Pubkey::new_from_array(*wallet),
        &Pubkey::new_from_array(*mint),
        &Pubkey::new_from_array(*token_program_id),
    ).to_bytes()
}

/// The address without its bump seed that `seeds` give a program.
pub open spec fn derived(seeds: Seq<Seq<u8>>, program_id: Seq<u8>) -> Option<Seq<u8>> {
    match program_address(seeds, program_id) {
        Some(found) => Some(found.0),
        None => None,
    }
}

/// The token account of a wallet for a mint.
pub open spec fn associated_address(
    wallet: Seq<u8>,
    mint: Seq<u8>,
    token_program_id: Seq<u8>,
) -> Option<Seq<u8>> {
    derived(seq![wallet, token_program_id, mint], ASSOCIATED_TOKEN_ID@)
}

/// A byte sequence of its own for some bytes.
fn to_seed(bytes: &[u8]) -> (r: Vec<u8>)
    ensures
        r@ == bytes@,
{
    let mut out: Vec<u8> = Vec::new();
    out.extend_from_slice(bytes);
    assert(out@ =~= bytes@);
    out
}

/// Derives an address from one seed.
fn derive_from(seed: &[u8], program_id: &[u8; 32]) -> (r: Option<[u8; 32]>)
    ensures
        match r {
            Some(address) => derived(seq![seed@], program_id@) == Some(address@),
            None => derived(seq![seed@], program_id@) is None,
        },
{
    let mut seeds: Vec<Vec<u8>> = Vec::new();
    seeds.push(to_seed(seed));
    assert(seeds@.map_values(|s: Vec<u8>| s@) =~= seq![seed@]);
    match try_find_program_address(&seeds, program_id) {
        Some(found) => Some(found.0),
        None => None,
    }
}

/// The configuration account of the program.
pub fn config_address(program_id: &[u8; 32]) -> (r: Option<[u8; 32]>)
    ensures
        match r {
            Some(address) => derived(seq![CONFIG_SEED@], program_id@) == Some(address@),
            None => derived(seq![CONFIG_SEED@], program_id@) is None,
        },
{
    derive_from(&CONFIG_SEED, program_id)
}

/// The vault that the program pays rewards from.
pub fn vault_address(program_id: &[u8; 32]) -> (r: Option<[u8; 32]>)
    ensures
        match r {
            Some(address) => derived(seq![VAULT_SEED@], program_id@) == Some(address@),
            None => derived(seq![VAULT_SEED@], program_id@) is None,
        },
{
    derive_from(&VAULT_SEED, program_id)
}

/// The token account of `owner` for `mint`, where there is one.
pub fn derive_ata(owner: &[u8; 32], mint: &[u8; 32], token_program_id: &[u8; 32]) -> (r: [u8; 32])
    requires
        associated_address(owner@, mint@, token_program_id@) is Some,
    ensures
        associated_address(owner@, mint@, token_program_id@) == Some(r@),
{
    associated_token_address(owner, mint, token_program_id)
}

/// The token account of `owner` for `mint`, or nothing where none can be derived.
pub fn try_derive_ata(
    owner: &[u8; 32],
    mint: &[u8; 32],
    token_program_id: &[u8; 32],
) -> (r: Option<[u8; 32]>)
    ensures
        match r {
            Some(address) => associated_address(owner@, mint@, token_program_id@) == Some(
                address@,
            ),
            None => associated_address(owner@, mint@, token_program_id@) is None,
        },
{
    let mut seeds: Vec<Vec<u8>> = Vec::new();
    seeds.push(to_seed(owner));
    seeds.push(to_seed(token_program_id));
    seeds.push(to_seed(mint));
    assert(seeds@.map_values(|s: Vec<u8>| s@) =~= seq![owner@, token_program_id@, mint@]);
    match try_find_program_address(&seeds, &ASSOCIATED_TOKEN_ID) {
        Some(_) => Some(derive_ata(owner, mint, token_program_id)),
        None => None,
    }
}

/// The program to mine for: the one that is asked for, or the one on the main network.
pub open spec fn chosen_program(asked: Option<&str>) -> Seq<char> {
    match asked {
        Some(text) => text@,
        None => EQUIUM_PROGRAM_ID@,
    }
}

/// Reads the address of the program to mine for. A text of more than 44 bytes is never one.
pub fn resolve_program_id(asked: Option<&str>) -> (r: Result<[u8; 32], AddressError>)
    ensures
        reading(r) == pubkey_from_base58(chosen_program(asked)),
        encode_utf8(chosen_program(asked)).len() > 44 ==> r == Err::<[u8; 32], AddressError>(
            AddressError::WrongSize,
        ),
{
    match asked {
        Some(text) => parse_pubkey(text),
        None => parse_pubkey(EQUIUM_PROGRAM_ID),
    }
}

/// Both ends of a text, four characters each.
pub open spec fn short_key(text: Seq<char>) -> Seq<char> {
    text.take(4) + "…"@ + text.skip(text.len() - 4)
}

/// Shortens the text of an address.
pub fn short_key_text(text: &str) -> (r: String)
    requires
        is_ascii_chars(text@),
        text@.len() >= 4,
    ensures
        r@ == short_key(text@),
{
    proof {
        ascii_is_shortened_by_characters(text@, 4, "…"@);
    }
    shorten(text, 4, "…")
}

/// The short text of an address.
pub fn short_pk(pk: &[u8; 32]) -> (r: String)
    ensures
        pubkey_base58(pk@).len() >= 32,
        r@ == short_key(pubkey_base58(pk@)),
{
    short_key_text(pubkey_text(pk).as_str())
}

/// The short text of an address begins with its first four characters and ends with its last four,
/// and has one character between them.
pub proof fn short_key_shows_both_ends(text: Seq<char>)
    requires
        text.len() >= 4,
    ensures
        short_key(text).len() == 9,
        forall|i: int| 0 <= i < 4 ==> #[trigger] short_key(text)[i] == text[i],
        short_key(text)[4] == '…',
        forall|i: int| 5 <= i < 9 ==> #[trigger] short_key(text)[i] == text[text.len() - 9 + i],
{
    reveal_strlit("…");
}

/// An address is derived exactly where the program address is found, and is that address.
pub proof fn derived_address_is_the_program_address(seeds: Seq<Seq<u8>>, program_id: Seq<u8>)
    ensures
        derived(seeds, program_id) is Some <==> program_address(seeds, program_id) is Some,
        program_address(seeds, program_id) matches Some(found) ==> derived(seeds, program_id)
            == Some(found.0),
{
}

/// A token account belongs to the wallet, the token program and the mint: it is the address that
/// these three, in this order, have with the associated token account program.
pub proof fn token_account_is_derived_from_three(
    wallet: Seq<u8>,
    mint: Seq<u8>,
    token_program_id: Seq<u8>,
    seeds: Seq<Seq<u8>>,
)
    requires
        seeds.len() == 3,
        seeds[0] == wallet,
        seeds[1] == token_program_id,
        seeds[2] == mint,
    ensures
        match program_address(seeds, ASSOCIATED_TOKEN_ID@) {
            Some(found) => associated_address(wallet, mint, token_program_id) == Some(found.0),
            None => associated_address(wallet, mint, token_program_id) is None,
        },
{
    assert(seeds =~= seq![wallet, token_program_id, mint]);
}

/// A program that is asked for is taken at its word; asked for none, it is that of the main network.
pub proof fn asked_program_is_chosen(text: &str)
    ensures
        chosen_program(Some(text)) == text@,
        chosen_program(None) == EQUIUM_PROGRAM_ID@,
{
}

/// A result reads as the address that it holds, all 32 bytes of it, or as its error.
pub proof fn reading_is_the_result(bytes: [u8; 32], e: AddressError)
    ensures
        reading(Ok(bytes)) == Reading::Address(bytes@),
        reading(Err(e)) == Reading::NoAddress(e),
{
}

} // verus!
