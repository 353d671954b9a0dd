//! The instructions of a mining transaction.

use anchor_spl::associated_token;
use solana_sdk::compute_budget::ComputeBudgetInstruction;
use vstd::prelude::*;

use crate::address::ASSOCIATED_TOKEN_ID;
use crate::bytes::{le_bytes, le_bytes_read_back, le_value, lemma_byte_spans, low_u32_le};
use crate::codec::{sha256, sha256_digest};

verus! {

/// The system program, whose address is all zeros.
pub const SYSTEM_PROGRAM_ID: [u8; 32] = [
    0, 0, 0, 0, 0, 0, 0, 0, 0, 0, 0, 0, 0, 0, 0, 0, 0, 0, 0, 0, 0, 0, 0, 0, 0, 0, 0, 0, 0, 0, 0, 0,
];

/// The slot hashes, `SysvarS1otHashes111111111111111111111111111`.
pub const SLOT_HASHES_ID: [u8; 32] = [
    6, 167, 213, 23, 25, 47, 10, 175, 198, 242, 101, 227, 251, 119, 204, 122, 218, 130, 197, 41,
    208, 190, 59, 19, 110, 45, 0, 85, 32, 0, 0, 0,
];

/// The compute budget program, `ComputeBudget111111111111111111111111111111`.
pub const COMPUTE_BUDGET_ID: [u8; 32] = [
    3, 6, 70, 111, 229, 33, 23, 50, 255, 236, 173, 186, 114, 195, 155, 231, 188, 140, 229, 187,
    197, 247, 18, 107, 44, 67, 155, 58, 64, 0, 0, 0,
];

/// The name whose digest tells the program which of its instructions is meant, "global:mine".
pub const MINE_NAME: [u8; 11] = [103, 108, 111, 98, 97, 108, 58, 109, 105, 110, 101];

/// An account that an instruction touches.
#[derive(Debug, Clone, Copy)]
pub struct AccountMeta {
    pub pubkey: [u8; 32],
    pub is_signer: bool,
    pub is_writable: bool,
}

/// What an [`AccountMeta`] says.
pub struct AccountUse {
    pub pubkey: Seq<u8>,
    pub is_signer: bool,
    pub is_writable: bool,
}

impl View for AccountMeta {
    type V = AccountUse;

    open spec fn view(&self) -> AccountUse {
        AccountUse {
            pubkey: self.pubkey@,
            is_signer: self.is_signer,
            is_writable: self.is_writable,
        }
    }
}

impl AccountMeta {
    /// An account that the instruction may change.
    pub fn new(pubkey: [u8; 32], is_signer: bool) -> (r: Self)
        ensures
            r@ == (AccountUse { pubkey: pubkey@, is_signer, is_writable: true }),
    {
        AccountMeta { pubkey, is_signer, is_writable: true }
    }

    /// An account that the instruction only reads.
    pub fn new_readonly(pubkey: [u8; 32], is_signer: bool) -> (r: Self)
        ensures
            r@ == (AccountUse { pubkey: pubkey@, is_signer, is_writable: false }),
    {
        AccountMeta { pubkey, is_signer, is_writable: false }
    }
}

/// A call of an on-chain program.
#[derive(Debug)]
pub struct Instruction {
    pub program_id: [u8; 32],
    pub accounts: Vec<AccountMeta>,
    pub data: Vec<u8>,
}

/// What an [`Instruction`] says.
pub struct Call {
    pub program_id: Seq<u8>,
    pub accounts: Seq<AccountUse>,
    pub data: Seq<u8>,
}

impl View for Instruction {
    type V = Call;

    open spec fn view(&self) -> Call {
        Call {
            program_id: self.program_id@,
            accounts: uses(self.accounts@),
            data: self.data@,
        }
    }
}

/// What each account of a list says.
pub open spec fn uses(accounts: Seq<AccountMeta>) -> Seq<AccountUse> {
    accounts.map_values(|meta: AccountMeta| meta@)
}

/// Reads `anchor_spl::associated_token::ID`, the address of the associated token account program.
#[verifier::external_body]
fn associated_token_program() -> (r: [u8; 32])
    ensures
        r@ == ASSOCIATED_TOKEN_ID@,
{
    associated_token::ID.to_bytes()
}

/// Reads `solana_sdk::system_program::ID`, the address of the system program.
#[verifier::external_body]
fn system_program() -> (r: [u8; 32])
    ensures
        r@ == SYSTEM_PROGRAM_ID@,
{
    solana_sdk::system_program::ID.to_bytes()
}

/// Reads `solana_sdk::sysvar::slot_hashes::ID`, the address of the slot hashes.
#[verifier::external_body]
fn slot_hashes() -> (r: [u8; 32])
    ensures
        r@ == SLOT_HASHES_ID@,
{
    solana_sdk::sysvar::slot_hashes::ID.to_bytes()
}

/// The instruction that limits the compute units of a transaction.
pub open spec fn compute_limit(units: nat) -> Call {
    Call {
        program_id: COMPUTE_BUDGET_ID@,
        accounts: Seq::empty(),
        data: seq![2u8] + le_bytes(units, 4),
    }
}

/// Calls `solana_sdk::compute_budget::ComputeBudgetInstruction::set_compute_unit_limit`: a call of
/// the compute budget program that touches no account, whose data are the tag 2 of this
/// instruction and the limit in four little-endian bytes.
#[verifier::external_body]
pub(crate) fn set_compute_unit_limit(units: u32) -> (r: Instruction)
    ensures
        r@ == compute_limit(units as nat),
{
    let ix = ComputeBudgetInstruction::set_compute_unit_limit(units);
    let meta = |m: &anchor_lang::prelude::AccountMeta| AccountMeta {
        pubkey: m.pubkey.to_bytes(),
        is_signer: m.is_signer,
        is_writable: m.is_writable,
    };
    Instruction {
        program_id: ix.program_id.to_bytes(),
        accounts: ix.accounts.iter().map(meta).collect(),
        data: ix.data,
    }
}

/// An account that may be changed.
pub open spec fn writable(pubkey: Seq<u8>, is_signer: bool) -> AccountUse {
    AccountUse { pubkey, is_signer, is_writable: true }
}

/// An account that is only read, and does not sign.
pub open spec fn readonly(pubkey: Seq<u8>) -> AccountUse {
    AccountUse { pubkey, is_signer: false, is_writable: false }
}

/// The accounts of the mine instruction, in the order that the program expects.
pub open spec fn mine_accounts(
    miner: Seq<u8>,
    config_pda: Seq<u8>,
    mint: Seq<u8>,
    vault_pda: Seq<u8>,
    miner_ata: Seq<u8>,
    token_program_id: Seq<u8>,
) -> Seq<AccountUse> {
    seq![
        writable(miner, true),
        writable(config_pda, false),
        readonly(mint),
        writable(vault_pda, false),
        writable(miner_ata, false),
        readonly(token_program_id),
        readonly(ASSOCIATED_TOKEN_ID@),
        readonly(SYSTEM_PROGRAM_ID@),
        readonly(SLOT_HASHES_ID@),
    ]
}

/// Lists the accounts of the mine instruction.
pub fn build_mine_accounts(
    miner: &[u8; 32],
    config_pda: &[u8; 32],
    mint: &[u8; 32],
    vault_pda: &[u8; 32],
    miner_ata: &[u8; 32],
    token_program_id: &[u8; 32],
) -> (r: Vec<AccountMeta>)
    ensures
        uses(r@) == mine_accounts(
            miner@,
            config_pda@,
            mint@,
            vault_pda@,
            miner_ata@,
            token_program_id@,
        ),
{
    let accounts: Vec<AccountMeta> = vec![
        AccountMeta::new(*miner, true),
        AccountMeta::new(*config_pda, false),
        AccountMeta::new_readonly(*mint, false),
        AccountMeta::new(*vault_pda, false),
        AccountMeta::new(*miner_ata, false),
        AccountMeta::new_readonly(*token_program_id, false),
        AccountMeta::new_readonly(associated_token_program(), false),
        AccountMeta::new_readonly(system_program(), false),
        AccountMeta::new_readonly(slot_hashes(), false),
    ];
    assert(uses(accounts@) =~= mine_accounts(
        miner@,
        config_pda@,
        mint@,
        vault_pda@,
        miner_ata@,
        token_program_id@,
    ));
    accounts
}

/// The data of the mine instruction: the first eight bytes of the digest of its name, the nonce,
/// and the solution behind its length.
pub open spec fn mine_data(digest: Seq<u8>, nonce: Seq<u8>, soln_indices: Seq<u8>) -> Seq<u8> {
    digest.take(8) + nonce + le_bytes(soln_indices.len(), 4) + soln_indices
}

/// Puts the data of the mine instruction together, given the digest of its name.
pub fn assemble_mine_data(digest: &[u8; 32], nonce: &[u8; 32], soln_indices: &[u8]) -> (r: Vec<u8>)
    ensures
        r@ == mine_data(digest@, nonce@, soln_indices@),
{
    let mut data: Vec<u8> = Vec::new();
    data.extend_from_slice(&digest[0..8]);
    assert(data@ =~= digest@.take(8));
    data.extend_from_slice(nonce);
    assert(data@ =~= digest@.take(8) + nonce@);
    let mut len = low_u32_le(soln_indices.len() as u64);
    data.append(&mut len);
    data.extend_from_slice(soln_indices);
    assert(data@ =~= mine_data(digest@, nonce@, soln_indices@));
    data
}

/// Writes the data of the mine instruction.
pub fn build_mine_data(nonce: &[u8; 32], soln_indices: &[u8]) -> (r: Vec<u8>)
    ensures
        r@ == mine_data(sha256_digest(MINE_NAME@), nonce@, soln_indices@),
        sha256_digest(MINE_NAME@).len() == 32,
{
    let digest = sha256(&MINE_NAME);
    assemble_mine_data(&digest, nonce, soln_indices)
}

/// The data of the mine instruction carry the nonce, the length of the solution and the solution
/// where the program looks for them. Of the length there are the low 32 bits.
pub proof fn mine_data_can_be_read(digest: Seq<u8>, nonce: Seq<u8>, soln_indices: Seq<u8>)
    requires
        digest.len() == 32,
        nonce.len() == 32,
    ensures
        ({
            let data = mine_data(digest, nonce, soln_indices);
            &&& data.len() == 44 + soln_indices.len()
            &&& data.subrange(0, 8) == digest.take(8)
            &&& data.subrange(8, 40) == nonce
            &&& le_value(data.subrange(40, 44)) == soln_indices.len() % 0x1_0000_0000
            &&& data.skip(44) == soln_indices
        }),
{
    let data = mine_data(digest, nonce, soln_indices);
    lemma_byte_spans();
    le_bytes_read_back(soln_indices.len(), 4);
    assert(data.subrange(0, 8) =~= digest.take(8));
    assert(data.subrange(8, 40) =~= nonce);
    assert(data.subrange(40, 44) =~= le_bytes(soln_indices.len(), 4));
    assert(data.skip(44) =~= soln_indices);
}

/// The mine instruction touches nine accounts. The miner alone signs; the miner, the configuration,
/// the vault and the miner's token account may change, and the others are only read.
pub proof fn mine_accounts_play_their_parts(
    miner: Seq<u8>,
    config_pda: Seq<u8>,
    mint: Seq<u8>,
    vault_pda: Seq<u8>,
    miner_ata: Seq<u8>,
    token_program_id: Seq<u8>,
)
    ensures
        ({
            let list = mine_accounts(
                miner,
                config_pda,
                mint,
                vault_pda,
                miner_ata,
                token_program_id,
            );
            &&& list.len() == 9
            &&& list[0].pubkey == miner
            &&& list[1].pubkey == config_pda
            &&& list[2].pubkey == mint
            &&& list[3].pubkey == vault_pda
            &&& list[4].pubkey == miner_ata
            &&& list[5].pubkey == token_program_id
            &&& list[6].pubkey == ASSOCIATED_TOKEN_ID@
            &&& list[7].pubkey == SYSTEM_PROGRAM_ID@
            &&& list[8].pubkey == SLOT_HASHES_ID@
            &&& forall|i: int| 0 <= i < 9 ==> (#[trigger] list[i]).is_signer == (i == 0)
            &&& forall|i: int|
                0 <= i < 9 ==> (#[trigger] list[i]).is_writable == (i == 0 || i == 1 || i == 3 || i
                    == 4)
        }),
{
}

/// The limit is read back from the instruction that sets it: behind the tag, in four bytes.
pub proof fn compute_limit_can_be_read(units: nat)
    requires
        units < 0x1_0000_0000,
    ensures
        compute_limit(units).program_id == COMPUTE_BUDGET_ID@,
        compute_limit(units).accounts.len() == 0,
        compute_limit(units).data.len() == 5,
        compute_limit(units).data[0] == 2,
        le_value(compute_limit(units).data.subrange(1, 5)) == units,
{
    lemma_byte_spans();
    le_bytes_read_back(units, 4);
    assert(compute_limit(units).data.subrange(1, 5) =~= le_bytes(units, 4));
}

/// An instruction says what it holds: its program, all of its data, and of each account, in order,
/// the address and whether it signs and may change.
pub proof fn instruction_says_what_it_holds(ix: Instruction)
    ensures
        ix@.program_id == ix.program_id@,
        ix@.data == ix.data@,
        ix@.accounts.len() == ix.accounts@.len(),
        forall|i: int|
            0 <= i < ix.accounts@.len() ==> (#[trigger] ix@.accounts[i]).pubkey
                == ix.accounts@[i].pubkey@ && ix@.accounts[i].is_signer
                == ix.accounts@[i].is_signer && ix@.accounts[i].is_writable
                == ix.accounts@[i].is_writable,
{
}

} // verus!
