//! The on-chain configuration account of the Equium program.
//!
//! The account data starts with an 8-byte discriminator. Behind it the fields follow one another
//! without gaps, numbers in little-endian order.

use vstd::prelude::*;

use crate::bytes::{
    le_bytes, le_bytes_read_back, le_value, le_value_writes_back, lemma_byte_spans,
    lemma_le_value_bound, read_array32, read_i64, read_u32, read_u64, signed64, unsigned64,
};

verus! {

/// Bytes of the discriminator in front of the fields.
pub const DISCRIMINATOR_LEN: usize = 8;

/// Bytes up to the end of the last field that the miner reads.
pub const CONFIG_LEN: usize = 226;

/// The state of the current mining round, as the configuration account records it.
#[derive(Debug, Clone, Copy)]
pub struct EquiumConfig {
    pub mint: [u8; 32],
    pub mineable_vault: [u8; 32],
    pub mineable_vault_bump: u8,
    pub config_bump: u8,
    pub genesis_slot: u64,
    pub genesis_unix_ts: i64,
    pub equihash_n: u32,
    pub equihash_k: u32,
    pub current_target: [u8; 32],
    pub block_height: u64,
    pub current_challenge: [u8; 32],
    pub current_round_open_slot: u64,
    pub current_round_open_unix_ts: i64,
    pub last_winner: [u8; 32],
    pub current_epoch_reward: u64,
}

/// Why account data cannot be read as a configuration.
#[derive(Debug, Clone, Copy, PartialEq, Eq, Structural)]
pub enum ConfigError {
    TooSmall,
}

impl ConfigError {
    /// The error in words.
    pub open spec fn words(self) -> Seq<char> {
        "config account too small"@
    }

    /// The error in words.
    pub fn message(&self) -> (r: String)
        ensures
            r@ == self.words(),
    {
        "config account too small".to_string()
    }
}

/// The `width` bytes of `data` at `at`.
pub open spec fn field(data: Seq<u8>, at: int, width: int) -> Seq<u8> {
    data.subrange(at, at + width)
}

impl EquiumConfig {
    /// Whether each field is what `data` holds at the field's place.
    pub open spec fn is_read_from(&self, data: Seq<u8>) -> bool {
        &&& self.mint@ == field(data, 8, 32)
        &&& self.mineable_vault@ == field(data, 40, 32)
        &&& self.mineable_vault_bump == data[72]
        &&& self.config_bump == data[73]
        &&& self.genesis_slot == le_value(field(data, 74, 8))
        &&& self.genesis_unix_ts == signed64(le_value(field(data, 82, 8)))
        &&& self.equihash_n == le_value(field(data, 90, 4))
        &&& self.equihash_k == le_value(field(data, 94, 4))
        &&& self.current_target@ == field(data, 98, 32)
        &&& self.block_height == le_value(field(data, 130, 8))
        &&& self.current_challenge@ == field(data, 138, 32)
        &&& self.current_round_open_slot == le_value(field(data, 170, 8))
        &&& self.current_round_open_unix_ts == signed64(le_value(field(data, 178, 8)))
        &&& self.last_winner@ == field(data, 186, 32)
        &&& self.current_epoch_reward == le_value(field(data, 218, 8))
    }

    /// The fields as the account stores them.
    pub open spec fn stored(&self) -> Seq<u8> {
        self.mint@ + self.mineable_vault@ + seq![self.mineable_vault_bump, self.config_bump]
            + le_bytes(self.genesis_slot as nat, 8) + le_bytes(
            unsigned64(self.genesis_unix_ts as int),
            8,
        ) + le_bytes(self.equihash_n as nat, 4) + le_bytes(self.equihash_k as nat, 4)
            + self.current_target@ + le_bytes(self.block_height as nat, 8)
            + self.current_challenge@ + le_bytes(self.current_round_open_slot as nat, 8)
            + le_bytes(unsigned64(self.current_round_open_unix_ts as int), 8) + self.last_winner@
            + le_bytes(self.current_epoch_reward as nat, 8)
    }
}

/// Reads the configuration from the data of its account. The discriminator is not looked at, and
/// neither is what follows the last field.
pub fn decode_config(data: &[u8]) -> (r: Result<EquiumConfig, ConfigError>)
    ensures
        match r {
            Ok(config) => data@.len() >= CONFIG_LEN && config.is_read_from(data@),
            Err(e) => data@.len() < CONFIG_LEN && e == ConfigError::TooSmall,
        },
{
    if data.len() < CONFIG_LEN {
        return Err(ConfigError::TooSmall);
    }
    let mut offset: usize = DISCRIMINATOR_LEN;

    let mint = read_array32(data, offset);
    offset = offset + 32;
    let mineable_vault = read_array32(data, offset);
    offset = offset + 32;
    let mineable_vault_bump: u8 = data[offset];
    offset = offset + 1;
    let config_bump: u8 = data[offset];
    offset = offset + 1;
    let genesis_slot: u64 = read_u64(data, offset);
    offset = offset + 8;
    let genesis_unix_ts: i64 = read_i64(data, offset);
    offset = offset + 8;
    let equihash_n: u32 = read_u32(data, offset);
    offset = offset + 4;
    let equihash_k: u32 = read_u32(data, offset);
    offset = offset + 4;
    let current_target = read_array32(data, offset);
    offset = offset + 32;
    let block_height: u64 = read_u64(data, offset);
    offset = offset + 8;
    let current_challenge = read_array32(data, offset);
    offset = offset + 32;
    let current_round_open_slot: u64 = read_u64(data, offset);
    offset = offset + 8;
    let current_round_open_unix_ts: i64 = read_i64(data, offset);
    offset = offset + 8;
    let last_winner = read_array32(data, offset);
    offset = offset + 32;
    let current_epoch_reward: u64 = read_u64(data, offset);

    Ok(
        EquiumConfig {
            mint,
            mineable_vault,
            mineable_vault_bump,
            config_bump,
            genesis_slot,
            genesis_unix_ts,
            equihash_n,
            equihash_k,
            current_target,
            block_height,
            current_challenge,
            current_round_open_slot,
            current_round_open_unix_ts,
            last_winner,
            current_epoch_reward,
        },
    )
}

/// A configuration is read back from the bytes that store it, whatever the discriminator in front
/// and whatever follows.
pub proof fn stored_config_is_read_back(
    config: EquiumConfig,
    discriminator: Seq<u8>,
    rest: Seq<u8>,
)
    requires
        discriminator.len() == DISCRIMINATOR_LEN,
    ensures
        (discriminator + config.stored() + rest).len() >= CONFIG_LEN,
        config.is_read_from(discriminator + config.stored() + rest),
{
    let data = discriminator + config.stored() + rest;
    lemma_byte_spans();
    le_bytes_read_back(config.genesis_slot as nat, 8);
    le_bytes_read_back(unsigned64(config.genesis_unix_ts as int), 8);
    le_bytes_read_back(config.equihash_n as nat, 4);
    le_bytes_read_back(config.equihash_k as nat, 4);
    le_bytes_read_back(config.block_height as nat, 8);
    le_bytes_read_back(config.current_round_open_slot as nat, 8);
    le_bytes_read_back(unsigned64(config.current_round_open_unix_ts as int), 8);
    le_bytes_read_back(config.current_epoch_reward as nat, 8);
    assert(field(data, 8, 32) =~= config.mint@);
    assert(field(data, 40, 32) =~= config.mineable_vault@);
    assert(field(data, 74, 8) =~= le_bytes(config.genesis_slot as nat, 8));
    assert(field(data, 82, 8) =~= le_bytes(unsigned64(config.genesis_unix_ts as int), 8));
    assert(field(data, 90, 4) =~= le_bytes(config.equihash_n as nat, 4));
    assert(field(data, 94, 4) =~= le_bytes(config.equihash_k as nat, 4));
    assert(field(data, 98, 32) =~= config.current_target@);
    assert(field(data, 130, 8) =~= le_bytes(config.block_height as nat, 8));
    assert(field(data, 138, 32) =~= config.current_challenge@);
    assert(field(data, 170, 8) =~= le_bytes(config.current_round_open_slot as nat, 8));
    assert(field(data, 178, 8) =~= le_bytes(
        unsigned64(config.current_round_open_unix_ts as int),
        8,
    ));
    assert(field(data, 186, 32) =~= config.last_winner@);
    assert(field(data, 218, 8) =~= le_bytes(config.current_epoch_reward as nat, 8));
}

/// Only the stored fields count: data that agree on them are read alike, whatever their
/// discriminators and whatever follows the last field.
pub proof fn only_the_fields_are_read(config: EquiumConfig, a: Seq<u8>, b: Seq<u8>)
    requires
        a.len() >= CONFIG_LEN,
        b.len() >= CONFIG_LEN,
        a.subrange(DISCRIMINATOR_LEN as int, CONFIG_LEN as int) == b.subrange(
            DISCRIMINATOR_LEN as int,
            CONFIG_LEN as int,
        ),
    ensures
        config.is_read_from(a) == config.is_read_from(b),
{
    let fields = a.subrange(DISCRIMINATOR_LEN as int, CONFIG_LEN as int);
    assert forall|i: int| 8 <= i < 226 implies #[trigger] a[i] == b[i] by {
        assert(fields[i - 8] == a[i]);
        assert(fields[i - 8] == b[i]);
    }
    assert(field(a, 8, 32) =~= field(b, 8, 32));
    assert(field(a, 40, 32) =~= field(b, 40, 32));
    assert(field(a, 74, 8) =~= field(b, 74, 8));
    assert(field(a, 82, 8) =~= field(b, 82, 8));
    assert(field(a, 90, 4) =~= field(b, 90, 4));
    assert(field(a, 94, 4) =~= field(b, 94, 4));
    assert(field(a, 98, 32) =~= field(b, 98, 32));
    assert(field(a, 130, 8) =~= field(b, 130, 8));
    assert(field(a, 138, 32) =~= field(b, 138, 32));
    assert(field(a, 170, 8) =~= field(b, 170, 8));
    assert(field(a, 178, 8) =~= field(b, 178, 8));
    assert(field(a, 186, 32) =~= field(b, 186, 32));
    assert(field(a, 218, 8) =~= field(b, 218, 8));
}

/// Where each field stands in the data of an account, byte by byte.
pub proof fn fields_stand_at_their_places(config: EquiumConfig, data: Seq<u8>)
    requires
        data.len() >= 226,
        config.is_read_from(data),
    ensures
        forall|i: int| 0 <= i < 32 ==> #[trigger] config.mint@[i] == data[8 + i],
        forall|i: int| 0 <= i < 32 ==> #[trigger] config.mineable_vault@[i] == data[40 + i],
        config.mineable_vault_bump == data[72],
        config.config_bump == data[73],
        config.genesis_slot == le_value(data.subrange(74, 82)),
        unsigned64(config.genesis_unix_ts as int) == le_value(data.subrange(82, 90)),
        config.equihash_n == le_value(data.subrange(90, 94)),
        config.equihash_k == le_value(data.subrange(94, 98)),
        forall|i: int| 0 <= i < 32 ==> #[trigger] config.current_target@[i] == data[98 + i],
        config.block_height == le_value(data.subrange(130, 138)),
        forall|i: int| 0 <= i < 32 ==> #[trigger] config.current_challenge@[i] == data[138 + i],
        config.current_round_open_slot == le_value(data.subrange(170, 178)),
        unsigned64(config.current_round_open_unix_ts as int) == le_value(data.subrange(178, 186)),
        forall|i: int| 0 <= i < 32 ==> #[trigger] config.last_winner@[i] == data[186 + i],
        config.current_epoch_reward == le_value(data.subrange(218, 226)),
{
    lemma_byte_spans();
    lemma_le_value_bound(data.subrange(82, 90));
    lemma_le_value_bound(data.subrange(178, 186));
}

/// What is read is what is stored: the fields that were read store themselves as the bytes that
/// they were read from.
pub proof fn read_config_is_what_is_stored(config: EquiumConfig, data: Seq<u8>)
    requires
        data.len() >= 226,
        config.is_read_from(data),
    ensures
        config.stored() == data.subrange(8, 226),
{
    fields_stand_at_their_places(config, data);
    le_value_writes_back(data.subrange(74, 82));
    le_value_writes_back(data.subrange(82, 90));
    le_value_writes_back(data.subrange(90, 94));
    le_value_writes_back(data.subrange(94, 98));
    le_value_writes_back(data.subrange(130, 138));
    le_value_writes_back(data.subrange(170, 178));
    le_value_writes_back(data.subrange(178, 186));
    le_value_writes_back(data.subrange(218, 226));
    assert(config.stored() =~= data.subrange(8, 226));
}

} // verus!
