use eqm_miner::account::{decode_config, ConfigError, EquiumConfig, CONFIG_LEN, DISCRIMINATOR_LEN};

/// Account data in which every byte tells its place.
fn numbered(len: usize) -> Vec<u8> {
    (0..len).map(|i| i as u8).collect()
}

fn run(from: u8) -> [u8; 32] {
    let mut out = [0u8; 32];
    for i in 0..32 {
        out[i] = from + i as u8;
    }
    out
}

/// The bytes that store a configuration.
fn stored(discriminator: [u8; 8], c: &EquiumConfig) -> Vec<u8> {
    let mut data = discriminator.to_vec();
    data.extend_from_slice(&c.mint);
    data.extend_from_slice(&c.mineable_vault);
    data.push(c.mineable_vault_bump);
    data.push(c.config_bump);
    data.extend_from_slice(&c.genesis_slot.to_le_bytes());
    data.extend_from_slice(&c.genesis_unix_ts.to_le_bytes());
    data.extend_from_slice(&c.equihash_n.to_le_bytes());
    data.extend_from_slice(&c.equihash_k.to_le_bytes());
    data.extend_from_slice(&c.current_target);
    data.extend_from_slice(&c.block_height.to_le_bytes());
    data.extend_from_slice(&c.current_challenge);
    data.extend_from_slice(&c.current_round_open_slot.to_le_bytes());
    data.extend_from_slice(&c.current_round_open_unix_ts.to_le_bytes());
    data.extend_from_slice(&c.last_winner);
    data.extend_from_slice(&c.current_epoch_reward.to_le_bytes());
    data
}

fn sample() -> EquiumConfig {
    EquiumConfig {
        mint: [1; 32],
        mineable_vault: [2; 32],
        mineable_vault_bump: 254,
        config_bump: 253,
        genesis_slot: 300_000_000,
        genesis_unix_ts: -1,
        equihash_n: 96,
        equihash_k: 5,
        current_target: [3; 32],
        block_height: 12_345,
        current_challenge: [4; 32],
        current_round_open_slot: u64::MAX,
        current_round_open_unix_ts: i64::MIN,
        last_winner: [5; 32],
        current_epoch_reward: 25_000_000,
    }
}

#[test]
fn short_data_are_refused() {
    assert_eq!(decode_config(&[0u8; 225]).unwrap_err(), ConfigError::TooSmall);
    assert_eq!(decode_config(&[]).unwrap_err(), ConfigError::TooSmall);
    assert!(decode_config(&[0u8; 226]).is_ok());
    assert_eq!(ConfigError::TooSmall.message(), "config account too small");
}

#[test]
fn length_is_the_sum_of_the_fields() {
    assert_eq!(DISCRIMINATOR_LEN, 8);
    assert_eq!(
        CONFIG_LEN,
        8 + 32 + 32 + 1 + 1 + 8 + 8 + 4 + 4 + 32 + 8 + 32 + 8 + 8 + 32 + 8
    );
}

#[test]
fn fields_are_read_at_their_places() {
    let data = numbered(CONFIG_LEN);
    let config = decode_config(&data).unwrap();
    assert_eq!(config.mint, run(8));
    assert_eq!(config.mineable_vault, run(40));
    assert_eq!(config.mineable_vault_bump, 72);
    assert_eq!(config.config_bump, 73);
    assert_eq!(config.genesis_slot, 0x5150_4f4e_4d4c_4b4a);
    assert_eq!(config.genesis_unix_ts, 0x5958_5756_5554_5352);
    assert_eq!(config.equihash_n, 0x5d5c_5b5a);
    assert_eq!(config.equihash_k, 0x6160_5f5e);
    assert_eq!(config.current_target, run(98));
    assert_eq!(config.block_height, 0x8988_8786_8584_8382);
    assert_eq!(config.current_challenge, run(138));
    assert_eq!(config.current_round_open_slot, 0xb1b0_afae_adac_abaa);
    assert_eq!(config.current_round_open_unix_ts, 0xb9b8_b7b6_b5b4_b3b2u64 as i64);
    assert_eq!(config.last_winner, run(186));
    assert_eq!(config.current_epoch_reward, 0xe1e0_dfde_dddc_dbda);
}

#[test]
fn stored_configuration_is_read_back() {
    let config = sample();
    let read = decode_config(&stored([9; 8], &config)).unwrap();
    assert_eq!(format!("{:?}", read), format!("{:?}", config));
}

#[test]
fn discriminator_and_rest_do_not_count() {
    let config = sample();
    let mut data = stored([0; 8], &config);
    data.extend_from_slice(&[7; 100]);
    let a = decode_config(&data).unwrap();
    let b = decode_config(&stored([255; 8], &config)).unwrap();
    assert_eq!(format!("{:?}", a), format!("{:?}", b));
}
