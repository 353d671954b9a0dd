[package]
name = "eqm_miner"
version = "0.1.0"
edition = "2021"

[dependencies]
anchor-lang = { version = "=0.30.1", default-features = false }
anchor-spl = { version = "=0.30.1", default-features = false, features = ["associated_token"] }
anyhow = "1"
clap = { version = "4", features = ["derive", "env"] }
dotenvy = "0.15"
env_logger = { version = "0.11", default-features = false }
hex = "=0.4.3"
rand = "=0.8.8"
rayon = "1"
reqwest = { version = "0.11", default-features = false, features = ["blocking", "rustls-tls"] }
serde_json = "=1.0.154"
sha2 = "=0.10.9"
solana-sdk = "=1.18.26"
