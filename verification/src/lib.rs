//! The core of a multi-threaded miner for the Equium token on Solana.
//!
//! The library holds what the miner computes and decides: reading the on-chain configuration,
//! building and signing the mining transaction, broadcasting it to several RPC endpoints, counting
//! nonces, watching receipts, and every text that goes to the screen or to Telegram. It opens no
//! connection, starts no thread and prints nothing; the program around it does.

pub mod account;
pub mod address;
pub mod bytes;
pub mod clock;
pub mod codec;
pub mod config;
pub mod form;
pub mod instruction;
pub mod logger;
pub mod nonce;
pub mod receipt;
pub mod reward;
pub mod rpc;
pub mod session;
pub mod style;
pub mod telegram;
pub mod text;
pub mod transaction;
