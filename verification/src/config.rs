//! The settings of a miner.

use vstd::arithmetic::div_mod::lemma_fundamental_div_mod;
use vstd::arithmetic::mul::{lemma_mul_is_commutative, lemma_mul_is_distributive_add_other_way};
use vstd::prelude::*;

verus! {

/// Solver threads where the number of CPU cores cannot be told.
pub const FALLBACK_THREADS: usize = 4;

/// What a miner is set up with, from its environment file and its command line.
#[derive(Debug)]
pub struct MinerConfig {
    pub rpc_url: String,
    pub rpc_urls: Vec<String>,
    pub keypair_path: String,
    pub threads: usize,
    pub max_nonces_per_round: u64,
    pub cu_limit: u32,
    pub telegram_enabled: bool,
    pub telegram_bot_token: Option<String>,
    pub telegram_chat_id: Option<String>,
}

/// The number of CPU cores, as far as it can be told.
pub open spec fn core_count(detected: Option<usize>) -> usize {
    match detected {
        Some(n) => n,
        None => FALLBACK_THREADS,
    }
}

/// The number of CPU cores, given what the system says. The system never says zero.
pub fn num_cpus(detected: Option<usize>) -> (r: usize)
    requires
        detected != Some(0usize),
    ensures
        r == core_count(detected),
        r > 0,
{
    match detected {
        Some(n) => n,
        None => FALLBACK_THREADS,
    }
}

impl MinerConfig {
    /// The number of solver threads: as many as set, or one for each core where zero is set.
    pub open spec fn thread_count(&self, detected: Option<usize>) -> usize {
        if self.threads == 0 {
            core_count(detected)
        } else {
            self.threads
        }
    }

    /// The number of solver threads.
    pub fn solver_threads(&self, detected: Option<usize>) -> (r: usize)
        requires
            detected != Some(0usize),
        ensures
            r == self.thread_count(detected),
            r > 0,
    {
        if self.threads == 0 {
            num_cpus(detected)
        } else {
            self.threads
        }
    }

    /// The nonces that each of `threads` solver threads may try in a round.
    pub fn nonces_per_thread(&self, threads: usize) -> (r: u64)
        requires
            threads > 0,
        ensures
            r == self.max_nonces_per_round as int / threads as int,
            r * threads <= self.max_nonces_per_round < (r + 1) * threads,
    {
        proof {
            let (max, n) = (self.max_nonces_per_round as int, threads as int);
            lemma_fundamental_div_mod(max, n);
            lemma_mul_is_commutative(n, max / n);
            lemma_mul_is_distributive_add_other_way(n, max / n, 1);
        }
        self.max_nonces_per_round / threads as u64
    }
}

/// A number of threads that is set is taken; where zero is set there is one thread for each core,
/// and four where the cores cannot be told.
pub proof fn set_threads_are_taken(config: MinerConfig, cores: usize)
    ensures
        config.threads > 0 ==> config.thread_count(Some(cores)) == config.threads
            && config.thread_count(None) == config.threads,
        config.threads == 0 ==> config.thread_count(Some(cores)) == cores && config.thread_count(
            None,
        ) == 4,
        core_count(Some(cores)) == cores,
        core_count(None) == 4,
{
}

} // verus!
