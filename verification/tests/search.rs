use eqm_miner::config::{num_cpus, MinerConfig, FALLBACK_THREADS};
use eqm_miner::nonce::{keep_candidate, Candidate, NonceBudget};

fn config(threads: usize, max_nonces_per_round: u64) -> MinerConfig {
    MinerConfig {
        rpc_url: "url".to_string(),
        rpc_urls: vec![],
        keypair_path: "id.json".to_string(),
        threads,
        max_nonces_per_round,
        cu_limit: 1_400_000,
        telegram_enabled: false,
        telegram_bot_token: None,
        telegram_chat_id: None,
    }
}

#[test]
fn cores_are_counted_where_they_can_be() {
    assert_eq!(num_cpus(Some(12)), 12);
    assert_eq!(num_cpus(None), 4);
    assert_eq!(FALLBACK_THREADS, 4);
}

#[test]
fn zero_threads_mean_every_core() {
    assert_eq!(config(0, 1).solver_threads(Some(12)), 12);
    assert_eq!(config(0, 1).solver_threads(None), 4);
    assert_eq!(config(3, 1).solver_threads(Some(12)), 3);
}

#[test]
fn nonces_are_shared_out() {
    assert_eq!(config(0, 16384).nonces_per_thread(8), 2048);
    assert_eq!(config(0, 10).nonces_per_thread(3), 3);
    assert_eq!(config(0, 3).nonces_per_thread(4), 0);
}

#[test]
fn budget_ends_at_its_limit() {
    let mut budget = NonceBudget::new(2);
    assert!(budget.take_one(false));
    assert!(budget.next_nonce(false).is_some());
    assert_eq!((budget.used, budget.limit), (2, 2));
    assert!(!budget.take_one(false));
    assert!(budget.next_nonce(false).is_none());
    assert_eq!(budget.used, 2);
}

#[test]
fn budget_ends_when_a_solution_is_found() {
    let mut budget = NonceBudget::new(5);
    assert!(budget.next_nonce(true).is_none());
    assert!(!budget.take_one(true));
    assert_eq!(budget.used, 0);
    assert!(NonceBudget::new(0).next_nonce(false).is_none());
}

#[test]
fn nonces_are_random() {
    let mut budget = NonceBudget::new(3);
    let a = budget.next_nonce(false).unwrap();
    let b = budget.next_nonce(false).unwrap();
    assert_ne!(a, b);
    assert_ne!(a, [0u8; 32]);
}

#[test]
fn threads_stay_within_the_round_together() {
    let settings = config(0, 100);
    let mut used = 0;
    for _ in 0..7 {
        let mut budget = NonceBudget::new(settings.nonces_per_thread(7));
        while budget.take_one(false) {}
        used += budget.used;
    }
    assert_eq!(used, 98);
}

#[test]
fn only_candidates_under_the_target_are_kept() {
    let candidate = || Some(Candidate { nonce: [1; 32], soln_indices: vec![2, 3] });
    let kept = keep_candidate(candidate(), true).unwrap();
    assert_eq!((kept.nonce, kept.soln_indices), ([1; 32], vec![2, 3]));
    assert!(keep_candidate(candidate(), false).is_none());
    assert!(keep_candidate(None, true).is_none());
}
