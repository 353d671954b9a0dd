use eqm_miner::account::{decode_config, EquiumConfig};
use eqm_miner::address::{short_pk, EQUIUM_PROGRAM_ID};
use eqm_miner::session::{boot_text, print_boot, started_message, Next, Session, NO_HEIGHT};

const SIG: &str = "5VERv8NMvzbJMEkV8xnrLkEaWRtSz9CosKDYjCJjBRnb";

fn config(height: u64, reward: u64) -> EquiumConfig {
    let mut config = decode_config(&[0u8; 226]).unwrap();
    config.block_height = height;
    config.current_epoch_reward = reward;
    config.current_target[0] = 0x00;
    config.current_target[1] = 0xfe;
    config.current_target[2] = 0x1a;
    config.current_target[3] = 0x09;
    config
}

fn rule() -> String {
    format!("\x1b[90m   {}\x1b[0m\n", "─".repeat(60))
}

#[test]
fn boot_screen_lists_the_setup() {
    let text = boot_text("abcd…efgh", "ijkl…mnop", "https://rpc", 8, 2);
    let below_logo = text.split("╚═════╝\x1b[0m\n").nth(1).unwrap();
    let expected = [
        "   \x1b[2mmulti-threaded solana miner\x1b[0m                    \x1b[1;33m$EQM ⛏\x1b[0m\n\n",
        &rule(),
        "   \x1b[2mminer\x1b[0m      \x1b[36mabcd…efgh\x1b[0m\n",
        "   \x1b[2mprogram\x1b[0m    \x1b[36mijkl…mnop\x1b[0m\n",
        "   \x1b[2mthreads\x1b[0m    \x1b[1;33m8\x1b[0m\n",
        "   \x1b[2mRPCs\x1b[0m       \x1b[36m2\x1b[0m\n",
        "   \x1b[2mprimary\x1b[0m    \x1b[90mhttps://rpc\x1b[0m\n",
        &rule(),
    ]
    .concat();
    assert_eq!(below_logo, expected);
    assert!(text.starts_with("\x1b[1;35m\n   ███████╗ ██████╗ ███╗   ███╗"));
}

#[test]
fn boot_screen_shortens_the_addresses() {
    let miner = [0u8; 32];
    let program = eqm_miner::address::resolve_program_id(None).unwrap();
    assert!(EQUIUM_PROGRAM_ID.starts_with("ZKGM"));
    assert_eq!(
        print_boot(&miner, &program, "url", 4, 1),
        boot_text("1111…1111", "ZKGM…uEQM", "url", 4, 1)
    );
}

#[test]
fn start_is_announced() {
    assert_eq!(
        started_message(&short_pk(&[0; 32]), 8, 2),
        "🚀 <b>EQM Miner Pro started</b>\nWallet: <code>1111…1111</code>\nThreads: <code>8</code>\nRPCs: <code>2</code>"
    );
}

#[test]
fn new_session_has_mined_nothing() {
    let s = Session::new(8, 2, 5);
    assert_eq!((s.threads, s.rpc_count, s.max_blocks), (8, 2, 5));
    assert_eq!((s.blocks_mined, s.total_nonces), (0, 0));
    assert_eq!(s.current_height, NO_HEIGHT);
    assert_eq!(NO_HEIGHT, u64::MAX);
}

#[test]
fn failed_fetch_is_tried_again() {
    let step = Session::new(1, 1, 0).on_fetch_error("timed out");
    assert_eq!(step.print, "   \x1b[90mRPC error: timed out — retry in 3s\x1b[0m\n");
    assert!(step.messages.is_empty());
    assert_eq!((step.pause_ms, step.next), (3000, Next::Fetch));
}

#[test]
fn new_round_is_announced() {
    let mut s = Session::new(8, 2, 0);
    let step = s.on_config(&config(42, 25_000_000));
    let expected = format!(
        "\n   \x1b[1mround #42\x1b[0m   \x1b[2mreward 25 EQM\x1b[0m   \x1b[2mtarget 0x00fe1a09…\x1b[0m   \x1b[33mthreads 8\x1b[0m\n{}",
        rule()
    );
    assert_eq!(step.print, expected);
    assert!(step.messages.is_empty());
    assert_eq!((step.pause_ms, step.next), (0, Next::Solve));
    assert_eq!(s.current_height, 42);
}

#[test]
fn round_is_announced_only_once() {
    let mut s = Session::new(8, 2, 0);
    assert_ne!(s.on_config(&config(42, 1)).print, "");
    s.on_search(10);
    s.on_no_solution(1, "", 10);
    s.on_fetch_error("");
    let step = s.on_config(&config(42, 2));
    assert_eq!((step.print.as_str(), step.next), ("", Next::Solve));
    assert_ne!(s.on_config(&config(43, 2)).print, "");
    assert_ne!(s.on_config(&config(42, 2)).print, "");
}

#[test]
fn nonces_are_summed_up() {
    let mut s = Session::new(1, 1, 0);
    assert_eq!(s.on_search(100), 100);
    assert_eq!(s.on_search(23), 123);
    s.total_nonces = u64::MAX;
    assert_eq!(s.on_search(2), 1);
}

#[test]
fn empty_search_goes_on() {
    let step = Session::new(1, 1, 0).on_no_solution(1500, "1.6 H/s", 16384);
    assert_eq!(
        step.print,
        "     \x1b[90m· no solution\x1b[0m   \x1b[2m1500ms\x1b[0m   \x1b[33m1.6 H/s\x1b[0m   \x1b[2mnonces: 16384\x1b[0m\n"
    );
    assert!(step.messages.is_empty());
    assert_eq!((step.pause_ms, step.next), (500, Next::Fetch));
}

#[test]
fn failed_submission_goes_on() {
    let step = Session::new(1, 1, 0).on_submit_error("error: 0x1773", 7, "1.6 H/s");
    assert_eq!(
        step.print,
        "     \x1b[90m· above target\x1b[0m   \x1b[2m7ms\x1b[0m   \x1b[33m1.6 H/s\x1b[0m\n"
    );
    assert!(step.messages.is_empty());
    assert_eq!((step.pause_ms, step.next), (200, Next::Fetch));
}

#[test]
fn failures_change_nothing() {
    let mut s = Session::new(1, 1, 3);
    s.on_config(&config(1, 1));
    s.on_search(5);
    let before = format!("{:?}", s);
    s.on_fetch_error("e");
    s.on_no_solution(1, "h", 1);
    s.on_submit_error("e", 1, "h");
    assert_eq!(format!("{:?}", s), before);
}

#[test]
fn mined_block_is_shown_and_sent() {
    let mut s = Session::new(8, 2, 0);
    s.blocks_mined = 2;
    let step = s.on_mined(&config(42, 25_500_000), SIG, 900, "12.5 H/s", 3661);
    assert_eq!(
        step.print,
        "     \x1b[1;32m✓ MINED!\x1b[0m   \x1b[1m+25.5 EQM\x1b[0m   \x1b[2m900ms\x1b[0m   \x1b[1;33m12.5 H/s\x1b[0m\n       \x1b[90msig 5VERv8…JjBRnb\x1b[0m   \x1b[2mbroadcast to 2 RPCs\x1b[0m\n\n   \x1b[2mtotal\x1b[0m  \x1b[1m76.5 EQM\x1b[0m   \x1b[2mblocks 3\x1b[0m   \x1b[2muptime 1:01:01\x1b[0m\n"
    );
    assert_eq!(
        step.messages,
        vec!["⛏ <b>MINED +25.5 EQM</b>\nBlock: <code>#42</code>\nSig: <code>5VERv8…JjBRnb</code>\nTotal: <code>3 blocks</code>\nHashrate: <code>12.5 H/s</code>"]
    );
    assert_eq!((step.pause_ms, step.next), (0, Next::Fetch));
    assert_eq!(s.blocks_mined, 3);
}

#[test]
fn last_block_ends_the_session() {
    let mut s = Session::new(8, 2, 2);
    let first = s.on_mined(&config(1, 1), SIG, 1, "h", 1);
    assert_eq!((first.next, first.messages.len()), (Next::Fetch, 1));
    let last = s.on_mined(&config(2, 1), SIG, 1, "h", 1);
    assert_eq!(last.next, Next::Stop);
    assert!(last.print.ends_with("\n\n   \x1b[1;35msession complete — 2 blocks mined\x1b[0m\n"));
    assert_eq!(last.messages.len(), 2);
    assert_eq!(last.messages[1], "🏁 Session complete — 2 blocks mined");
}

#[test]
fn session_without_a_limit_goes_on() {
    let mut s = Session::new(8, 2, 0);
    for i in 1..=50u64 {
        assert_eq!(s.on_mined(&config(i, 1), SIG, 1, "h", 1).next, Next::Fetch);
        assert_eq!(s.blocks_mined, i);
    }
}

#[test]
fn only_mined_blocks_are_counted() {
    let mut s = Session::new(8, 2, 3);
    for i in 0..3 {
        s.on_config(&config(i, 1));
        s.on_search(5);
        s.on_no_solution(1, "h", 5);
        s.on_submit_error("e", 1, "h");
        let step = s.on_mined(&config(i, 1), SIG, 1, "h", 1);
        assert_eq!(step.next == Next::Stop, i == 2);
    }
    assert_eq!((s.blocks_mined, s.threads, s.rpc_count, s.max_blocks), (3, 8, 2, 3));
}
