use eqm_miner::logger::{
    error_at, mined_at, no_solution_at, receipt_confirmed_at, receipt_dropped_at,
    receipt_failed_at, warn_at, Logger,
};

const SIG: &str = "5VERv8NMvzbJMEkV8xnrLkEaWRtSz9CosKDYjCJjBRnb";

/// The text of a line with the time of day replaced, which stands in brackets.
fn without_time(line: &str) -> String {
    let open = line.find("\x1b[90m[").unwrap() + 6;
    assert_eq!(&line[open + 2..open + 3], ":");
    assert_eq!(&line[open + 5..open + 6], ":");
    format!("{}TIME{}", &line[..open], &line[open + 8..])
}

#[test]
fn author_is_kept() {
    assert_eq!(Logger::new("ada").author, "ada");
}

#[test]
fn banner_names_the_author() {
    let banner = Logger::new("ada").banner();
    assert!(banner.starts_with("\x1b[1;35m\n   ███████╗ ██████╗ ███╗   ███╗"));
    assert!(banner.ends_with(
        "╚═════╝\x1b[0m\n   \x1b[2mmulti-threaded solana miner\x1b[0m       \x1b[90mby ada\x1b[0m       \x1b[1;33m$EQM\x1b[0m\n\n"
    ));
}

#[test]
fn rule_is_a_gray_line() {
    let expected = format!("\x1b[90m   {}\x1b[0m\n", "─".repeat(60));
    assert_eq!(Logger::new("").rule(), expected);
}

#[test]
fn info_aligns_the_key() {
    let log = Logger::new("");
    assert_eq!(
        log.info("miner", "abc"),
        "   \x1b[2mminer     \x1b[0m  \x1b[36mabc\x1b[0m\n"
    );
    assert_eq!(
        log.info("a long key here", "v"),
        "   \x1b[2ma long key here\x1b[0m  \x1b[36mv\x1b[0m\n"
    );
}

#[test]
fn round_shows_the_target_in_hex() {
    let mut target = [0u8; 32];
    target[1] = 0x0f;
    target[2] = 0xab;
    target[3] = 0xff;
    target[4] = 0x77;
    let expected = format!(
        "   \x1b[1mround #42\x1b[0m   \x1b[2mreward 25 EQM\x1b[0m   \x1b[2mtarget 0x{}...\x1b[0m\n\x1b[90m   {}\x1b[0m\n",
        hex::encode(&target[..4]),
        "─".repeat(60)
    );
    assert!(expected.contains("0x000fabff..."));
    assert_eq!(Logger::new("").round(42, "25", &target), expected);
}

#[test]
fn total_sums_the_session_up() {
    assert_eq!(
        Logger::new("").total(3, 75_500_000, 3661),
        "   \x1b[2mtotal\x1b[0m  \x1b[1m75.5 EQM\x1b[0m  \x1b[2mblocks 3\x1b[0m  \x1b[2muptime 1:01:01\x1b[0m\n\n"
    );
}

#[test]
fn no_solution_line_is_stamped() {
    assert_eq!(
        no_solution_at("12:34:56", 1500, "1.6 H/s"),
        "     \x1b[90m[12:34:56]\x1b[0m  \x1b[2mno solution\x1b[0m  \x1b[2m1500ms\x1b[0m  \x1b[33m1.6 H/s\x1b[0m\n"
    );
}

#[test]
fn mined_lines_show_reward_and_signature() {
    assert_eq!(
        mined_at("12:34:56", "25", 900, "12.5 H/s", SIG, 2),
        "     \x1b[90m[12:34:56]\x1b[0m  \x1b[1;32mv MINED\x1b[0m  \x1b[1m+25 EQM\x1b[0m  \x1b[2m900ms\x1b[0m  \x1b[1;33m12.5 H/s\x1b[0m\n       \x1b[90msig 5VERv8...JjBRnb  broadcast 2x\x1b[0m\n"
    );
}

#[test]
fn warnings_and_errors_are_stamped() {
    assert_eq!(
        warn_at("00:00:00", "slow"),
        "     \x1b[90m[00:00:00]\x1b[0m  \x1b[33m! slow\x1b[0m\n"
    );
    assert_eq!(
        error_at("00:00:00", "gone"),
        "     \x1b[90m[00:00:00]\x1b[0m  \x1b[31mx gone\x1b[0m\n"
    );
}

#[test]
fn receipts_are_stamped() {
    assert_eq!(
        receipt_confirmed_at("01:02:03", SIG, 7),
        "     \x1b[90m[01:02:03]\x1b[0m  \x1b[1;32mv TX confirmed\x1b[0m  \x1b[2mblock 7\x1b[0m  \x1b[90msig 5VERv8...JjBRnb\x1b[0m\n"
    );
    assert_eq!(
        receipt_failed_at("01:02:03", SIG),
        "     \x1b[90m[01:02:03]\x1b[0m  \x1b[31mx TX reverted\x1b[0m  \x1b[90msig 5VERv8...JjBRnb\x1b[0m\n"
    );
    assert_eq!(
        receipt_dropped_at("01:02:03", SIG),
        "     \x1b[90m[01:02:03]\x1b[0m  \x1b[33m! TX dropped\x1b[0m  \x1b[90msig 5VERv8...JjBRnb\x1b[0m\n"
    );
}

#[test]
fn lines_carry_the_time_of_day() {
    let log = Logger::new("");
    assert!(log.timestamp().starts_with("\x1b[90m"));
    assert!(log.timestamp().ends_with("\x1b[0m"));
    assert_eq!(log.timestamp().len(), 5 + 8 + 4);
    assert_eq!(
        without_time(&log.no_solution(5, "1.0 H/s")),
        no_solution_at("TIME", 5, "1.0 H/s")
    );
    assert_eq!(
        without_time(&log.mined("1.5", 5, "1.0 H/s", SIG, 3)),
        mined_at("TIME", "1.5", 5, "1.0 H/s", SIG, 3)
    );
    assert_eq!(without_time(&log.warn("w")), warn_at("TIME", "w"));
    assert_eq!(without_time(&log.error("e")), error_at("TIME", "e"));
    assert_eq!(
        without_time(&log.receipt_confirmed(SIG, 9)),
        receipt_confirmed_at("TIME", SIG, 9)
    );
    assert_eq!(without_time(&log.receipt_failed(SIG)), receipt_failed_at("TIME", SIG));
    assert_eq!(without_time(&log.receipt_dropped(SIG)), receipt_dropped_at("TIME", SIG));
}
