use eqm_miner::rpc::{classify_submit_err, parse_rpc_urls};

fn urls(primary: &str, extra: Option<&str>) -> Vec<String> {
    parse_rpc_urls(primary, &extra.map(|s| s.to_string()))
}

#[test]
fn primary_endpoint_stands_alone_without_a_list() {
    assert_eq!(urls("https://rpc.ankr.com/sol", None), vec!["https://rpc.ankr.com/sol"]);
    assert_eq!(urls("a", Some("")), vec!["a"]);
    assert_eq!(urls("a", Some(" , ,, ")), vec!["a"]);
}

#[test]
fn primary_endpoint_stays_first() {
    assert_eq!(urls("c", Some("a,b,c")), vec!["c", "a", "b"]);
    assert_eq!(urls("", Some("a")), vec!["", "a"]);
}

#[test]
fn no_endpoint_is_repeated() {
    assert_eq!(urls("a", Some("b,a,b,c,c")), vec!["a", "b", "c"]);
}

#[test]
fn entries_are_trimmed() {
    assert_eq!(urls("a", Some("  b ,\tc\n,\u{3000}d\u{a0}, e f ")), vec!["a", "b", "c", "d", "e f"]);
    assert_eq!(urls("a", Some(" a ")), vec!["a"]);
    assert_eq!(urls(" a", Some("a")), vec![" a", "a"]);
}

#[test]
fn trimming_is_that_of_the_standard_library() {
    let all: Vec<char> = (0..=0x3100u32).filter_map(char::from_u32).filter(|c| *c != ',').collect();
    for c in all {
        let entry = format!("{}x{}", c, c);
        assert_eq!(urls("p", Some(&entry))[1], entry.trim());
    }
}

#[test]
fn submit_errors_are_classified() {
    for (error, reason) in [
        ("custom program error: AboveTarget", "above target"),
        ("custom program error: 0x1773", "above target"),
        ("InvalidEquihash", "stale challenge"),
        ("failed: 0x1772 (custom)", "stale challenge"),
        ("blockhash not found", "blockhash expired"),
        ("TransactionError(BlockhashNotFound)", "blockhash expired"),
        ("all RPCs failed", "submit error"),
        ("abovetarget", "submit error"),
        ("", "submit error"),
    ] {
        assert_eq!(classify_submit_err(error), reason);
    }
}

#[test]
fn earlier_classes_come_first() {
    assert_eq!(classify_submit_err("0x1772 0x1773"), "above target");
    assert_eq!(classify_submit_err("BlockhashNotFound InvalidEquihash"), "stale challenge");
}
