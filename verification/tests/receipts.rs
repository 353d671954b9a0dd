use eqm_miner::logger::{receipt_confirmed_at, receipt_dropped_at, receipt_failed_at, Logger};
use eqm_miner::receipt::{
    fate_of, Fate, PendingTx, ReceiptMonitor, TxStatus, POLL_INTERVAL_MS, TX_TIMEOUT_NANOS,
};
use eqm_miner::telegram::TelegramBot;
use solana_sdk::signature::Signature;

const SECOND: u128 = 1_000_000_000;

fn monitor(count: u8) -> ReceiptMonitor {
    let bot = TelegramBot::from_env(None, None, None);
    let mut m = ReceiptMonitor::new(vec!["a".to_string(), "b".to_string()], bot);
    for i in 0..count {
        m.track([i; 64], 100 + i as u64, 1_500_000, 0);
    }
    m
}

fn status(err: Option<&str>, confirmations: Option<usize>, has_commitment: bool) -> Option<TxStatus> {
    Some(TxStatus { err: err.map(|e| e.to_string()), confirmations, has_commitment })
}

fn heights(m: &ReceiptMonitor) -> Vec<u64> {
    m.pending.iter().map(|p| p.block_height).collect()
}

#[test]
fn polls_every_three_seconds_for_a_minute() {
    assert_eq!(POLL_INTERVAL_MS, 3_000);
    assert_eq!(TX_TIMEOUT_NANOS, 60 * SECOND);
}

#[test]
fn new_monitor_tracks_nothing() {
    let m = monitor(0);
    assert!(m.pending.is_empty());
    assert!(m.to_poll().is_none());
    assert_eq!(m.status_url(), "a");
}

#[test]
fn tracked_transactions_are_polled_in_order() {
    let mut m = monitor(2);
    m.track([9; 64], 5, 7, 11);
    assert_eq!(m.to_poll(), Some(vec![[0; 64], [1; 64], [9; 64]]));
    let last = m.pending[2];
    assert_eq!((last.block_height, last.reward, last.submitted_at), (5, 7, 11));
}

#[test]
fn fate_is_told_by_the_status() {
    let tx = PendingTx { signature: [0; 64], block_height: 1, reward: 1, submitted_at: SECOND };
    for (s, fate) in [
        (status(Some("e"), None, false), Some(Fate::Reverted)),
        (status(Some("e"), Some(5), true), Some(Fate::Reverted)),
        (status(None, Some(1), false), Some(Fate::Confirmed)),
        (status(None, None, true), Some(Fate::Confirmed)),
        (status(None, Some(0), true), Some(Fate::Confirmed)),
        (status(None, Some(0), false), None),
        (status(None, None, false), None),
    ] {
        assert_eq!(fate_of(&tx, &s, SECOND), fate);
        assert_eq!(fate_of(&tx, &s, 1000 * SECOND), fate);
    }
}

#[test]
fn unknown_transaction_is_dropped_after_a_minute() {
    let tx = PendingTx { signature: [0; 64], block_height: 1, reward: 1, submitted_at: SECOND };
    assert_eq!(fate_of(&tx, &None, SECOND), None);
    assert_eq!(fate_of(&tx, &None, 61 * SECOND), None);
    assert_eq!(fate_of(&tx, &None, 61 * SECOND + 1), Some(Fate::Dropped));
    assert_eq!(fate_of(&tx, &None, 0), None);
}

#[test]
fn notices_say_what_happened() {
    let mut m = monitor(3);
    let statuses = vec![status(None, Some(3), false), status(Some("Custom(6003)"), None, true), None];
    let notices = m.settle(&statuses, 61 * SECOND);
    let found: Vec<(Fate, [u8; 64], u64, &str)> = notices
        .iter()
        .map(|n| (n.fate, n.signature, n.block_height, n.message.as_str()))
        .collect();
    assert_eq!(
        found,
        vec![
            (Fate::Confirmed, [0; 64], 100, "v TX confirmed\nBlock #100\n+1.5 EQM"),
            (Fate::Reverted, [1; 64], 101, "x TX reverted\nBlock #101\nError: Custom(6003)"),
            (Fate::Dropped, [2; 64], 102, "! TX dropped (timeout)\nBlock #102"),
        ]
    );
    assert!(m.pending.is_empty());
}

#[test]
fn each_transaction_is_kept_or_told() {
    let mut m = monitor(5);
    let statuses = vec![
        status(None, None, false),
        status(None, Some(1), false),
        None,
        status(Some("e"), None, false),
        status(None, Some(0), false),
    ];
    let notices = m.settle(&statuses, SECOND);
    assert_eq!(heights(&m), vec![100, 102, 104]);
    let told: Vec<u64> = notices.iter().map(|n| n.block_height).collect();
    assert_eq!(told, vec![101, 103]);
    assert!(m.settle(&vec![None, None, None], SECOND).is_empty());
    assert_eq!(heights(&m), vec![100, 102, 104]);
}

#[test]
fn told_transaction_is_reported_with_its_fate() {
    let mut m = monitor(4);
    let notices = m.settle(&vec![None, None, status(Some("e"), None, false), None], SECOND);
    assert_eq!(notices.len(), 1);
    assert_eq!((notices[0].fate, notices[0].signature), (Fate::Reverted, [2; 64]));
}

#[test]
fn later_transactions_wait_for_the_next_poll() {
    let mut m = monitor(2);
    let polled = m.to_poll().unwrap().len();
    m.track([7; 64], 7, 0, 0);
    let statuses: Vec<Option<TxStatus>> =
        (0..polled).map(|_| status(None, Some(1), false)).collect();
    assert_eq!(m.settle(&statuses, 1000 * SECOND).len(), 2);
    assert_eq!(heights(&m), vec![7]);
}

#[test]
fn unknown_transactions_stay_for_a_minute() {
    let mut m = monitor(3);
    assert!(m.settle(&vec![None, None, None], 60 * SECOND).is_empty());
    assert_eq!(heights(&m), vec![100, 101, 102]);
}

#[test]
fn surplus_statuses_are_ignored() {
    let mut m = monitor(1);
    let statuses = vec![status(None, None, false), status(Some("e"), None, false)];
    assert!(m.settle(&statuses, 0).is_empty());
    assert_eq!(heights(&m), vec![100]);
}

#[test]
fn notices_are_logged_with_the_signature() {
    let log = Logger::new("");
    let mut m = monitor(3);
    let notices = m.settle(
        &vec![status(None, Some(3), false), status(Some("e"), None, true), None],
        61 * SECOND,
    );
    let sig = |i: u8| Signature::from([i; 64]).to_string();
    let expected = [
        receipt_confirmed_at("hh:mm:ss", &sig(0), 100),
        receipt_failed_at("hh:mm:ss", &sig(1)),
        receipt_dropped_at("hh:mm:ss", &sig(2)),
    ];
    for (notice, line) in notices.iter().zip(expected.iter()) {
        let found = notice.log_line(&log);
        assert_eq!(found[..11], line[..11]);
        assert_eq!(found[19..], line[19..]);
    }
}
