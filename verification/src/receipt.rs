//! Receipts of submitted transactions.
//!
//! Every submitted transaction is tracked until its fate is known: confirmed, reverted, or dropped
//! when it has stayed unknown for a minute. Each fate is logged and notified once.

use vstd::prelude::*;
use vstd::string::*;

use crate::address::{signature_base58, signature_text};
use crate::clock::clock_text;
use crate::form::{fits, group_forms, same_wording, Form};
use crate::logger::{
    receipt_confirmed_line, receipt_dropped_line, receipt_failed_line, Logger,
};
use crate::reward::{format_reward, reward_text};
use crate::telegram::TelegramBot;
use crate::text::{ascii_is_shortened_by_characters, decimal, digits};

verus! {

/// Milliseconds between two polls.
pub const POLL_INTERVAL_MS: u64 = 3000;

/// Nanoseconds after which a transaction that is still unknown counts as dropped.
pub const TX_TIMEOUT_NANOS: u128 = 60_000_000_000;

/// A transaction whose fate is not known yet. Times are nanoseconds on one clock that never runs
/// backwards.
#[derive(Debug, Clone, Copy)]
pub struct PendingTx {
    pub signature: [u8; 64],
    pub block_height: u64,
    pub reward: u64,
    pub submitted_at: u128,
}

/// What the cluster knows of a transaction: the error that it ended in, if any; the blocks on top
/// of its own, if they are counted; and whether the cluster has committed to it.
#[derive(Debug)]
pub struct TxStatus {
    pub err: Option<String>,
    pub confirmations: Option<usize>,
    pub has_commitment: bool,
}

/// The fate of a transaction.
#[derive(Debug, Clone, Copy, PartialEq, Eq, Structural)]
pub enum Fate {
    Confirmed,
    Reverted,
    Dropped,
}

/// How long ago a time was, zero if it lies ahead.
pub open spec fn elapsed(since: u128, now: u128) -> int {
    if now >= since {
        now - since
    } else {
        0
    }
}

/// Whether a transaction has at least one confirmation, or a commitment.
pub open spec fn is_confirmed(status: TxStatus) -> bool {
    (status.confirmations matches Some(n) && n > 0) || status.has_commitment
}

/// The fate of a transaction, if the status tells it.
pub open spec fn fate(tx: PendingTx, status: Option<TxStatus>, now: u128) -> Option<Fate> {
    match status {
        Some(s) => if s.err is Some {
            Some(Fate::Reverted)
        } else if is_confirmed(s) {
            Some(Fate::Confirmed)
        } else {
            None
        },
        None => if elapsed(tx.submitted_at, now) > TX_TIMEOUT_NANOS {
            Some(Fate::Dropped)
        } else {
            None
        },
    }
}

/// What is notified of a fate.
pub open spec fn fate_message(tx: PendingTx, status: Option<TxStatus>, fate: Fate) -> Seq<char> {
    match fate {
        Fate::Reverted => "x TX reverted\nBlock #"@ + digits(tx.block_height as nat)
            + "\nError: "@ + status->0.err->0@,
        Fate::Confirmed => "v TX confirmed\nBlock #"@ + digits(tx.block_height as nat) + "\n+"@
            + reward_text(tx.reward as nat) + " EQM"@,
        Fate::Dropped => "! TX dropped (timeout)\nBlock #"@ + digits(tx.block_height as nat),
    }
}

/// News of one transaction.
#[derive(Debug)]
pub struct Notice {
    pub fate: Fate,
    pub signature: [u8; 64],
    pub block_height: u64,
    pub message: String,
}

/// What a [`Notice`] says.
pub struct News {
    pub fate: Fate,
    pub tx: PendingTx,
    pub message: Seq<char>,
}

impl Notice {
    /// Whether the notice brings the given news.
    pub open spec fn brings(&self, news: News) -> bool {
        &&& self.fate == news.fate
        &&& self.signature@ == news.tx.signature@
        &&& self.block_height == news.tx.block_height
        &&& self.message@ == news.message
    }

    /// The line that logs the notice at the given time.
    pub open spec fn line(&self, time: Seq<char>) -> Seq<char> {
        let sig = signature_base58(self.signature@);
        match self.fate {
            Fate::Confirmed => receipt_confirmed_line(time, sig, self.block_height as nat),
            Fate::Reverted => receipt_failed_line(time, sig),
            Fate::Dropped => receipt_dropped_line(time, sig),
        }
    }

    /// Logs the notice.
    pub fn log_line(&self, logger: &Logger) -> (r: String)
        ensures
            exists|secs: u64| r@ == self.line(#[trigger] clock_text(secs as nat)),
    {
        let sig = signature_text(&self.signature);
        proof {
            ascii_is_shortened_by_characters(sig@, 6, "..."@);
        }
        match self.fate {
            Fate::Confirmed => logger.receipt_confirmed(sig.as_str(), self.block_height),
            Fate::Reverted => logger.receipt_failed(sig.as_str()),
            Fate::Dropped => logger.receipt_dropped(sig.as_str()),
        }
    }
}

/// The transactions that stay pending when the statuses of the first ones are known.
pub open spec fn still_pending(
    pending: Seq<PendingTx>,
    statuses: Seq<Option<TxStatus>>,
    now: u128,
) -> Seq<PendingTx>
    decreases pending.len(),
{
    if pending.len() == 0 {
        pending
    } else {
        let front = still_pending(pending.drop_last(), statuses, now);
        if pending.len() <= statuses.len() && fate(
            pending.last(),
            statuses[pending.len() - 1],
            now,
        ) is Some {
            front
        } else {
            front.push(pending.last())
        }
    }
}

/// The news of a transaction whose fate its status tells.
pub open spec fn told_news(tx: PendingTx, status: Option<TxStatus>, now: u128) -> News {
    let fate = fate(tx, status, now)->0;
    News { fate, tx, message: fate_message(tx, status, fate) }
}

/// The news that the statuses of the first pending transactions bring.
pub open spec fn news(
    pending: Seq<PendingTx>,
    statuses: Seq<Option<TxStatus>>,
    now: u128,
) -> Seq<News>
    decreases pending.len(),
{
    if pending.len() == 0 {
        Seq::empty()
    } else {
        let front = news(pending.drop_last(), statuses, now);
        let tx = pending.last();
        let status = statuses[pending.len() - 1];
        if pending.len() <= statuses.len() && fate(tx, status, now) is Some {
            front.push(told_news(tx, status, now))
        } else {
            front
        }
    }
}

/// Whether each notice brings its news, in order.
pub open spec fn bring(notices: Seq<Notice>, all: Seq<News>) -> bool {
    &&& notices.len() == all.len()
    &&& forall|i: int| 0 <= i < all.len() ==> (#[trigger] notices[i]).brings(all[i])
}

/// Tells the fate of a transaction from its status.
pub fn fate_of(tx: &PendingTx, status: &Option<TxStatus>, now: u128) -> (r: Option<Fate>)
    ensures
        r == fate(*tx, *status, now),
{
    match status {
        Some(s) => {
            if s.err.is_some() {
                return Some(Fate::Reverted);
            }
            let seen = match s.confirmations {
                Some(n) => n > 0,
                None => false,
            };
            if seen || s.has_commitment {
                Some(Fate::Confirmed)
            } else {
                None
            }
        },
        None => {
            if now >= tx.submitted_at && now - tx.submitted_at > TX_TIMEOUT_NANOS {
                Some(Fate::Dropped)
            } else {
                None
            }
        },
    }
}

/// Writes what is notified of a fate.
fn message_of(tx: &PendingTx, status: &Option<TxStatus>, fate: Fate) -> (r: String)
    requires
        fate is Reverted ==> status is Some && status->0.err is Some,
    ensures
        r@ == fate_message(*tx, *status, fate),
{
    let block = decimal(tx.block_height);
    match fate {
        Fate::Reverted => {
            let text = "x TX reverted\nBlock #".to_string().concat(block.as_str()).concat(
                "\nError: ",
            );
            match status {
                Some(s) => match &s.err {
                    Some(err) => text.concat(err.as_str()),
                    None => text,
                },
                None => text,
            }
        },
        Fate::Confirmed => "v TX confirmed\nBlock #".to_string().concat(block.as_str()).concat(
            "\n+",
        ).concat(format_reward(tx.reward).as_str()).concat(" EQM"),
        Fate::Dropped => "! TX dropped (timeout)\nBlock #".to_string().concat(block.as_str()),
    }
}

/// Watches over submitted transactions.
#[derive(Debug)]
pub struct ReceiptMonitor {
    pub rpc_urls: Vec<String>,
    pub telegram: TelegramBot,
    pub pending: Vec<PendingTx>,
}

impl ReceiptMonitor {
    /// A monitor that tracks nothing yet. It asks the first of the endpoints.
    pub fn new(rpc_urls: Vec<String>, telegram: TelegramBot) -> (r: Self)
        ensures
            r.rpc_urls == rpc_urls,
            r.telegram == telegram,
            r.pending@ == Seq::<PendingTx>::empty(),
    {
        Self { rpc_urls, telegram, pending: Vec::new() }
    }

    /// Tracks a transaction from now on.
    pub fn track(&mut self, signature: [u8; 64], block_height: u64, reward: u64, now: u128)
        ensures
            final(self).pending@ == old(self).pending@.push(
                PendingTx { signature, block_height, reward, submitted_at: now },
            ),
            final(self).rpc_urls == old(self).rpc_urls,
            final(self).telegram == old(self).telegram,
    {
        self.pending.push(PendingTx { signature, block_height, reward, submitted_at: now });
    }

    /// The endpoint that is asked for statuses.
    pub fn status_url(&self) -> (r: &String)
        requires
            self.rpc_urls@.len() > 0,
        ensures
            *r == self.rpc_urls@[0],
    {
        &self.rpc_urls[0]
    }

    /// The signatures to ask for, oldest first; nothing where none is pending.
    pub fn to_poll(&self) -> (r: Option<Vec<[u8; 64]>>)
        ensures
            match r {
                Some(sigs) => self.pending@.len() > 0 && sigs@ == self.pending@.map_values(
                    |tx: PendingTx| tx.signature,
                ),
                None => self.pending@.len() == 0,
            },
    {
        if self.pending.len() == 0 {
            return None;
        }
        let mut sigs: Vec<[u8; 64]> = Vec::new();
        let mut i: usize = 0;
        while i < self.pending.len()
            invariant
                i <= self.pending@.len(),
                sigs@ == self.pending@.take(i as int).map_values(|tx: PendingTx| tx.signature),
            decreases self.pending@.len() - i,
        {
            sigs.push(self.pending[i].signature);
            i = i + 1;
            assert(sigs@ =~= self.pending@.take(i as int).map_values(
                |tx: PendingTx| tx.signature,
            ));
        }
        assert(self.pending@.take(i as int) =~= self.pending@);
        Some(sigs)
    }

    /// Takes the statuses of the transactions that were polled, which are the oldest ones. Those
    /// whose fate is told are no longer tracked, and a notice of each is handed back.
    pub fn settle(&mut self, statuses: &Vec<Option<TxStatus>>, now: u128) -> (r: Vec<Notice>)
        ensures
            final(self).pending@ == still_pending(old(self).pending@, statuses@, now),
            bring(r@, news(old(self).pending@, statuses@, now)),
            final(self).rpc_urls == old(self).rpc_urls,
            final(self).telegram == old(self).telegram,
    {
        let mut notices: Vec<Notice> = Vec::new();
        let mut kept: Vec<PendingTx> = Vec::new();
        let ghost all = self.pending@;
        let n: usize = self.pending.len();
        let mut i: usize = 0;
        while i < n
            invariant
                i <= n,
                n == all.len(),
                all == self.pending@,
                kept@ == still_pending(all.take(i as int), statuses@, now),
                bring(notices@, news(all.take(i as int), statuses@, now)),
            decreases n - i,
        {
            let tx = self.pending[i];
            assert(all.take(i + 1).drop_last() =~= all.take(i as int));
            let told = if i < statuses.len() {
                fate_of(&tx, &statuses[i], now)
            } else {
                None
            };
            match told {
                Some(fate) => {
                    let message = message_of(&tx, &statuses[i], fate);
                    notices.push(
                        Notice {
                            fate,
                            signature: tx.signature,
                            block_height: tx.block_height,
                            message,
                        },
                    );
                },
                None => {
                    kept.push(tx);
                },
            }
            i = i + 1;
        }
        assert(all.take(n as int) =~= all);
        self.pending = kept;
        notices
    }
}

/// The transactions that some news are about.
pub open spec fn told(all: Seq<News>) -> Seq<PendingTx> {
    all.map_values(|n: News| n.tx)
}

/// Every tracked transaction stays pending or gets its one notice: none is lost, none is told
/// twice, and none comes in.
pub proof fn every_transaction_is_accounted_for(
    pending: Seq<PendingTx>,
    statuses: Seq<Option<TxStatus>>,
    now: u128,
)
    ensures
        still_pending(pending, statuses, now).to_multiset().add(
            told(news(pending, statuses, now)).to_multiset(),
        ) == pending.to_multiset(),
    decreases pending.len(),
{
    broadcast use vstd::seq_lib::group_to_multiset_ensures;

    let kept = still_pending(pending, statuses, now);
    let all = news(pending, statuses, now);
    if pending.len() == 0 {
        assert(told(all) =~= Seq::<PendingTx>::empty());
        assert(kept.to_multiset().add(told(all).to_multiset()) =~= pending.to_multiset());
    } else {
        let front = pending.drop_last();
        let kept_before = still_pending(front, statuses, now);
        let all_before = news(front, statuses, now);
        every_transaction_is_accounted_for(front, statuses, now);
        assert(pending =~= front.push(pending.last()));
        if all.len() > all_before.len() {
            assert(told(all) =~= told(all_before).push(pending.last()));
        }
        assert(kept.to_multiset().add(told(all).to_multiset()) =~= pending.to_multiset());
    }
}

/// A transaction whose fate its status tells is reported with that fate.
pub proof fn told_fate_is_reported(
    pending: Seq<PendingTx>,
    statuses: Seq<Option<TxStatus>>,
    now: u128,
    i: int,
)
    requires
        0 <= i < pending.len(),
        i < statuses.len(),
        fate(pending[i], statuses[i], now) is Some,
    ensures
        exists|j: int|
            0 <= j < news(pending, statuses, now).len() && #[trigger] news(
                pending,
                statuses,
                now,
            )[j] == told_news(pending[i], statuses[i], now),
    decreases pending.len(),
{
    let all = news(pending, statuses, now);
    let front = pending.drop_last();
    let before = news(front, statuses, now);
    if i == front.len() {
        assert(all[before.len() as int] == told_news(pending[i], statuses[i], now));
    } else {
        assert(front[i] == pending[i]);
        told_fate_is_reported(front, statuses, now, i);
        let j = choose|j: int|
            0 <= j < before.len() && #[trigger] before[j] == told_news(
                pending[i],
                statuses[i],
                now,
            );
        assert(all[j] == before[j]);
    }
}

/// Transactions that were tracked after the poll began are left alone: they follow, unchanged,
/// those that stay pending of the polled ones.
pub proof fn later_transactions_are_left_alone(
    polled: Seq<PendingTx>,
    later: Seq<PendingTx>,
    statuses: Seq<Option<TxStatus>>,
    now: u128,
)
    requires
        statuses.len() <= polled.len(),
    ensures
        still_pending(polled + later, statuses, now) == still_pending(polled, statuses, now)
            + later,
        news(polled + later, statuses, now) == news(polled, statuses, now),
    decreases later.len(),
{
    if later.len() == 0 {
        assert(polled + later =~= polled);
        assert(still_pending(polled, statuses, now) + later =~= still_pending(
            polled,
            statuses,
            now,
        ));
    } else {
        let front = later.drop_last();
        later_transactions_are_left_alone(polled, front, statuses, now);
        assert((polled + later).drop_last() =~= polled + front);
        assert(still_pending(polled, statuses, now) + later =~= (still_pending(
            polled,
            statuses,
            now,
        ) + front).push(later.last()));
    }
}

/// While the cluster knows nothing of the transactions and their time is not up, all stay.
pub proof fn unknown_transactions_are_kept(
    pending: Seq<PendingTx>,
    statuses: Seq<Option<TxStatus>>,
    now: u128,
)
    requires
        forall|i: int| 0 <= i < statuses.len() ==> statuses[i] is None,
        forall|i: int|
            0 <= i < pending.len() ==> elapsed((#[trigger] pending[i]).submitted_at, now)
                <= TX_TIMEOUT_NANOS,
    ensures
        still_pending(pending, statuses, now) == pending,
        news(pending, statuses, now) == Seq::<News>::empty(),
    decreases pending.len(),
{
    if pending.len() > 0 {
        let front = pending.drop_last();
        assert forall|i: int| 0 <= i < front.len() implies elapsed(
            (#[trigger] front[i]).submitted_at,
            now,
        ) <= TX_TIMEOUT_NANOS by {
            assert(front[i] == pending[i]);
        }
        unknown_transactions_are_kept(front, statuses, now);
        assert(pending[pending.len() - 1] == pending.last());
        assert(front.push(pending.last()) =~= pending);
    }
}

/// What tells the fate of a transaction. An error reverts it, whatever else is known. Without one, a
/// single confirmation is enough, and so is a commitment, whatever the other says; with neither the
/// fate is open. Of a transaction that is unknown it is open for a minute, and then it is dropped.
pub proof fn fate_is_told_by_error_confirmation_or_time(
    tx: PendingTx,
    s: TxStatus,
    now: u128,
)
    ensures
        s.err is Some ==> fate(tx, Some(s), now) == Some(Fate::Reverted),
        s.err is None && s.has_commitment ==> fate(tx, Some(s), now) == Some(Fate::Confirmed),
        s.err is None && s.confirmations is Some && s.confirmations->0 > 0 ==> fate(
            tx,
            Some(s),
            now,
        ) == Some(Fate::Confirmed),
        s.err is None && !s.has_commitment && (s.confirmations is None || s.confirmations->0 == 0)
            ==> fate(tx, Some(s), now) is None,
        now > tx.submitted_at + 60_000_000_000 ==> fate(tx, None, now) == Some(Fate::Dropped),
        now <= tx.submitted_at + 60_000_000_000 ==> fate(tx, None, now) is None,
{
}

/// The time since a moment is what has to be added to the moment; before it there is none.
pub proof fn elapsed_time_is_added_up(since: u128, now: u128)
    ensures
        now >= since ==> since + elapsed(since, now) == now,
        now < since ==> elapsed(since, now) == 0,
{
}

/// Reverts are told in the same words around the block and the whole error.
pub proof fn reverts_are_told_alike(a: (PendingTx, TxStatus), b: (PendingTx, TxStatus))
    requires
        a.1.err is Some,
        b.1.err is Some,
    ensures
        same_wording(
            fate_message(a.0, Some(a.1), Fate::Reverted),
            seq![digits(a.0.block_height as nat), a.1.err->0@],
            fate_message(b.0, Some(b.1), Fate::Reverted),
            seq![digits(b.0.block_height as nat), b.1.err->0@],
        ),
{
    broadcast use group_forms;

    let form = Form::blank().says("x TX reverted\nBlock #"@).gives().says("\nError: "@).gives();
    assert(fits(
        fate_message(a.0, Some(a.1), Fate::Reverted),
        form,
        seq![digits(a.0.block_height as nat), a.1.err->0@],
    ));
    assert(fits(
        fate_message(b.0, Some(b.1), Fate::Reverted),
        form,
        seq![digits(b.0.block_height as nat), b.1.err->0@],
    ));
}

/// Confirmations are told in the same words around the block and the reward, whatever the status.
pub proof fn confirmations_are_told_alike(
    a: (PendingTx, Option<TxStatus>),
    b: (PendingTx, Option<TxStatus>),
)
    ensures
        same_wording(
            fate_message(a.0, a.1, Fate::Confirmed),
            seq![digits(a.0.block_height as nat), reward_text(a.0.reward as nat)],
            fate_message(b.0, b.1, Fate::Confirmed),
            seq![digits(b.0.block_height as nat), reward_text(b.0.reward as nat)],
        ),
{
    broadcast use group_forms;

    let form = Form::blank().says("v TX confirmed\nBlock #"@).gives().says("\n+"@).gives()
        .says(" EQM"@);
    assert(fits(
        fate_message(a.0, a.1, Fate::Confirmed),
        form,
        seq![digits(a.0.block_height as nat), reward_text(a.0.reward as nat)],
    ));
    assert(fits(
        fate_message(b.0, b.1, Fate::Confirmed),
        form,
        seq![digits(b.0.block_height as nat), reward_text(b.0.reward as nat)],
    ));
}

/// Drops are told in the same words around the block, whatever the status.
pub proof fn drops_are_told_alike(
    a: (PendingTx, Option<TxStatus>),
    b: (PendingTx, Option<TxStatus>),
)
    ensures
        same_wording(
            fate_message(a.0, a.1, Fate::Dropped),
            seq![digits(a.0.block_height as nat)],
            fate_message(b.0, b.1, Fate::Dropped),
            seq![digits(b.0.block_height as nat)],
        ),
{
    broadcast use group_forms;

    let form = Form::blank().says("! TX dropped (timeout)\nBlock #"@).gives();
    assert(fits(
        fate_message(a.0, a.1, Fate::Dropped),
        form,
        seq![digits(a.0.block_height as nat)],
    ));
    assert(fits(
        fate_message(b.0, b.1, Fate::Dropped),
        form,
        seq![digits(b.0.block_height as nat)],
    ));
}

/// News are about the transaction, with the fate that its status tells and what is notified of it.
pub proof fn news_are_about_the_transaction(tx: PendingTx, status: Option<TxStatus>, now: u128)
    requires
        fate(tx, status, now) is Some,
    ensures
        told_news(tx, status, now).tx == tx,
        Some(told_news(tx, status, now).fate) == fate(tx, status, now),
        told_news(tx, status, now).message == fate_message(
            tx,
            status,
            fate(tx, status, now)->0,
        ),
{
}

/// Each transaction is judged by its own status alone: the last of them stays at the end, or its news
/// come last, and what becomes of the others does not depend on it.
pub proof fn each_transaction_is_judged_alone(
    pending: Seq<PendingTx>,
    tx: PendingTx,
    statuses: Seq<Option<TxStatus>>,
    status: Option<TxStatus>,
    now: u128,
)
    requires
        statuses.len() == pending.len(),
    ensures
        ({
            let kept = still_pending(pending, statuses, now);
            let told = news(pending, statuses, now);
            let kept_then = still_pending(pending.push(tx), statuses.push(status), now);
            let told_then = news(pending.push(tx), statuses.push(status), now);
            if fate(tx, status, now) is Some {
                kept_then == kept && told_then == told.push(told_news(tx, status, now))
            } else {
                kept_then == kept.push(tx) && told_then == told
            }
        }),
{
    assert(pending.push(tx).drop_last() =~= pending);
    lemma_later_statuses_do_not_count(pending, statuses, status, now);
}

/// A status more than there are transactions changes nothing.
proof fn lemma_later_statuses_do_not_count(
    pending: Seq<PendingTx>,
    statuses: Seq<Option<TxStatus>>,
    status: Option<TxStatus>,
    now: u128,
)
    requires
        pending.len() <= statuses.len(),
    ensures
        still_pending(pending, statuses.push(status), now) == still_pending(
            pending,
            statuses,
            now,
        ),
        news(pending, statuses.push(status), now) == news(pending, statuses, now),
    decreases pending.len(),
{
    if pending.len() > 0 {
        lemma_later_statuses_do_not_count(pending.drop_last(), statuses, status, now);
    }
}

/// Without a status nothing becomes of a transaction.
pub proof fn nothing_becomes_of_the_unasked(pending: Seq<PendingTx>, now: u128)
    ensures
        still_pending(pending, Seq::empty(), now) == pending,
        news(pending, Seq::empty(), now) == Seq::<News>::empty(),
    decreases pending.len(),
{
    if pending.len() > 0 {
        nothing_becomes_of_the_unasked(pending.drop_last(), now);
        assert(pending.drop_last().push(pending.last()) =~= pending);
    } else {
        assert(pending =~= Seq::<PendingTx>::empty());
    }
}

/// Notices bring their news one for one, in order, each with the fate, the whole signature, the block
/// and the whole message.
pub proof fn notices_bring_the_whole_news(notices: Seq<Notice>, all: Seq<News>, i: int)
    requires
        bring(notices, all),
        0 <= i < notices.len(),
    ensures
        notices.len() == all.len(),
        notices[i].fate == all[i].fate,
        notices[i].signature@ == all[i].tx.signature@,
        notices[i].block_height == all[i].tx.block_height,
        notices[i].message@ == all[i].message,
{
    assert(notices[i].brings(all[i]));
}

/// Each fate is logged with a line of its own, which names the transaction's own signature.
pub proof fn each_fate_has_its_line(n: Notice, time: Seq<char>)
    ensures
        n.fate is Confirmed ==> n.line(time) == receipt_confirmed_line(
            time,
            signature_base58(n.signature@),
            n.block_height as nat,
        ),
        n.fate is Reverted ==> n.line(time) == receipt_failed_line(
            time,
            signature_base58(n.signature@),
        ),
        n.fate is Dropped ==> n.line(time) == receipt_dropped_line(
            time,
            signature_base58(n.signature@),
        ),
{
}

} // verus!
