//! A mining session: what to do after each event, and what to show for it.
//!
//! A session turns in a circle. The configuration is fetched, a solution is searched for, what is
//! found is submitted, and it starts over, until as many blocks are mined as were asked for. Each
//! event is answered with a [`Step`]: the text to print, the messages to send, how long to pause,
//! and what to do then.

use vstd::prelude::*;
use vstd::string::*;
use vstd::utf8::encode_utf8;

use crate::account::EquiumConfig;
use crate::address::{pubkey_base58, short_key, short_pk};
use crate::clock::{fmt_uptime, uptime_text};
use crate::codec::{hex_encode, hex_text};
use crate::form::{fits, group_forms, same_wording, Form};
use crate::logger::sig_can_be_shown;
use crate::reward::{format_reward, reward_text};
use crate::rpc::{classify_submit_err, submit_reason, texts};
use crate::style::{
    rule_line, rule_text, C_BOLD, C_DIM, C_GOLD, C_GOLD_B, C_GRAY, C_RESET, C_ROSE_B, C_SAGE_B,
    C_TEAL, LOGO,
};
use crate::text::{decimal, digits, shorten, shortened, shortened_text_keeps_the_ends};

verus! {

/// The pause after a failed fetch.
pub const FETCH_RETRY_MS: u64 = 3000;

/// The pause after a search that found nothing.
pub const NO_SOLUTION_MS: u64 = 500;

/// The pause after a failed submission.
pub const SUBMIT_RETRY_MS: u64 = 200;

/// A height that stands for "no round seen yet".
pub const NO_HEIGHT: u64 = 0xffff_ffff_ffff_ffff;

/// A signature on the screen: short ones whole, of longer ones both ends.
pub open spec fn short_sig_text(s: Seq<char>) -> Seq<char> {
    if encode_utf8(s).len() <= 12 {
        s
    } else {
        shortened(s, 6, "…"@)
    }
}

/// Shortens a signature for the screen.
pub fn short_sig(s: &str) -> (r: String)
    requires
        sig_can_be_shown(s@),
    ensures
        r@ == short_sig_text(s@),
{
    if s.as_bytes().len() <= 12 {
        return s.to_string();
    }
    shorten(s, 6, "…")
}

/// The first screen, given the short texts of the addresses.
pub open spec fn boot_lines(
    miner: Seq<char>,
    program: Seq<char>,
    rpc_url: Seq<char>,
    threads: nat,
    rpc_count: nat,
) -> Seq<char> {
    C_ROSE_B@ + LOGO@ + C_RESET@ + "\n"@ + "   "@ + C_DIM@ + "multi-threaded solana miner"@
        + C_RESET@ + "                    "@ + C_GOLD_B@ + "$EQM ⛏"@ + C_RESET@ + "\n"@ + "\n"@
        + rule_line() + "   "@ + C_DIM@ + "miner"@ + C_RESET@ + "      "@ + C_TEAL@ + miner
        + C_RESET@ + "\n"@ + "   "@ + C_DIM@ + "program"@ + C_RESET@ + "    "@ + C_TEAL@
        + program + C_RESET@ + "\n"@ + "   "@ + C_DIM@ + "threads"@ + C_RESET@ + "    "@
        + C_GOLD_B@ + digits(threads) + C_RESET@ + "\n"@ + "   "@ + C_DIM@ + "RPCs"@ + C_RESET@
        + "       "@ + C_TEAL@ + digits(rpc_count) + C_RESET@ + "\n"@ + "   "@ + C_DIM@
        + "primary"@ + C_RESET@ + "    "@ + C_GRAY@ + rpc_url + C_RESET@ + "\n"@ + rule_line()
}

/// Writes the first screen, given the short texts of the addresses.
pub fn boot_text(
    miner: &str,
    program: &str,
    rpc_url: &str,
    threads: usize,
    rpc_count: usize,
) -> (r: String)
    ensures
        r@ == boot_lines(miner@, program@, rpc_url@, threads as nat, rpc_count as nat),
{
    C_ROSE_B.to_string().concat(LOGO).concat(C_RESET).concat("\n").concat("   ").concat(
        C_DIM,
    ).concat("multi-threaded solana miner").concat(C_RESET).concat(
        "                    ",
    ).concat(C_GOLD_B).concat("$EQM ⛏").concat(C_RESET).concat("\n").concat("\n").concat(
        rule_text().as_str(),
    ).concat("   ").concat(C_DIM).concat("miner").concat(C_RESET).concat("      ").concat(
        C_TEAL,
    ).concat(miner).concat(C_RESET).concat("\n").concat("   ").concat(C_DIM).concat(
        "program",
    ).concat(C_RESET).concat("    ").concat(C_TEAL).concat(program).concat(C_RESET).concat(
        "\n",
    ).concat("   ").concat(C_DIM).concat("threads").concat(C_RESET).concat("    ").concat(
        C_GOLD_B,
    ).concat(decimal(threads as u64).as_str()).concat(C_RESET).concat("\n").concat("   ").concat(
        C_DIM,
    ).concat("RPCs").concat(C_RESET).concat("       ").concat(C_TEAL).concat(
        decimal(rpc_count as u64).as_str(),
    ).concat(C_RESET).concat("\n").concat("   ").concat(C_DIM).concat("primary").concat(
        C_RESET,
    ).concat("    ").concat(C_GRAY).concat(rpc_url).concat(C_RESET).concat("\n").concat(
        rule_text().as_str(),
    )
}

/// Writes the first screen.
pub fn print_boot(
    miner: &[u8; 32],
    program: &[u8; 32],
    rpc_url: &str,
    threads: usize,
    rpc_count: usize,
) -> (r: String)
    ensures
        r@ == boot_lines(
            short_key(pubkey_base58(miner@)),
            short_key(pubkey_base58(program@)),
            rpc_url@,
            threads as nat,
            rpc_count as nat,
        ),
{
    boot_text(
        short_pk(miner).as_str(),
        short_pk(program).as_str(),
        rpc_url,
        threads,
        rpc_count,
    )
}

/// The message that a session has begun, given the short text of the wallet.
pub open spec fn started_text(wallet: Seq<char>, threads: nat, rpc_count: nat) -> Seq<char> {
    "🚀 <b>EQM Miner Pro started</b>\nWallet: <code>"@ + wallet
        + "</code>\nThreads: <code>"@ + digits(threads) + "</code>\nRPCs: <code>"@ + digits(
        rpc_count,
    ) + "</code>"@
}

/// Writes the message that a session has begun, given the short text of the wallet.
pub fn started_message(wallet: &str, threads: usize, rpc_count: usize) -> (r: String)
    ensures
        r@ == started_text(wallet@, threads as nat, rpc_count as nat),
{
    "🚀 <b>EQM Miner Pro started</b>\nWallet: <code>".to_string().concat(wallet).concat(
        "</code>\nThreads: <code>",
    ).concat(decimal(threads as u64).as_str()).concat("</code>\nRPCs: <code>").concat(
        decimal(rpc_count as u64).as_str(),
    ).concat("</code>")
}

/// The line for a configuration that could not be fetched.
pub open spec fn fetch_error_line(error: Seq<char>) -> Seq<char> {
    "   "@ + C_GRAY@ + "RPC error: "@ + error + " — retry in 3s"@ + C_RESET@ + "\n"@
}

/// The head of a round: its height, its reward, the first four bytes of its target, and the
/// threads that work on it.
pub open spec fn round_lines(config: EquiumConfig, threads: nat) -> Seq<char> {
    "\n"@ + "   "@ + C_BOLD@ + "round #"@ + digits(config.block_height as nat) + C_RESET@
        + "   "@ + C_DIM@ + "reward "@ + reward_text(config.current_epoch_reward as nat)
        + " EQM"@ + C_RESET@ + "   "@ + C_DIM@ + "target 0x"@ + hex_text(
        config.current_target@.subrange(0, 4),
    ) + "…"@ + C_RESET@ + "   "@ + C_GOLD@ + "threads "@ + digits(threads) + C_RESET@ + "\n"@
        + rule_line()
}

/// Writes the head of a round.
fn round_text(config: &EquiumConfig, threads: usize) -> (r: String)
    ensures
        r@ == round_lines(*config, threads as nat),
{
    "\n".to_string().concat("   ").concat(C_BOLD).concat("round #").concat(
        decimal(config.block_height).as_str(),
    ).concat(C_RESET).concat("   ").concat(C_DIM).concat("reward ").concat(
        format_reward(config.current_epoch_reward).as_str(),
    ).concat(" EQM").concat(C_RESET).concat("   ").concat(C_DIM).concat("target 0x").concat(
        hex_encode(&config.current_target[0..4]).as_str(),
    ).concat("…").concat(C_RESET).concat("   ").concat(C_GOLD).concat("threads ").concat(
        decimal(threads as u64).as_str(),
    ).concat(C_RESET).concat("\n").concat(rule_text().as_str())
}

/// The line for a search that found nothing.
pub open spec fn no_solution_line(
    solve_ms: nat,
    hashrate: Seq<char>,
    round_nonces: nat,
) -> Seq<char> {
    "     "@ + C_GRAY@ + "· no solution"@ + C_RESET@ + "   "@ + C_DIM@ + digits(solve_ms)
        + "ms"@ + C_RESET@ + "   "@ + C_GOLD@ + hashrate + C_RESET@ + "   "@ + C_DIM@
        + "nonces: "@ + digits(round_nonces) + C_RESET@ + "\n"@
}

/// The line for a submission that failed.
pub open spec fn submit_error_line(
    reason: Seq<char>,
    solve_ms: nat,
    hashrate: Seq<char>,
) -> Seq<char> {
    "     "@ + C_GRAY@ + "· "@ + reason + C_RESET@ + "   "@ + C_DIM@ + digits(solve_ms)
        + "ms"@ + C_RESET@ + "   "@ + C_GOLD@ + hashrate + C_RESET@ + "\n"@
}

/// A block that was mined, as it is shown.
pub struct Mined {
    pub reward: nat,
    pub height: nat,
    pub sig: Seq<char>,
    pub solve_ms: nat,
    pub hashrate: Seq<char>,
    pub uptime_secs: nat,
    pub blocks: nat,
    pub rpc_count: nat,
}

/// The lines for a mined block, and the sum of the session below them.
pub open spec fn mined_lines(m: Mined) -> Seq<char> {
    "     "@ + C_SAGE_B@ + "✓ MINED!"@ + C_RESET@ + "   "@ + C_BOLD@ + "+"@ + reward_text(
        m.reward,
    ) + " EQM"@ + C_RESET@ + "   "@ + C_DIM@ + digits(m.solve_ms) + "ms"@ + C_RESET@ + "   "@
        + C_GOLD_B@ + m.hashrate + C_RESET@ + "\n"@ + "       "@ + C_GRAY@ + "sig "@
        + short_sig_text(m.sig) + C_RESET@ + "   "@ + C_DIM@ + "broadcast to "@ + digits(
        m.rpc_count,
    ) + " RPCs"@ + C_RESET@ + "\n"@ + "\n"@ + "   "@ + C_DIM@ + "total"@ + C_RESET@ + "  "@
        + C_BOLD@ + reward_text(m.reward * m.blocks) + " EQM"@ + C_RESET@ + "   "@ + C_DIM@
        + "blocks "@ + digits(m.blocks) + C_RESET@ + "   "@ + C_DIM@ + "uptime "@ + uptime_text(
        m.uptime_secs,
    ) + C_RESET@ + "\n"@
}

/// The message for a mined block.
pub open spec fn mined_message(m: Mined) -> Seq<char> {
    "⛏ <b>MINED +"@ + reward_text(m.reward) + " EQM</b>\nBlock: <code>#"@ + digits(m.height)
        + "</code>\nSig: <code>"@ + short_sig_text(m.sig) + "</code>\nTotal: <code>"@ + digits(
        m.blocks,
    ) + " blocks</code>\nHashrate: <code>"@ + m.hashrate + "</code>"@
}

/// The lines for the end of a session.
pub open spec fn complete_lines(blocks: nat) -> Seq<char> {
    "\n   "@ + C_ROSE_B@ + "session complete — "@ + digits(blocks) + " blocks mined"@
        + C_RESET@ + "\n"@
}

/// The message for the end of a session.
pub open spec fn complete_message(blocks: nat) -> Seq<char> {
    "🏁 Session complete — "@ + digits(blocks) + " blocks mined"@
}

/// What a session does next.
#[derive(Debug, Clone, Copy, PartialEq, Eq, Structural)]
pub enum Next {
    Fetch,
    Solve,
    Stop,
}

/// The answer to an event.
#[derive(Debug)]
pub struct Step {
    pub print: String,
    pub messages: Vec<String>,
    pub pause_ms: u64,
    pub next: Next,
}

impl Step {
    /// Whether the step is made up of these parts.
    pub open spec fn is_made_of(
        &self,
        print: Seq<char>,
        messages: Seq<Seq<char>>,
        pause_ms: u64,
        next: Next,
    ) -> bool {
        &&& self.print@ == print
        &&& texts(self.messages@) == messages
        &&& self.pause_ms == pause_ms
        &&& self.next == next
    }
}

/// The state of a session.
#[derive(Debug)]
pub struct Session {
    pub threads: usize,
    pub rpc_count: usize,
    pub max_blocks: u64,
    pub blocks_mined: u64,
    pub total_nonces: u64,
    pub current_height: u64,
}

/// What can happen in a session.
pub enum Event {
    /// The configuration could not be fetched.
    FetchFailed,
    /// The configuration of the round at this height was fetched.
    Fetched(u64),
    /// So many nonces were tried.
    Searched(u64),
    /// The search found nothing.
    NothingFound,
    /// A block was mined.
    Submitted,
    /// A submission failed.
    SubmitFailed,
}

/// The state of a session after an event.
pub open spec fn advance(s: Session, e: Event) -> Session {
    match e {
        Event::Fetched(height) => Session { current_height: height, ..s },
        Event::Searched(nonces) => Session {
            total_nonces: ((s.total_nonces + nonces) % 0x1_0000_0000_0000_0000) as u64,
            ..s
        },
        Event::Submitted => Session { blocks_mined: (s.blocks_mined + 1) as u64, ..s },
        _ => s,
    }
}

/// What a session shows when it has fetched a configuration: the head of the round, if it is not
/// the one that it knows.
pub open spec fn announcement(s: Session, config: EquiumConfig) -> Seq<char> {
    if config.block_height != s.current_height {
        round_lines(config, s.threads as nat)
    } else {
        Seq::empty()
    }
}

/// What a session does after an event that has led to state `s`.
pub open spec fn next_after(s: Session, e: Event) -> Next {
    match e {
        Event::Fetched(_) => Next::Solve,
        Event::Submitted => if s.max_blocks > 0 && s.blocks_mined >= s.max_blocks {
            Next::Stop
        } else {
            Next::Fetch
        },
        _ => Next::Fetch,
    }
}

/// An empty list of messages.
fn no_messages() -> (r: Vec<String>)
    ensures
        texts(r@) == Seq::<Seq<char>>::empty(),
{
    let list: Vec<String> = Vec::new();
    assert(texts(list@) =~= Seq::<Seq<char>>::empty());
    list
}

impl Session {
    /// Whether the session still has to go on: as many blocks as were asked for are not mined.
    pub open spec fn goes_on(&self) -> bool {
        self.max_blocks == 0 || self.blocks_mined < self.max_blocks
    }

    /// The session's block, as it is shown once it is counted.
    pub open spec fn mined(
        &self,
        config: EquiumConfig,
        sig: Seq<char>,
        solve_ms: u64,
        hashrate: Seq<char>,
        uptime_secs: u64,
    ) -> Mined {
        Mined {
            reward: config.current_epoch_reward as nat,
            height: config.block_height as nat,
            sig,
            solve_ms: solve_ms as nat,
            hashrate,
            uptime_secs: uptime_secs as nat,
            blocks: self.blocks_mined as nat,
            rpc_count: self.rpc_count as nat,
        }
    }

    /// A session that has just begun. With `max_blocks` zero it never ends.
    pub fn new(threads: usize, rpc_count: usize, max_blocks: u64) -> (r: Self)
        ensures
            r == (Session {
                threads,
                rpc_count,
                max_blocks,
                blocks_mined: 0,
                total_nonces: 0,
                current_height: NO_HEIGHT,
            }),
            r.goes_on(),
    {
        Session {
            threads,
            rpc_count,
            max_blocks,
            blocks_mined: 0,
            total_nonces: 0,
            current_height: NO_HEIGHT,
        }
    }

    /// The configuration could not be fetched: try again after a while.
    pub fn on_fetch_error(&self, error: &str) -> (r: Step)
        ensures
            r.is_made_of(
                fetch_error_line(error@),
                Seq::empty(),
                FETCH_RETRY_MS,
                next_after(advance(*self, Event::FetchFailed), Event::FetchFailed),
            ),
    {
        let print = "   ".to_string().concat(C_GRAY).concat("RPC error: ").concat(error).concat(
            " — retry in 3s",
        ).concat(C_RESET).concat("\n");
        Step { print, messages: no_messages(), pause_ms: FETCH_RETRY_MS, next: Next::Fetch }
    }

    /// The configuration was fetched: search for a solution, and announce the round if it is a
    /// new one.
    pub fn on_config(&mut self, config: &EquiumConfig) -> (r: Step)
        ensures
            *final(self) == advance(*old(self), Event::Fetched(config.block_height)),
            r.is_made_of(
                announcement(*old(self), *config),
                Seq::empty(),
                0,
                next_after(*final(self), Event::Fetched(config.block_height)),
            ),
    {
        let print = if config.block_height != self.current_height {
            self.current_height = config.block_height;
            round_text(config, self.threads)
        } else {
            String::new()
        };
        Step { print, messages: no_messages(), pause_ms: 0, next: Next::Solve }
    }

    /// A search is over: count the nonces that it tried. Hands back the nonces of the session, of
    /// which only the low 64 bits are kept.
    pub fn on_search(&mut self, round_nonces: u64) -> (r: u64)
        ensures
            *final(self) == advance(*old(self), Event::Searched(round_nonces)),
            r == final(self).total_nonces,
    {
        self.total_nonces = self.total_nonces.wrapping_add(round_nonces);
        self.total_nonces
    }

    /// The search found nothing: go on after a short pause.
    pub fn on_no_solution(&self, solve_ms: u64, hashrate: &str, round_nonces: u64) -> (r: Step)
        ensures
            r.is_made_of(
                no_solution_line(solve_ms as nat, hashrate@, round_nonces as nat),
                Seq::empty(),
                NO_SOLUTION_MS,
                next_after(advance(*self, Event::NothingFound), Event::NothingFound),
            ),
    {
        let print = "     ".to_string().concat(C_GRAY).concat("· no solution").concat(
            C_RESET,
        ).concat("   ").concat(C_DIM).concat(decimal(solve_ms).as_str()).concat("ms").concat(
            C_RESET,
        ).concat("   ").concat(C_GOLD).concat(hashrate).concat(C_RESET).concat("   ").concat(
            C_DIM,
        ).concat("nonces: ").concat(decimal(round_nonces).as_str()).concat(C_RESET).concat("\n");
        Step { print, messages: no_messages(), pause_ms: NO_SOLUTION_MS, next: Next::Fetch }
    }

    /// A submission failed: tell why in short, and go on after a short pause.
    pub fn on_submit_error(&self, error: &str, solve_ms: u64, hashrate: &str) -> (r: Step)
        ensures
            r.is_made_of(
                submit_error_line(submit_reason(error@), solve_ms as nat, hashrate@),
                Seq::empty(),
                SUBMIT_RETRY_MS,
                next_after(advance(*self, Event::SubmitFailed), Event::SubmitFailed),
            ),
    {
        let print = "     ".to_string().concat(C_GRAY).concat("· ").concat(
            classify_submit_err(error),
        ).concat(C_RESET).concat("   ").concat(C_DIM).concat(decimal(solve_ms).as_str()).concat(
            "ms",
        ).concat(C_RESET).concat("   ").concat(C_GOLD).concat(hashrate).concat(C_RESET).concat(
            "\n",
        );
        Step { print, messages: no_messages(), pause_ms: SUBMIT_RETRY_MS, next: Next::Fetch }
    }

    /// A block was mined: count it, show it, and stop if it was the last one asked for.
    pub fn on_mined(
        &mut self,
        config: &EquiumConfig,
        sig: &str,
        solve_ms: u64,
        hashrate: &str,
        uptime_secs: u64,
    ) -> (r: Step)
        requires
            old(self).blocks_mined < u64::MAX,
            config.current_epoch_reward * (old(self).blocks_mined + 1) <= u64::MAX,
            sig_can_be_shown(sig@),
        ensures
            *final(self) == advance(*old(self), Event::Submitted),
            ({
                let m = final(self).mined(*config, sig@, solve_ms, hashrate@, uptime_secs);
                let next = next_after(*final(self), Event::Submitted);
                if next is Stop {
                    r.is_made_of(
                        mined_lines(m) + complete_lines(m.blocks),
                        seq![mined_message(m), complete_message(m.blocks)],
                        0,
                        next,
                    )
                } else {
                    r.is_made_of(mined_lines(m), seq![mined_message(m)], 0, next)
                }
            }),
    {
        self.blocks_mined = self.blocks_mined + 1;
        let ghost m = self.mined(*config, sig@, solve_ms, hashrate@, uptime_secs);
        let reward = format_reward(config.current_epoch_reward);
        let blocks = decimal(self.blocks_mined);
        let short = short_sig(sig);
        assert(config.current_epoch_reward * self.blocks_mined <= u64::MAX);
        let total: u64 = config.current_epoch_reward * self.blocks_mined;
        let print = "     ".to_string().concat(C_SAGE_B).concat("✓ MINED!").concat(
            C_RESET,
        ).concat("   ").concat(C_BOLD).concat("+").concat(reward.as_str()).concat(" EQM").concat(
            C_RESET,
        ).concat("   ").concat(C_DIM).concat(decimal(solve_ms).as_str()).concat("ms").concat(
            C_RESET,
        ).concat("   ").concat(C_GOLD_B).concat(hashrate).concat(C_RESET).concat("\n").concat(
            "       ",
        ).concat(C_GRAY).concat("sig ").concat(short.as_str()).concat(C_RESET).concat(
            "   ",
        ).concat(C_DIM).concat("broadcast to ").concat(
            decimal(self.rpc_count as u64).as_str(),
        ).concat(" RPCs").concat(C_RESET).concat("\n").concat("\n").concat("   ").concat(
            C_DIM,
        ).concat("total").concat(C_RESET).concat("  ").concat(C_BOLD).concat(
            format_reward(total).as_str(),
        ).concat(" EQM").concat(C_RESET).concat("   ").concat(C_DIM).concat("blocks ").concat(
            blocks.as_str(),
        ).concat(C_RESET).concat("   ").concat(C_DIM).concat("uptime ").concat(
            fmt_uptime(uptime_secs).as_str(),
        ).concat(C_RESET).concat("\n");
        assert(print@ == mined_lines(m));
        let message = "⛏ <b>MINED +".to_string().concat(reward.as_str()).concat(
            " EQM</b>\nBlock: <code>#",
        ).concat(decimal(config.block_height).as_str()).concat("</code>\nSig: <code>").concat(
            short.as_str(),
        ).concat("</code>\nTotal: <code>").concat(blocks.as_str()).concat(
            " blocks</code>\nHashrate: <code>",
        ).concat(hashrate).concat("</code>");
        assert(message@ == mined_message(m));
        let mut messages = no_messages();
        messages.push(message);
        assert(texts(messages@) =~= seq![mined_message(m)]);
        if self.max_blocks > 0 && self.blocks_mined >= self.max_blocks {
            let complete = "\n   ".to_string().concat(C_ROSE_B).concat(
                "session complete — ",
            ).concat(blocks.as_str()).concat(" blocks mined").concat(C_RESET).concat("\n");
            let farewell = "🏁 Session complete — ".to_string().concat(blocks.as_str()).concat(
                " blocks mined",
            );
            messages.push(farewell);
            assert(texts(messages@) =~= seq![mined_message(m), complete_message(m.blocks)]);
            Step {
                print: print.concat(complete.as_str()),
                messages,
                pause_ms: 0,
                next: Next::Stop,
            }
        } else {
            Step { print, messages, pause_ms: 0, next: Next::Fetch }
        }
    }
}

/// The state of a session after a series of events.
pub open spec fn after(s: Session, events: Seq<Event>) -> Session
    decreases events.len(),
{
    if events.len() == 0 {
        s
    } else {
        advance(after(s, events.drop_last()), events.last())
    }
}

/// How many blocks a series of events has mined.
pub open spec fn mined_in(events: Seq<Event>) -> nat
    decreases events.len(),
{
    if events.len() == 0 {
        0
    } else {
        mined_in(events.drop_last()) + (if events.last() is Submitted {
            1nat
        } else {
            0nat
        })
    }
}

/// The session counts exactly the blocks that were mined, and nothing else changes what was asked
/// for.
pub proof fn session_counts_the_mined_blocks(s: Session, events: Seq<Event>)
    requires
        s.blocks_mined + mined_in(events) <= u64::MAX,
    ensures
        after(s, events).blocks_mined == s.blocks_mined + mined_in(events),
        after(s, events).max_blocks == s.max_blocks,
        after(s, events).threads == s.threads,
        after(s, events).rpc_count == s.rpc_count,
    decreases events.len(),
{
    if events.len() > 0 {
        session_counts_the_mined_blocks(s, events.drop_last());
    }
}

/// A session that goes on stops exactly with the last block that was asked for; asked for none in
/// particular, it never stops.
pub proof fn session_stops_with_the_last_block(s: Session, e: Event)
    requires
        s.goes_on(),
        s.blocks_mined < u64::MAX,
    ensures
        next_after(advance(s, e), e) is Stop <==> (e is Submitted && s.max_blocks > 0
            && s.blocks_mined + 1 == s.max_blocks),
        next_after(advance(s, e), e) !is Stop ==> advance(s, e).goes_on(),
{
}

/// From its beginning to its end: a session that was asked for some blocks stops after a series of
/// events exactly when the last of them mined the last of these blocks.
pub proof fn session_mines_what_was_asked_for(s: Session, events: Seq<Event>)
    requires
        s.blocks_mined == 0,
        s.max_blocks > 0,
        events.len() > 0,
        mined_in(events) <= s.max_blocks,
    ensures
        next_after(after(s, events), events.last()) is Stop <==> (events.last() is Submitted
            && mined_in(events) == s.max_blocks),
{
    session_counts_the_mined_blocks(s, events);
}

/// What fails changes nothing: the session is as it was before.
pub proof fn failures_leave_no_trace(s: Session, e: Event)
    requires
        e is FetchFailed || e is NothingFound || e is SubmitFailed,
    ensures
        advance(s, e) == s,
        next_after(advance(s, e), e) is Fetch,
{
}

/// A new round is announced at once, and once only: until a configuration of another height is
/// fetched, fetching it again announces nothing, whatever else happens.
pub proof fn round_is_announced_once(
    s: Session,
    config: EquiumConfig,
    events: Seq<Event>,
    again: EquiumConfig,
)
    requires
        config.block_height != s.current_height,
        again.block_height == config.block_height,
        forall|i: int|
            0 <= i < events.len() && (#[trigger] events[i]) is Fetched ==> events[i]->Fetched_0
                == config.block_height,
    ensures
        announcement(s, config) == round_lines(config, s.threads as nat),
        announcement(
            after(advance(s, Event::Fetched(config.block_height)), events),
            again,
        ) == Seq::<char>::empty(),
{
    lemma_height_stays(s, config.block_height, events);
}

/// Until another height is fetched, the height that was fetched stays the current one.
proof fn lemma_height_stays(s: Session, height: u64, events: Seq<Event>)
    requires
        forall|i: int|
            0 <= i < events.len() && (#[trigger] events[i]) is Fetched ==> events[i]->Fetched_0
                == height,
    ensures
        after(advance(s, Event::Fetched(height)), events).current_height == height,
    decreases events.len(),
{
    if events.len() > 0 {
        let front = events.drop_last();
        assert forall|i: int|
            0 <= i < front.len() && (#[trigger] front[i]) is Fetched implies front[i]->Fetched_0
            == height by {
            assert(front[i] == events[i]);
        }
        lemma_height_stays(s, height, front);
        assert(events[events.len() - 1] == events.last());
    }
}

/// The words of the lines for a mined block.
spec fn mined_form() -> Form {
    Form::blank().says("     "@).says(C_SAGE_B@).says("✓ MINED!"@).says(C_RESET@).says(
        "   "@,
    ).says(C_BOLD@).says("+"@).gives().says(" EQM"@).says(C_RESET@).says("   "@).says(
        C_DIM@,
    ).gives().says("ms"@).says(C_RESET@).says("   "@).says(C_GOLD_B@).gives().says(C_RESET@).says(
        "\n"@,
    ).says("       "@).says(C_GRAY@).says("sig "@).gives().says(C_RESET@).says("   "@).says(
        C_DIM@,
    ).says("broadcast to "@).gives().says(" RPCs"@).says(C_RESET@).says("\n"@).says("\n"@).says(
        "   "@,
    ).says(C_DIM@).says("total"@).says(C_RESET@).says("  "@).says(C_BOLD@).gives().says(
        " EQM"@,
    ).says(C_RESET@).says("   "@).says(C_DIM@).says("blocks "@).gives().says(C_RESET@).says(
        "   "@,
    ).says(C_DIM@).says("uptime "@).gives().says(C_RESET@).says("\n"@)
}

/// The lines for a mined block have that form.
proof fn lemma_mined_form(m: Mined)
    ensures
        fits(
            mined_lines(m),
            mined_form(),
            seq![
                reward_text(m.reward),
                digits(m.solve_ms),
                m.hashrate,
                short_sig_text(m.sig),
                digits(m.rpc_count),
                reward_text(m.reward * m.blocks),
                digits(m.blocks),
                uptime_text(m.uptime_secs),
            ],
        ),
{
    broadcast use group_forms;

}

/// Two mined blocks are shown in the same words: the reward, the time of the search, the hash rate,
/// the signature, the endpoints, the sum, the blocks and the running time stand in them, each in
/// its place.
pub proof fn mined_blocks_are_shown_alike(a: Mined, b: Mined)
    ensures
        same_wording(
            mined_lines(a),
            seq![
                reward_text(a.reward),
                digits(a.solve_ms),
                a.hashrate,
                short_sig_text(a.sig),
                digits(a.rpc_count),
                reward_text(a.reward * a.blocks),
                digits(a.blocks),
                uptime_text(a.uptime_secs),
            ],
            mined_lines(b),
            seq![
                reward_text(b.reward),
                digits(b.solve_ms),
                b.hashrate,
                short_sig_text(b.sig),
                digits(b.rpc_count),
                reward_text(b.reward * b.blocks),
                digits(b.blocks),
                uptime_text(b.uptime_secs),
            ],
        ),
{
    lemma_mined_form(a);
    lemma_mined_form(b);
}

/// First screens are the same around the miner, the program, the threads, the number of endpoints
/// and the primary one.
pub proof fn first_screens_are_alike(
    a: (Seq<char>, Seq<char>, Seq<char>, nat, nat),
    b: (Seq<char>, Seq<char>, Seq<char>, nat, nat),
)
    ensures
        same_wording(
            boot_lines(a.0, a.1, a.2, a.3, a.4),
            seq![a.0, a.1, digits(a.3), digits(a.4), a.2],
            boot_lines(b.0, b.1, b.2, b.3, b.4),
            seq![b.0, b.1, digits(b.3), digits(b.4), b.2],
        ),
{
    broadcast use group_forms;

    let form = Form::blank().says(C_ROSE_B@).says(LOGO@).says(C_RESET@).says("\n"@).says("   "@)
        .says(C_DIM@).says("multi-threaded solana miner"@).says(C_RESET@)
        .says("                    "@).says(C_GOLD_B@).says("$EQM ⛏"@).says(C_RESET@)
        .says("\n"@).says("\n"@).says(rule_line()).says("   "@).says(C_DIM@).says("miner"@)
        .says(C_RESET@).says("      "@).says(C_TEAL@).gives().says(C_RESET@).says("\n"@)
        .says("   "@).says(C_DIM@).says("program"@).says(C_RESET@).says("    "@).says(C_TEAL@)
        .gives().says(C_RESET@).says("\n"@).says("   "@).says(C_DIM@).says("threads"@)
        .says(C_RESET@).says("    "@).says(C_GOLD_B@).gives().says(C_RESET@).says("\n"@)
        .says("   "@).says(C_DIM@).says("RPCs"@).says(C_RESET@).says("       "@).says(C_TEAL@)
        .gives().says(C_RESET@).says("\n"@).says("   "@).says(C_DIM@).says("primary"@)
        .says(C_RESET@).says("    "@).says(C_GRAY@).gives().says(C_RESET@).says("\n"@)
        .says(rule_line());
    assert(fits(
        boot_lines(a.0, a.1, a.2, a.3, a.4),
        form,
        seq![a.0, a.1, digits(a.3), digits(a.4), a.2],
    ));
    assert(fits(
        boot_lines(b.0, b.1, b.2, b.3, b.4),
        form,
        seq![b.0, b.1, digits(b.3), digits(b.4), b.2],
    ));
}

/// Beginnings are told in the same words around the wallet, the threads and the number of
/// endpoints.
pub proof fn beginnings_are_told_alike(a: (Seq<char>, nat, nat), b: (Seq<char>, nat, nat))
    ensures
        same_wording(
            started_text(a.0, a.1, a.2),
            seq![a.0, digits(a.1), digits(a.2)],
            started_text(b.0, b.1, b.2),
            seq![b.0, digits(b.1), digits(b.2)],
        ),
{
    broadcast use group_forms;

    let form = Form::blank().says("🚀 <b>EQM Miner Pro started</b>\nWallet: <code>"@).gives()
        .says("</code>\nThreads: <code>"@).gives().says("</code>\nRPCs: <code>"@).gives()
        .says("</code>"@);
    assert(fits(started_text(a.0, a.1, a.2), form, seq![a.0, digits(a.1), digits(a.2)]));
    assert(fits(started_text(b.0, b.1, b.2), form, seq![b.0, digits(b.1), digits(b.2)]));
}

/// Failed fetches are shown in the same words around the error.
pub proof fn failed_fetches_are_shown_alike(a: Seq<char>, b: Seq<char>)
    ensures
        same_wording(
            fetch_error_line(a),
            seq![a],
            fetch_error_line(b),
            seq![b],
        ),
{
    broadcast use group_forms;

    let form = Form::blank().says("   "@).says(C_GRAY@).says("RPC error: "@).gives()
        .says(" — retry in 3s"@).says(C_RESET@).says("\n"@);
    assert(fits(fetch_error_line(a), form, seq![a]));
    assert(fits(fetch_error_line(b), form, seq![b]));
}

/// Rounds are announced in the same words around the height, the reward, the first four bytes of the
/// target and the threads.
pub proof fn rounds_are_announced_alike(a: (EquiumConfig, nat), b: (EquiumConfig, nat))
    ensures
        same_wording(
            round_lines(a.0, a.1),
            seq![
                digits(a.0.block_height as nat),
                reward_text(a.0.current_epoch_reward as nat),
                hex_text(a.0.current_target@.subrange(0, 4)),
                digits(a.1),
            ],
            round_lines(b.0, b.1),
            seq![
                digits(b.0.block_height as nat),
                reward_text(b.0.current_epoch_reward as nat),
                hex_text(b.0.current_target@.subrange(0, 4)),
                digits(b.1),
            ],
        ),
{
    broadcast use group_forms;

    let form = Form::blank().says("\n"@).says("   "@).says(C_BOLD@).says("round #"@).gives()
        .says(C_RESET@).says("   "@).says(C_DIM@).says("reward "@).gives().says(" EQM"@)
        .says(C_RESET@).says("   "@).says(C_DIM@).says("target 0x"@).gives().says("…"@)
        .says(C_RESET@).says("   "@).says(C_GOLD@).says("threads "@).gives().says(C_RESET@)
        .says("\n"@).says(rule_line());
    assert(fits(
        round_lines(a.0, a.1),
        form,
        seq![
            digits(a.0.block_height as nat),
            reward_text(a.0.current_epoch_reward as nat),
            hex_text(a.0.current_target@.subrange(0, 4)),
            digits(a.1),
        ],
    ));
    assert(fits(
        round_lines(b.0, b.1),
        form,
        seq![
            digits(b.0.block_height as nat),
            reward_text(b.0.current_epoch_reward as nat),
            hex_text(b.0.current_target@.subrange(0, 4)),
            digits(b.1),
        ],
    ));
}

/// Searches that found nothing are shown in the same words around the milliseconds, the hash rate
/// and the nonces.
pub proof fn empty_searches_are_shown_alike(a: (nat, Seq<char>, nat), b: (nat, Seq<char>, nat))
    ensures
        same_wording(
            no_solution_line(a.0, a.1, a.2),
            seq![digits(a.0), a.1, digits(a.2)],
            no_solution_line(b.0, b.1, b.2),
            seq![digits(b.0), b.1, digits(b.2)],
        ),
{
    broadcast use group_forms;

    let form = Form::blank().says("     "@).says(C_GRAY@).says("· no solution"@).says(C_RESET@)
        .says("   "@).says(C_DIM@).gives().says("ms"@).says(C_RESET@).says("   "@)
        .says(C_GOLD@).gives().says(C_RESET@).says("   "@).says(C_DIM@).says("nonces: "@)
        .gives().says(C_RESET@).says("\n"@);
    assert(fits(no_solution_line(a.0, a.1, a.2), form, seq![digits(a.0), a.1, digits(a.2)]));
    assert(fits(no_solution_line(b.0, b.1, b.2), form, seq![digits(b.0), b.1, digits(b.2)]));
}

/// Failed submissions are shown in the same words around the reason, the milliseconds and the hash
/// rate.
pub proof fn failed_submissions_are_shown_alike(
    a: (Seq<char>, nat, Seq<char>),
    b: (Seq<char>, nat, Seq<char>),
)
    ensures
        same_wording(
            submit_error_line(a.0, a.1, a.2),
            seq![a.0, digits(a.1), a.2],
            submit_error_line(b.0, b.1, b.2),
            seq![b.0, digits(b.1), b.2],
        ),
{
    broadcast use group_forms;

    let form = Form::blank().says("     "@).says(C_GRAY@).says("· "@).gives().says(C_RESET@)
        .says("   "@).says(C_DIM@).gives().says("ms"@).says(C_RESET@).says("   "@)
        .says(C_GOLD@).gives().says(C_RESET@).says("\n"@);
    assert(fits(submit_error_line(a.0, a.1, a.2), form, seq![a.0, digits(a.1), a.2]));
    assert(fits(submit_error_line(b.0, b.1, b.2), form, seq![b.0, digits(b.1), b.2]));
}

/// Mined blocks are told in the same words around the reward, the height, the signature, the blocks
/// and the hash rate.
pub proof fn mined_blocks_are_told_alike(a: Mined, b: Mined)
    ensures
        same_wording(
            mined_message(a),
            seq![
                reward_text(a.reward),
                digits(a.height),
                short_sig_text(a.sig),
                digits(a.blocks),
                a.hashrate,
            ],
            mined_message(b),
            seq![
                reward_text(b.reward),
                digits(b.height),
                short_sig_text(b.sig),
                digits(b.blocks),
                b.hashrate,
            ],
        ),
{
    broadcast use group_forms;

    let form = Form::blank().says("⛏ <b>MINED +"@).gives().says(" EQM</b>\nBlock: <code>#"@).gives()
        .says("</code>\nSig: <code>"@).gives().says("</code>\nTotal: <code>"@).gives()
        .says(" blocks</code>\nHashrate: <code>"@).gives().says("</code>"@);
    assert(fits(
        mined_message(a),
        form,
        seq![
            reward_text(a.reward),
            digits(a.height),
            short_sig_text(a.sig),
            digits(a.blocks),
            a.hashrate,
        ],
    ));
    assert(fits(
        mined_message(b),
        form,
        seq![
            reward_text(b.reward),
            digits(b.height),
            short_sig_text(b.sig),
            digits(b.blocks),
            b.hashrate,
        ],
    ));
}

/// Ends of sessions are shown in the same words around the blocks.
pub proof fn ends_are_shown_alike(a: nat, b: nat)
    ensures
        same_wording(
            complete_lines(a),
            seq![digits(a)],
            complete_lines(b),
            seq![digits(b)],
        ),
{
    broadcast use group_forms;

    let form = Form::blank().says("\n   "@).says(C_ROSE_B@).says("session complete — "@).gives()
        .says(" blocks mined"@).says(C_RESET@).says("\n"@);
    assert(fits(complete_lines(a), form, seq![digits(a)]));
    assert(fits(complete_lines(b), form, seq![digits(b)]));
}

/// Ends of sessions are told in the same words around the blocks.
pub proof fn ends_are_told_alike(a: nat, b: nat)
    ensures
        same_wording(
            complete_message(a),
            seq![digits(a)],
            complete_message(b),
            seq![digits(b)],
        ),
{
    broadcast use group_forms;

    let form = Form::blank().says("🏁 Session complete — "@).gives().says(" blocks mined"@);
    assert(fits(complete_message(a), form, seq![digits(a)]));
    assert(fits(complete_message(b), form, seq![digits(b)]));
}

/// A signature of at most twelve bytes is shown whole; of a longer one the first six bytes and the
/// last six are shown, around the mark.
pub proof fn signature_is_shown_by_its_ends(s: Seq<char>)
    requires
        sig_can_be_shown(s),
    ensures
        encode_utf8(s).len() <= 12 ==> short_sig_text(s) == s,
        encode_utf8(s).len() > 12 ==> encode_utf8(short_sig_text(s)) == encode_utf8(s).take(6)
            + encode_utf8("…"@) + encode_utf8(s).skip(encode_utf8(s).len() - 6),
{
    if encode_utf8(s).len() > 12 {
        shortened_text_keeps_the_ends(s, 6, "…"@);
    }
}

/// The block that is shown is the one that was mined: every value is that of the configuration, of
/// the search, or of the session.
pub proof fn shown_block_is_the_mined_one(
    s: Session,
    config: EquiumConfig,
    sig: Seq<char>,
    solve_ms: u64,
    hashrate: Seq<char>,
    uptime_secs: u64,
)
    ensures
        ({
            let m = s.mined(config, sig, solve_ms, hashrate, uptime_secs);
            &&& m.reward == config.current_epoch_reward
            &&& m.height == config.block_height
            &&& m.sig == sig
            &&& m.solve_ms == solve_ms
            &&& m.hashrate == hashrate
            &&& m.uptime_secs == uptime_secs
            &&& m.blocks == s.blocks_mined
            &&& m.rpc_count == s.rpc_count
        }),
{
}

/// A step that is made of some parts holds each of them whole: the text, every message in its order,
/// the pause and what comes next.
pub proof fn step_holds_its_parts(
    step: Step,
    print: Seq<char>,
    messages: Seq<Seq<char>>,
    pause_ms: u64,
    next: Next,
)
    requires
        step.is_made_of(print, messages, pause_ms, next),
    ensures
        step.print@ == print,
        step.messages@.len() == messages.len(),
        forall|i: int| 0 <= i < messages.len() ==> #[trigger] messages[i] == step.messages@[i]@,
        step.pause_ms == pause_ms,
        step.next == next,
{
    assert forall|i: int| 0 <= i < messages.len() implies #[trigger] messages[i]
        == step.messages@[i]@ by {
        assert(texts(step.messages@)[i] == step.messages@[i]@);
    }
}

/// How many nonces a series of events has tried.
pub open spec fn tried_in(events: Seq<Event>) -> nat
    decreases events.len(),
{
    if events.len() == 0 {
        0
    } else {
        tried_in(events.drop_last()) + (match events.last() {
            Event::Searched(nonces) => nonces as nat,
            _ => 0nat,
        })
    }
}

/// The session sums up exactly the nonces that were tried, of which it keeps the low 64 bits.
pub proof fn session_sums_the_nonces(s: Session, events: Seq<Event>)
    ensures
        after(s, events).total_nonces == (s.total_nonces + tried_in(events))
            % 0x1_0000_0000_0000_0000,
    decreases events.len(),
{
    if events.len() > 0 {
        session_sums_the_nonces(s, events.drop_last());
    }
}

/// A configuration that was fetched is searched, whatever happened before; every other event leads to
/// the next fetch, or to the end where a mined block was the last one.
pub proof fn fetched_round_is_searched(s: Session, e: Event)
    ensures
        next_after(advance(s, e), e) is Solve <==> e is Fetched,
        next_after(advance(s, e), e) is Stop ==> e is Submitted,
        e matches Event::Fetched(height) ==> advance(s, e).current_height == height,
        !(e is Fetched) ==> advance(s, e).current_height == s.current_height,
        !(e is Searched) ==> advance(s, e).total_nonces == s.total_nonces,
        !(e is Submitted) ==> advance(s, e).blocks_mined == s.blocks_mined,
{
}

/// A session goes on exactly as long as blocks are missing, or none were asked for.
pub proof fn session_goes_on_while_blocks_are_missing(s: Session)
    ensures
        s.max_blocks == 0 ==> s.goes_on(),
        s.max_blocks > 0 ==> (s.goes_on() <==> s.blocks_mined < s.max_blocks),
{
}

} // verus!
