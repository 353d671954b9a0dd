//! The terminal log: what each event looks like on the screen.
//!
//! Every method hands back the text to print, line ends included. The lines that carry the time
//! of day are also offered as functions of that time.

use vstd::prelude::*;
use vstd::string::*;
use vstd::utf8::{encode_utf8, is_ascii_chars, is_ascii_chars_encode_utf8};

use crate::clock::{chrono_lite_time, clock_text, fmt_uptime, uptime_text};
use crate::codec::{hex_encode, hex_text};
use crate::form::{fits, group_forms, same_wording, Form};
use crate::reward::{format_reward, reward_text};
use crate::style::{
    rule_line, rule_text, C_BOLD, C_DIM, C_GOLD, C_GOLD_B, C_GRAY, C_RED, C_RESET, C_ROSE_B,
    C_SAGE_B, C_TEAL, C_YELLOW, LOGO,
};
use crate::text::{
    align_left, ascii_is_shortened_by_characters, can_shorten, decimal, digits, left_aligned,
    shorten, shortened, shortened_text_keeps_the_ends,
};

verus! {

/// Bytes of a signature that are kept at each end.
pub const SIG_ENDS: usize = 6;

/// A signature in the log: short ones whole, of longer ones both ends.
pub open spec fn short_sig_text(s: Seq<char>) -> Seq<char> {
    if encode_utf8(s).len() <= 12 {
        s
    } else {
        shortened(s, 6, "..."@)
    }
}

/// Whether a signature is short, or can be cut at both ends.
pub open spec fn sig_can_be_shown(s: Seq<char>) -> bool {
    encode_utf8(s).len() > 12 ==> can_shorten(s, 6)
}

/// Shortens a signature for the log.
pub fn short_sig(s: &str) -> (r: String)
    requires
        sig_can_be_shown(s@),
    ensures
        r@ == short_sig_text(s@),
{
    if s.as_bytes().len() <= 12 {
        return s.to_string();
    }
    shorten(s, SIG_ENDS, "...")
}

/// Writes an amount of base units in EQM.
pub fn format_reward_base(base_units: u64) -> (r: String)
    ensures
        r@ == reward_text(base_units as nat),
{
    format_reward(base_units)
}

/// The time of day that opens a line.
pub open spec fn stamp(time: Seq<char>) -> Seq<char> {
    "     "@ + C_GRAY@ + "["@ + time + "]"@ + C_RESET@ + "  "@
}

/// Writes the time of day that opens a line.
fn stamp_text(time: &str) -> (r: String)
    ensures
        r@ == stamp(time@),
{
    "     ".to_string().concat(C_GRAY).concat("[").concat(time).concat("]").concat(C_RESET).concat(
        "  ",
    )
}

/// The line for a round without a solution.
pub open spec fn no_solution_line(
    time: Seq<char>,
    solve_ms: nat,
    hashrate: Seq<char>,
) -> Seq<char> {
    stamp(time) + C_DIM@ + "no solution"@ + C_RESET@ + "  "@ + C_DIM@ + digits(solve_ms) + "ms"@
        + C_RESET@ + "  "@ + C_GOLD@ + hashrate + C_RESET@ + "\n"@
}

/// The line for a round without a solution, at a given time.
pub fn no_solution_at(time: &str, solve_ms: u64, hashrate: &str) -> (r: String)
    ensures
        r@ == no_solution_line(time@, solve_ms as nat, hashrate@),
{
    stamp_text(time).concat(C_DIM).concat("no solution").concat(C_RESET).concat("  ").concat(
        C_DIM,
    ).concat(decimal(solve_ms).as_str()).concat("ms").concat(C_RESET).concat("  ").concat(
        C_GOLD,
    ).concat(hashrate).concat(C_RESET).concat("\n")
}

/// The lines for a mined block.
pub open spec fn mined_lines(
    time: Seq<char>,
    reward: Seq<char>,
    solve_ms: nat,
    hashrate: Seq<char>,
    sig: Seq<char>,
    rpc_count: nat,
) -> Seq<char> {
    stamp(time) + C_SAGE_B@ + "v MINED"@ + C_RESET@ + "  "@ + C_BOLD@ + "+"@ + reward + " EQM"@
        + C_RESET@ + "  "@ + C_DIM@ + digits(solve_ms) + "ms"@ + C_RESET@ + "  "@ + C_GOLD_B@
        + hashrate + C_RESET@ + "\n"@ + "       "@ + C_GRAY@ + "sig "@ + short_sig_text(sig)
        + "  broadcast "@ + digits(rpc_count) + "x"@ + C_RESET@ + "\n"@
}

/// The lines for a mined block, at a given time.
pub fn mined_at(
    time: &str,
    reward: &str,
    solve_ms: u64,
    hashrate: &str,
    sig: &str,
    rpc_count: usize,
) -> (r: String)
    requires
        sig_can_be_shown(sig@),
    ensures
        r@ == mined_lines(
            time@,
            reward@,
            solve_ms as nat,
            hashrate@,
            sig@,
            rpc_count as nat,
        ),
{
    stamp_text(time).concat(C_SAGE_B).concat("v MINED").concat(C_RESET).concat("  ").concat(
        C_BOLD,
    ).concat("+").concat(reward).concat(" EQM").concat(C_RESET).concat("  ").concat(C_DIM).concat(
        decimal(solve_ms).as_str(),
    ).concat("ms").concat(C_RESET).concat("  ").concat(C_GOLD_B).concat(hashrate).concat(
        C_RESET,
    ).concat("\n").concat("       ").concat(C_GRAY).concat("sig ").concat(
        short_sig(sig).as_str(),
    ).concat("  broadcast ").concat(decimal(rpc_count as u64).as_str()).concat("x").concat(
        C_RESET,
    ).concat("\n")
}

/// The line for a warning.
pub open spec fn warn_line(time: Seq<char>, msg: Seq<char>) -> Seq<char> {
    stamp(time) + C_YELLOW@ + "! "@ + msg + C_RESET@ + "\n"@
}

/// The line for a warning, at a given time.
pub fn warn_at(time: &str, msg: &str) -> (r: String)
    ensures
        r@ == warn_line(time@, msg@),
{
    stamp_text(time).concat(C_YELLOW).concat("! ").concat(msg).concat(C_RESET).concat("\n")
}

/// The line for an error.
pub open spec fn error_line(time: Seq<char>, msg: Seq<char>) -> Seq<char> {
    stamp(time) + C_RED@ + "x "@ + msg + C_RESET@ + "\n"@
}

/// The line for an error, at a given time.
pub fn error_at(time: &str, msg: &str) -> (r: String)
    ensures
        r@ == error_line(time@, msg@),
{
    stamp_text(time).concat(C_RED).concat("x ").concat(msg).concat(C_RESET).concat("\n")
}

/// The line for a confirmed transaction.
pub open spec fn receipt_confirmed_line(
    time: Seq<char>,
    sig: Seq<char>,
    block: nat,
) -> Seq<char> {
    stamp(time) + C_SAGE_B@ + "v TX confirmed"@ + C_RESET@ + "  "@ + C_DIM@ + "block "@ + digits(
        block,
    ) + C_RESET@ + "  "@ + C_GRAY@ + "sig "@ + short_sig_text(sig) + C_RESET@ + "\n"@
}

/// The line for a confirmed transaction, at a given time.
pub fn receipt_confirmed_at(time: &str, sig: &str, block: u64) -> (r: String)
    requires
        sig_can_be_shown(sig@),
    ensures
        r@ == receipt_confirmed_line(time@, sig@, block as nat),
{
    stamp_text(time).concat(C_SAGE_B).concat("v TX confirmed").concat(C_RESET).concat(
        "  ",
    ).concat(C_DIM).concat("block ").concat(decimal(block).as_str()).concat(C_RESET).concat(
        "  ",
    ).concat(C_GRAY).concat("sig ").concat(short_sig(sig).as_str()).concat(C_RESET).concat("\n")
}

/// The line for a reverted transaction.
pub open spec fn receipt_failed_line(time: Seq<char>, sig: Seq<char>) -> Seq<char> {
    stamp(time) + C_RED@ + "x TX reverted"@ + C_RESET@ + "  "@ + C_GRAY@ + "sig "@
        + short_sig_text(sig) + C_RESET@ + "\n"@
}

/// The line for a reverted transaction, at a given time.
pub fn receipt_failed_at(time: &str, sig: &str) -> (r: String)
    requires
        sig_can_be_shown(sig@),
    ensures
        r@ == receipt_failed_line(time@, sig@),
{
    stamp_text(time).concat(C_RED).concat("x TX reverted").concat(C_RESET).concat("  ").concat(
        C_GRAY,
    ).concat("sig ").concat(short_sig(sig).as_str()).concat(C_RESET).concat("\n")
}

/// The line for a dropped transaction.
pub open spec fn receipt_dropped_line(time: Seq<char>, sig: Seq<char>) -> Seq<char> {
    stamp(time) + C_YELLOW@ + "! TX dropped"@ + C_RESET@ + "  "@ + C_GRAY@ + "sig "@
        + short_sig_text(sig) + C_RESET@ + "\n"@
}

/// The line for a dropped transaction, at a given time.
pub fn receipt_dropped_at(time: &str, sig: &str) -> (r: String)
    requires
        sig_can_be_shown(sig@),
    ensures
        r@ == receipt_dropped_line(time@, sig@),
{
    stamp_text(time).concat(C_YELLOW).concat("! TX dropped").concat(C_RESET).concat("  ").concat(
        C_GRAY,
    ).concat("sig ").concat(short_sig(sig).as_str()).concat(C_RESET).concat("\n")
}

/// The logo, and the author below it.
pub open spec fn banner_lines(author: Seq<char>) -> Seq<char> {
    C_ROSE_B@ + LOGO@ + C_RESET@ + "\n"@ + "   "@ + C_DIM@ + "multi-threaded solana miner"@
        + C_RESET@ + "       "@ + C_GRAY@ + "by "@ + author + C_RESET@ + "       "@ + C_GOLD_B@
        + "$EQM"@ + C_RESET@ + "\n"@ + "\n"@
}

/// The line for a named value.
pub open spec fn info_line(key: Seq<char>, value: Seq<char>) -> Seq<char> {
    "   "@ + C_DIM@ + left_aligned(key, 10) + C_RESET@ + "  "@ + C_TEAL@ + value + C_RESET@
        + "\n"@
}

/// The head of a round: its height, its reward and the first four bytes of its target.
pub open spec fn round_lines(height: nat, reward: Seq<char>, target: Seq<u8>) -> Seq<char> {
    "   "@ + C_BOLD@ + "round #"@ + digits(height) + C_RESET@ + "   "@ + C_DIM@ + "reward "@
        + reward + " EQM"@ + C_RESET@ + "   "@ + C_DIM@ + "target 0x"@ + hex_text(
        target.subrange(0, 4),
    ) + "..."@ + C_RESET@ + "\n"@ + rule_line()
}

/// The sum of a session.
pub open spec fn total_lines(blocks: nat, total_reward: nat, session_secs: nat) -> Seq<char> {
    "   "@ + C_DIM@ + "total"@ + C_RESET@ + "  "@ + C_BOLD@ + reward_text(total_reward)
        + " EQM"@ + C_RESET@ + "  "@ + C_DIM@ + "blocks "@ + digits(blocks) + C_RESET@ + "  "@
        + C_DIM@ + "uptime "@ + uptime_text(session_secs) + C_RESET@ + "\n"@ + "\n"@
}

/// Writes the log lines of one miner.
#[derive(Debug)]
pub struct Logger {
    pub author: String,
}

impl Logger {
    /// A logger whose banner names `author`.
    pub fn new(author: &str) -> (r: Self)
        ensures
            r.author@ == author@,
    {
        Self { author: author.to_string() }
    }

    /// The time of day now, in gray.
    pub fn timestamp(&self) -> (r: String)
        ensures
            exists|secs: u64| r@ == C_GRAY@ + #[trigger] clock_text(secs as nat) + C_RESET@,
    {
        let now = chrono_lite_time();
        C_GRAY.to_string().concat(now.as_str()).concat(C_RESET)
    }

    /// The logo, and the author below it.
    pub fn banner(&self) -> (r: String)
        ensures
            r@ == banner_lines(self.author@),
    {
        C_ROSE_B.to_string().concat(LOGO).concat(C_RESET).concat("\n").concat("   ").concat(
            C_DIM,
        ).concat("multi-threaded solana miner").concat(C_RESET).concat("       ").concat(
            C_GRAY,
        ).concat("by ").concat(self.author.as_str()).concat(C_RESET).concat("       ").concat(
            C_GOLD_B,
        ).concat("$EQM").concat(C_RESET).concat("\n").concat("\n")
    }

    /// A separating line.
    pub fn rule(&self) -> (r: String)
        ensures
            r@ == rule_line(),
    {
        rule_text()
    }

    /// A named value.
    pub fn info(&self, key: &str, value: &str) -> (r: String)
        ensures
            r@ == info_line(key@, value@),
    {
        "   ".to_string().concat(C_DIM).concat(align_left(key, 10).as_str()).concat(
            C_RESET,
        ).concat("  ").concat(C_TEAL).concat(value).concat(C_RESET).concat("\n")
    }

    /// The head of a round.
    pub fn round(&self, height: u64, reward: &str, target: &[u8; 32]) -> (r: String)
        ensures
            r@ == round_lines(height as nat, reward@, target@),
    {
        "   ".to_string().concat(C_BOLD).concat("round #").concat(
            decimal(height).as_str(),
        ).concat(C_RESET).concat("   ").concat(C_DIM).concat("reward ").concat(reward).concat(
            " EQM",
        ).concat(C_RESET).concat("   ").concat(C_DIM).concat("target 0x").concat(
            hex_encode(&target[0..4]).as_str(),
        ).concat("...").concat(C_RESET).concat("\n").concat(rule_text().as_str())
    }

    /// A round without a solution.
    pub fn no_solution(&self, solve_ms: u64, hashrate: &str) -> (r: String)
        ensures
            exists|secs: u64|
                r@ == no_solution_line(
                    #[trigger] clock_text(secs as nat),
                    solve_ms as nat,
                    hashrate@,
                ),
    {
        no_solution_at(chrono_lite_time().as_str(), solve_ms, hashrate)
    }

    /// A mined block.
    pub fn mined(
        &self,
        reward: &str,
        solve_ms: u64,
        hashrate: &str,
        sig: &str,
        rpc_count: usize,
    ) -> (r: String)
        requires
            sig_can_be_shown(sig@),
        ensures
            exists|secs: u64|
                r@ == mined_lines(
                    #[trigger] clock_text(secs as nat),
                    reward@,
                    solve_ms as nat,
                    hashrate@,
                    sig@,
                    rpc_count as nat,
                ),
    {
        mined_at(chrono_lite_time().as_str(), reward, solve_ms, hashrate, sig, rpc_count)
    }

    /// The sum of a session.
    pub fn total(&self, blocks: u64, total_reward: u64, session_secs: u64) -> (r: String)
        ensures
            r@ == total_lines(blocks as nat, total_reward as nat, session_secs as nat),
    {
        "   ".to_string().concat(C_DIM).concat("total").concat(C_RESET).concat("  ").concat(
            C_BOLD,
        ).concat(format_reward_base(total_reward).as_str()).concat(" EQM").concat(
            C_RESET,
        ).concat("  ").concat(C_DIM).concat("blocks ").concat(decimal(blocks).as_str()).concat(
            C_RESET,
        ).concat("  ").concat(C_DIM).concat("uptime ").concat(
            fmt_uptime(session_secs).as_str(),
        ).concat(C_RESET).concat("\n").concat("\n")
    }

    /// A warning.
    pub fn warn(&self, msg: &str) -> (r: String)
        ensures
            exists|secs: u64| r@ == warn_line(#[trigger] clock_text(secs as nat), msg@),
    {
        warn_at(chrono_lite_time().as_str(), msg)
    }

    /// An error.
    pub fn error(&self, msg: &str) -> (r: String)
        ensures
            exists|secs: u64| r@ == error_line(#[trigger] clock_text(secs as nat), msg@),
    {
        error_at(chrono_lite_time().as_str(), msg)
    }

    /// A transaction that was confirmed.
    pub fn receipt_confirmed(&self, sig: &str, block: u64) -> (r: String)
        requires
            sig_can_be_shown(sig@),
        ensures
            exists|secs: u64|
                r@ == receipt_confirmed_line(
                    #[trigger] clock_text(secs as nat),
                    sig@,
                    block as nat,
                ),
    {
        receipt_confirmed_at(chrono_lite_time().as_str(), sig, block)
    }

    /// A transaction that was reverted.
    pub fn receipt_failed(&self, sig: &str) -> (r: String)
        requires
            sig_can_be_shown(sig@),
        ensures
            exists|secs: u64|
                r@ == receipt_failed_line(#[trigger] clock_text(secs as nat), sig@),
    {
        receipt_failed_at(chrono_lite_time().as_str(), sig)
    }

    /// A transaction that never arrived.
    pub fn receipt_dropped(&self, sig: &str) -> (r: String)
        requires
            sig_can_be_shown(sig@),
        ensures
            exists|secs: u64|
                r@ == receipt_dropped_line(#[trigger] clock_text(secs as nat), sig@),
    {
        receipt_dropped_at(chrono_lite_time().as_str(), sig)
    }
}

/// Rounds without a solution are logged in the same words around the time, the milliseconds and
/// the hash rate.
pub proof fn searches_without_solution_are_logged_alike(
    a: (Seq<char>, nat, Seq<char>),
    b: (Seq<char>, nat, Seq<char>),
)
    ensures
        same_wording(
            no_solution_line(a.0, a.1, a.2),
            seq![a.0, digits(a.1), a.2],
            no_solution_line(b.0, b.1, b.2),
            seq![b.0, digits(b.1), b.2],
        ),
{
    broadcast use group_forms;

    let form = Form::blank().says("     "@).says(C_GRAY@).says("["@).gives().says("]"@)
        .says(C_RESET@).says("  "@).says(C_DIM@).says("no solution"@).says(C_RESET@)
        .says("  "@).says(C_DIM@).gives().says("ms"@).says(C_RESET@).says("  "@).says(C_GOLD@)
        .gives().says(C_RESET@).says("\n"@);
    assert(fits(no_solution_line(a.0, a.1, a.2), form, seq![a.0, digits(a.1), a.2]));
    assert(fits(no_solution_line(b.0, b.1, b.2), form, seq![b.0, digits(b.1), b.2]));
}

/// Mined blocks are logged in the same words around the time, the reward, the milliseconds, the
/// hash rate, the signature and the number of endpoints.
pub proof fn mined_blocks_are_logged_alike(
    a: (Seq<char>, Seq<char>, nat, Seq<char>, Seq<char>, nat),
    b: (Seq<char>, Seq<char>, nat, Seq<char>, Seq<char>, nat),
)
    ensures
        same_wording(
            mined_lines(a.0, a.1, a.2, a.3, a.4, a.5),
            seq![a.0, a.1, digits(a.2), a.3, short_sig_text(a.4), digits(a.5)],
            mined_lines(b.0, b.1, b.2, b.3, b.4, b.5),
            seq![b.0, b.1, digits(b.2), b.3, short_sig_text(b.4), digits(b.5)],
        ),
{
    broadcast use group_forms;

    let form = Form::blank().says("     "@).says(C_GRAY@).says("["@).gives().says("]"@)
        .says(C_RESET@).says("  "@).says(C_SAGE_B@).says("v MINED"@).says(C_RESET@)
        .says("  "@).says(C_BOLD@).says("+"@).gives().says(" EQM"@).says(C_RESET@).says("  "@)
        .says(C_DIM@).gives().says("ms"@).says(C_RESET@).says("  "@).says(C_GOLD_B@).gives()
        .says(C_RESET@).says("\n"@).says("       "@).says(C_GRAY@).says("sig "@).gives()
        .says("  broadcast "@).gives().says("x"@).says(C_RESET@).says("\n"@);
    assert(fits(
        mined_lines(a.0, a.1, a.2, a.3, a.4, a.5),
        form,
        seq![a.0, a.1, digits(a.2), a.3, short_sig_text(a.4), digits(a.5)],
    ));
    assert(fits(
        mined_lines(b.0, b.1, b.2, b.3, b.4, b.5),
        form,
        seq![b.0, b.1, digits(b.2), b.3, short_sig_text(b.4), digits(b.5)],
    ));
}

/// Warnings are logged in the same words around the time and the message.
pub proof fn warnings_are_logged_alike(a: (Seq<char>, Seq<char>), b: (Seq<char>, Seq<char>))
    ensures
        same_wording(
            warn_line(a.0, a.1),
            seq![a.0, a.1],
            warn_line(b.0, b.1),
            seq![b.0, b.1],
        ),
{
    broadcast use group_forms;

    let form = Form::blank().says("     "@).says(C_GRAY@).says("["@).gives().says("]"@)
        .says(C_RESET@).says("  "@).says(C_YELLOW@).says("! "@).gives().says(C_RESET@)
        .says("\n"@);
    assert(fits(warn_line(a.0, a.1), form, seq![a.0, a.1]));
    assert(fits(warn_line(b.0, b.1), form, seq![b.0, b.1]));
}

/// Errors are logged in the same words around the time and the message.
pub proof fn errors_are_logged_alike(a: (Seq<char>, Seq<char>), b: (Seq<char>, Seq<char>))
    ensures
        same_wording(
            error_line(a.0, a.1),
            seq![a.0, a.1],
            error_line(b.0, b.1),
            seq![b.0, b.1],
        ),
{
    broadcast use group_forms;

    let form = Form::blank().says("     "@).says(C_GRAY@).says("["@).gives().says("]"@)
        .says(C_RESET@).says("  "@).says(C_RED@).says("x "@).gives().says(C_RESET@)
        .says("\n"@);
    assert(fits(error_line(a.0, a.1), form, seq![a.0, a.1]));
    assert(fits(error_line(b.0, b.1), form, seq![b.0, b.1]));
}

/// Confirmed transactions are logged in the same words around the time, the block and the
/// signature.
pub proof fn confirmations_are_logged_alike(
    a: (Seq<char>, Seq<char>, nat),
    b: (Seq<char>, Seq<char>, nat),
)
    ensures
        same_wording(
            receipt_confirmed_line(a.0, a.1, a.2),
            seq![a.0, digits(a.2), short_sig_text(a.1)],
            receipt_confirmed_line(b.0, b.1, b.2),
            seq![b.0, digits(b.2), short_sig_text(b.1)],
        ),
{
    broadcast use group_forms;

    let form = Form::blank().says("     "@).says(C_GRAY@).says("["@).gives().says("]"@)
        .says(C_RESET@).says("  "@).says(C_SAGE_B@).says("v TX confirmed"@).says(C_RESET@)
        .says("  "@).says(C_DIM@).says("block "@).gives().says(C_RESET@).says("  "@)
        .says(C_GRAY@).says("sig "@).gives().says(C_RESET@).says("\n"@);
    assert(fits(
        receipt_confirmed_line(a.0, a.1, a.2),
        form,
        seq![a.0, digits(a.2), short_sig_text(a.1)],
    ));
    assert(fits(
        receipt_confirmed_line(b.0, b.1, b.2),
        form,
        seq![b.0, digits(b.2), short_sig_text(b.1)],
    ));
}

/// Reverted transactions are logged in the same words around the time and the signature.
pub proof fn reverts_are_logged_alike(a: (Seq<char>, Seq<char>), b: (Seq<char>, Seq<char>))
    ensures
        same_wording(
            receipt_failed_line(a.0, a.1),
            seq![a.0, short_sig_text(a.1)],
            receipt_failed_line(b.0, b.1),
            seq![b.0, short_sig_text(b.1)],
        ),
{
    broadcast use group_forms;

    let form = Form::blank().says("     "@).says(C_GRAY@).says("["@).gives().says("]"@)
        .says(C_RESET@).says("  "@).says(C_RED@).says("x TX reverted"@).says(C_RESET@)
        .says("  "@).says(C_GRAY@).says("sig "@).gives().says(C_RESET@).says("\n"@);
    assert(fits(receipt_failed_line(a.0, a.1), form, seq![a.0, short_sig_text(a.1)]));
    assert(fits(receipt_failed_line(b.0, b.1), form, seq![b.0, short_sig_text(b.1)]));
}

/// Dropped transactions are logged in the same words around the time and the signature.
pub proof fn drops_are_logged_alike(a: (Seq<char>, Seq<char>), b: (Seq<char>, Seq<char>))
    ensures
        same_wording(
            receipt_dropped_line(a.0, a.1),
            seq![a.0, short_sig_text(a.1)],
            receipt_dropped_line(b.0, b.1),
            seq![b.0, short_sig_text(b.1)],
        ),
{
    broadcast use group_forms;

    let form = Form::blank().says("     "@).says(C_GRAY@).says("["@).gives().says("]"@)
        .says(C_RESET@).says("  "@).says(C_YELLOW@).says("! TX dropped"@).says(C_RESET@)
        .says("  "@).says(C_GRAY@).says("sig "@).gives().says(C_RESET@).says("\n"@);
    assert(fits(receipt_dropped_line(a.0, a.1), form, seq![a.0, short_sig_text(a.1)]));
    assert(fits(receipt_dropped_line(b.0, b.1), form, seq![b.0, short_sig_text(b.1)]));
}

/// Banners are the same around the author.
pub proof fn banners_are_alike(a: Seq<char>, b: Seq<char>)
    ensures
        same_wording(
            banner_lines(a),
            seq![a],
            banner_lines(b),
            seq![b],
        ),
{
    broadcast use group_forms;

    let form = Form::blank().says(C_ROSE_B@).says(LOGO@).says(C_RESET@).says("\n"@).says("   "@)
        .says(C_DIM@).says("multi-threaded solana miner"@).says(C_RESET@).says("       "@)
        .says(C_GRAY@).says("by "@).gives().says(C_RESET@).says("       "@).says(C_GOLD_B@)
        .says("$EQM"@).says(C_RESET@).says("\n"@).says("\n"@);
    assert(fits(banner_lines(a), form, seq![a]));
    assert(fits(banner_lines(b), form, seq![b]));
}

/// Named values are shown in the same way around the aligned name and the value.
pub proof fn named_values_are_shown_alike(a: (Seq<char>, Seq<char>), b: (Seq<char>, Seq<char>))
    ensures
        same_wording(
            info_line(a.0, a.1),
            seq![left_aligned(a.0, 10), a.1],
            info_line(b.0, b.1),
            seq![left_aligned(b.0, 10), b.1],
        ),
{
    broadcast use group_forms;

    let form = Form::blank().says("   "@).says(C_DIM@).gives().says(C_RESET@).says("  "@)
        .says(C_TEAL@).gives().says(C_RESET@).says("\n"@);
    assert(fits(info_line(a.0, a.1), form, seq![left_aligned(a.0, 10), a.1]));
    assert(fits(info_line(b.0, b.1), form, seq![left_aligned(b.0, 10), b.1]));
}

/// Rounds are logged in the same words around the height, the reward and the first four bytes of
/// the target.
pub proof fn rounds_are_logged_alike(a: (nat, Seq<char>, Seq<u8>), b: (nat, Seq<char>, Seq<u8>))
    ensures
        same_wording(
            round_lines(a.0, a.1, a.2),
            seq![digits(a.0), a.1, hex_text(a.2.subrange(0, 4))],
            round_lines(b.0, b.1, b.2),
            seq![digits(b.0), b.1, hex_text(b.2.subrange(0, 4))],
        ),
{
    broadcast use group_forms;

    let form = Form::blank().says("   "@).says(C_BOLD@).says("round #"@).gives().says(C_RESET@)
        .says("   "@).says(C_DIM@).says("reward "@).gives().says(" EQM"@).says(C_RESET@)
        .says("   "@).says(C_DIM@).says("target 0x"@).gives().says("..."@).says(C_RESET@)
        .says("\n"@).says(rule_line());
    assert(fits(
        round_lines(a.0, a.1, a.2),
        form,
        seq![digits(a.0), a.1, hex_text(a.2.subrange(0, 4))],
    ));
    assert(fits(
        round_lines(b.0, b.1, b.2),
        form,
        seq![digits(b.0), b.1, hex_text(b.2.subrange(0, 4))],
    ));
}

/// Sums are logged in the same words around the reward, the blocks and the running time.
pub proof fn totals_are_logged_alike(a: (nat, nat, nat), b: (nat, nat, nat))
    ensures
        same_wording(
            total_lines(a.0, a.1, a.2),
            seq![reward_text(a.1), digits(a.0), uptime_text(a.2)],
            total_lines(b.0, b.1, b.2),
            seq![reward_text(b.1), digits(b.0), uptime_text(b.2)],
        ),
{
    broadcast use group_forms;

    let form = Form::blank().says("   "@).says(C_DIM@).says("total"@).says(C_RESET@).says("  "@)
        .says(C_BOLD@).gives().says(" EQM"@).says(C_RESET@).says("  "@).says(C_DIM@)
        .says("blocks "@).gives().says(C_RESET@).says("  "@).says(C_DIM@).says("uptime "@)
        .gives().says(C_RESET@).says("\n"@).says("\n"@);
    assert(fits(
        total_lines(a.0, a.1, a.2),
        form,
        seq![reward_text(a.1), digits(a.0), uptime_text(a.2)],
    ));
    assert(fits(
        total_lines(b.0, b.1, b.2),
        form,
        seq![reward_text(b.1), digits(b.0), uptime_text(b.2)],
    ));
}

/// A signature of at most twelve bytes is shown whole; of a longer one the first six bytes and the
/// last six are shown, around the mark.
pub proof fn signature_is_shown_by_its_ends(s: Seq<char>)
    requires
        sig_can_be_shown(s),
    ensures
        encode_utf8(s).len() <= 12 ==> short_sig_text(s) == s,
        encode_utf8(s).len() > 12 ==> encode_utf8(short_sig_text(s)) == encode_utf8(s).take(6)
            + encode_utf8("..."@) + encode_utf8(s).skip(encode_utf8(s).len() - 6),
{
    if encode_utf8(s).len() > 12 {
        shortened_text_keeps_the_ends(s, 6, "..."@);
    }
}

/// Signatures in ASCII can all be shown, and long ones show their first and last six characters.
pub proof fn ascii_signature_can_be_shown(s: Seq<char>)
    requires
        is_ascii_chars(s),
    ensures
        sig_can_be_shown(s),
        s.len() <= 12 ==> short_sig_text(s) == s,
        s.len() > 12 ==> short_sig_text(s) == s.take(6) + "..."@ + s.skip(s.len() - 6),
{
    is_ascii_chars_encode_utf8(s);
    if s.len() > 12 {
        ascii_is_shortened_by_characters(s, 6, "..."@);
    }
}

} // verus!
