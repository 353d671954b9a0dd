//! Times of day and running times.

use vstd::prelude::*;
use vstd::string::*;

use crate::text::{
    all_digits, decimal, decimal_value, digit_char, digits, digits_are_read_back,
    digits_tell_numbers_apart, lemma_digit_char_injective, lemma_digits_len, zero_padded,
    zero_padded_decimal, zeros_in_front_keep_the_number,
};

verus! {

/// A running time: hours where there are any, then minutes and seconds.
pub open spec fn uptime_text(total: nat) -> Seq<char> {
    let h = total / 3600;
    let m = (total % 3600) / 60;
    let s = total % 60;
    if h > 0 {
        digits(h) + ":"@ + zero_padded(m, 2) + ":"@ + zero_padded(s, 2)
    } else {
        digits(m) + ":"@ + zero_padded(s, 2)
    }
}

/// Writes a running time, given in full seconds.
pub fn fmt_uptime(total: u64) -> (r: String)
    ensures
        r@ == uptime_text(total as nat),
{
    let h: u64 = total / 3600;
    let m: u64 = (total % 3600) / 60;
    let s: u64 = total % 60;
    if h > 0 {
        decimal(h).concat(":").concat(zero_padded_decimal(m, 2).as_str()).concat(":").concat(
            zero_padded_decimal(s, 2).as_str(),
        )
    } else {
        decimal(m).concat(":").concat(zero_padded_decimal(s, 2).as_str())
    }
}

/// The time of day, UTC, `unix_secs` seconds after the Unix epoch.
pub open spec fn clock_text(unix_secs: nat) -> Seq<char> {
    zero_padded((unix_secs % 86400) / 3600, 2) + ":"@ + zero_padded((unix_secs % 3600) / 60, 2)
        + ":"@ + zero_padded(unix_secs % 60, 2)
}

/// Writes the time of day, UTC, at a Unix time.
pub fn time_of_day(unix_secs: u64) -> (r: String)
    ensures
        r@ == clock_text(unix_secs as nat),
{
    let h: u64 = (unix_secs % 86400) / 3600;
    let m: u64 = (unix_secs % 3600) / 60;
    let s: u64 = unix_secs % 60;
    zero_padded_decimal(h, 2).concat(":").concat(zero_padded_decimal(m, 2).as_str()).concat(
        ":",
    ).concat(zero_padded_decimal(s, 2).as_str())
}

/// Calls `std::time::SystemTime::elapsed` on the Unix epoch and hands back the full seconds, or
/// zero where the clock stands before the epoch. Nothing is claimed of the result: it is the
/// time of the call.
#[verifier::external_body]
fn unix_seconds() -> u64 {
    std::time::UNIX_EPOCH.elapsed().unwrap_or_default().as_secs()
}

/// The time of day now, UTC.
pub fn chrono_lite_time() -> (r: String)
    ensures
        exists|unix_secs: u64| r@ == #[trigger] clock_text(unix_secs as nat),
{
    let unix_secs: u64 = unix_seconds();
    time_of_day(unix_secs)
}

/// Two characters for a number below a hundred, which they tell.
proof fn lemma_two_digits(n: nat)
    requires
        n < 100,
    ensures
        zero_padded(n, 2) == seq![digit_char(n / 10), digit_char(n % 10)],
{
    reveal_with_fuel(digits, 3);
    if n < 10 {
        assert(zero_padded(n, 2) =~= seq![digit_char(0), digit_char(n)]);
    } else {
        assert(digits(n) =~= seq![digit_char(n / 10), digit_char(n % 10)]);
        assert(zero_padded(n, 2) =~= digits(n));
    }
}

/// A clock text always has the form `hh:mm:ss`.
pub proof fn clock_text_has_fixed_form(unix_secs: nat)
    ensures
        clock_text(unix_secs).len() == 8,
        clock_text(unix_secs)[2] == ':',
        clock_text(unix_secs)[5] == ':',
{
    reveal_strlit(":");
    lemma_two_digits((unix_secs % 86400) / 3600);
    lemma_two_digits((unix_secs % 3600) / 60);
    lemma_two_digits(unix_secs % 60);
}

/// Two characters tell a number below a hundred.
proof fn lemma_two_digits_injective(a: nat, b: nat)
    requires
        a < 100,
        b < 100,
        zero_padded(a, 2) == zero_padded(b, 2),
    ensures
        a == b,
{
    lemma_two_digits(a);
    lemma_two_digits(b);
    assert(zero_padded(a, 2)[0] == digit_char(a / 10));
    assert(zero_padded(a, 2)[1] == digit_char(a % 10));
    assert(zero_padded(b, 2)[0] == digit_char(b / 10));
    assert(zero_padded(b, 2)[1] == digit_char(b % 10));
    lemma_digit_char_injective(a / 10, b / 10);
    lemma_digit_char_injective(a % 10, b % 10);
}

/// Hours, minutes and seconds of a time of day.
proof fn lemma_second_of_day(t: nat)
    ensures
        t % 86400 == ((t % 86400) / 3600) * 3600 + ((t % 3600) / 60) * 60 + t % 60,
        t % 3600 == (t % 86400) % 3600,
        t % 60 == (t % 86400) % 60,
{
}

/// The three fields of a clock text.
proof fn lemma_clock_fields(t: nat)
    ensures
        clock_text(t).subrange(0, 2) == zero_padded((t % 86400) / 3600, 2),
        clock_text(t).subrange(3, 5) == zero_padded((t % 3600) / 60, 2),
        clock_text(t).subrange(6, 8) == zero_padded(t % 60, 2),
{
    reveal_strlit(":");
    lemma_two_digits((t % 86400) / 3600);
    lemma_two_digits((t % 3600) / 60);
    lemma_two_digits(t % 60);
    assert(clock_text(t).subrange(0, 2) =~= zero_padded((t % 86400) / 3600, 2));
    assert(clock_text(t).subrange(3, 5) =~= zero_padded((t % 3600) / 60, 2));
    assert(clock_text(t).subrange(6, 8) =~= zero_padded(t % 60, 2));
}

/// The clock text tells exactly the second of the day: it is the same every day, and differs
/// within one.
pub proof fn clock_text_tells_the_second_of_the_day(a: nat, b: nat)
    ensures
        clock_text(a) == clock_text(b) <==> a % 86400 == b % 86400,
{
    lemma_second_of_day(a);
    lemma_second_of_day(b);
    if clock_text(a) == clock_text(b) {
        lemma_clock_fields(a);
        lemma_clock_fields(b);
        lemma_two_digits_injective((a % 86400) / 3600, (b % 86400) / 3600);
        lemma_two_digits_injective((a % 3600) / 60, (b % 3600) / 60);
        lemma_two_digits_injective(a % 60, b % 60);
    }
}

/// A running time without hours is short, one with hours is long, and both end in the seconds.
proof fn lemma_uptime_parts(t: nat)
    ensures
        ({
            let text = uptime_text(t);
            let n = text.len();
            let (h, m, s) = (t / 3600, (t % 3600) / 60, t % 60);
            &&& t == h * 3600 + m * 60 + s
            &&& n >= 4
            &&& text.skip(n - 2) == zero_padded(s, 2)
            &&& h == 0 ==> n <= 5 && text.take(n - 3) == digits(m)
            &&& h > 0 ==> n >= 7 && text.take(n - 6) == digits(h) && text.subrange(n - 5, n - 3)
                == zero_padded(m, 2)
        }),
{
    reveal_strlit(":");
    let text = uptime_text(t);
    let n = text.len();
    let (h, m, s) = (t / 3600, (t % 3600) / 60, t % 60);
    lemma_two_digits(m);
    lemma_two_digits(s);
    reveal_with_fuel(digits, 3);
    assert(digits(m).len() <= 2);
    lemma_digits_len(h);
    assert(text.skip(n - 2) =~= zero_padded(s, 2));
    if h == 0 {
        assert(text.take(n - 3) =~= digits(m));
    } else {
        assert(text.take(n - 6) =~= digits(h));
        assert(text.subrange(n - 5, n - 3) =~= zero_padded(m, 2));
    }
}

/// Different running times are written differently.
pub proof fn uptime_text_is_exact(a: nat, b: nat)
    requires
        uptime_text(a) == uptime_text(b),
    ensures
        a == b,
{
    lemma_uptime_parts(a);
    lemma_uptime_parts(b);
    lemma_two_digits_injective(a % 60, b % 60);
    if a / 3600 == 0 {
        digits_tell_numbers_apart((a % 3600) / 60, (b % 3600) / 60);
    } else {
        digits_tell_numbers_apart(a / 3600, b / 3600);
        lemma_two_digits_injective((a % 3600) / 60, (b % 3600) / 60);
    }
}

/// The time of day is read back from the clock text: hours below 24, minutes and seconds below 60,
/// two digits each.
pub proof fn clock_text_is_read_back(unix_secs: nat)
    ensures
        ({
            let text = clock_text(unix_secs);
            let (h, m, s) = (text.subrange(0, 2), text.subrange(3, 5), text.subrange(6, 8));
            &&& all_digits(h) && all_digits(m) && all_digits(s)
            &&& decimal_value(h) < 24 && decimal_value(m) < 60 && decimal_value(s) < 60
            &&& unix_secs % 86400 == decimal_value(h) * 3600 + decimal_value(m) * 60
                + decimal_value(s)
        }),
{
    lemma_second_of_day(unix_secs);
    lemma_clock_fields(unix_secs);
    zeros_in_front_keep_the_number((unix_secs % 86400) / 3600, 2);
    zeros_in_front_keep_the_number((unix_secs % 3600) / 60, 2);
    zeros_in_front_keep_the_number(unix_secs % 60, 2);
}

/// Whether a text writes a running time: minutes and seconds of two digits, and hours in front of
/// them where there are any. The first number has no leading zero unless it is zero.
pub open spec fn writes_uptime(
    text: Seq<char>,
    h: Seq<char>,
    m: Seq<char>,
    s: Seq<char>,
    total: nat,
) -> bool {
    &&& text == (if total >= 3600 {
        h + seq![':'] + m + seq![':'] + s
    } else {
        m + seq![':'] + s
    })
    &&& all_digits(h) && all_digits(m) && all_digits(s)
    &&& decimal_value(m) < 60 && decimal_value(s) < 60
    &&& s.len() == 2
    &&& total >= 3600 ==> h.len() > 0 && h[0] != '0' && m.len() == 2
    &&& total < 3600 ==> m.len() == 1 || (m.len() == 2 && m[0] != '0')
    &&& total == decimal_value(h) * 3600 + decimal_value(m) * 60 + decimal_value(s)
}

/// The running time is read back from its text.
pub proof fn uptime_text_is_read_back(total: nat)
    ensures
        exists|h: Seq<char>, m: Seq<char>, s: Seq<char>|
            writes_uptime(uptime_text(total), h, m, s, total),
{
    reveal_strlit(":");
    let (h, m, s) = (total / 3600, (total % 3600) / 60, total % 60);
    lemma_uptime_parts(total);
    lemma_two_digits(m);
    lemma_two_digits(s);
    digits_are_read_back(h);
    digits_are_read_back(m);
    zeros_in_front_keep_the_number(m, 2);
    zeros_in_front_keep_the_number(s, 2);
    assert(":"@ =~= seq![':']);
    if total >= 3600 {
        assert(writes_uptime(
            uptime_text(total),
            digits(h),
            zero_padded(m, 2),
            zero_padded(s, 2),
            total,
        ));
    } else {
        reveal_with_fuel(digits, 3);
        assert(writes_uptime(uptime_text(total), Seq::empty(), digits(m), zero_padded(s, 2), total));
    }
}

} // verus!
