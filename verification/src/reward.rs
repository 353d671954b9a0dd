//! Token amounts. One EQM is a million base units.

use vstd::prelude::*;
use vstd::string::*;

use crate::text::{
    all_digits, decimal, decimal_value, digits, digits_are_read_back, digits_tell_numbers_apart,
    lemma_leading_zeros, only_trailing_copies_are_cut_off, repeated, trim_trailing,
    without_trailing, zero_padded, zero_padded_decimal, zeros_in_front_keep_the_number,
};

verus! {

/// Base units in one EQM.
pub const UNITS_PER_EQM: u64 = 1_000_000;

/// An amount in EQM: the whole part, and behind a point as many of the six decimals as are needed.
pub open spec fn reward_text(base_units: nat) -> Seq<char> {
    let whole = base_units / 1_000_000;
    let frac = base_units % 1_000_000;
    if frac == 0 {
        digits(whole)
    } else {
        without_trailing(digits(whole) + "."@ + zero_padded(frac, 6), '0')
    }
}

/// Writes an amount of base units in EQM.
pub fn format_reward(base_units: u64) -> (r: String)
    ensures
        r@ == reward_text(base_units as nat),
{
    let whole: u64 = base_units / UNITS_PER_EQM;
    let frac: u64 = base_units % UNITS_PER_EQM;
    let mut out = decimal(whole);
    if frac == 0 {
        out
    } else {
        out.append(".");
        out.append(zero_padded_decimal(frac, 6).as_str());
        trim_trailing(out.as_str(), '0')
    }
}

/// Every character of a decimal number is a digit.
proof fn lemma_digits_are_digits(n: nat, i: int)
    requires
        0 <= i < digits(n).len(),
    ensures
        '0' <= digits(n)[i] <= '9',
    decreases n,
{
    if n >= 10 && i < digits(n).len() - 1 {
        lemma_digits_are_digits(n / 10, i);
    }
}

/// At most six digits below a million.
proof fn lemma_six_digits(n: nat)
    requires
        n < 1_000_000,
    ensures
        1 <= digits(n).len() <= 6,
{
    reveal_with_fuel(digits, 7);
}

/// Only zero is written with a leading zero.
proof fn lemma_leading_digit(n: nat)
    requires
        n > 0,
    ensures
        digits(n).len() > 0,
        digits(n)[0] != '0',
    decreases n,
{
    if n >= 10 {
        lemma_leading_digit(n / 10);
        assert(digits(n)[0] == digits(n / 10)[0]);
    }
}

/// What is cut off behind is a run of the character.
proof fn lemma_without_trailing(s: Seq<char>, c: char)
    ensures
        without_trailing(s, c).len() <= s.len(),
        s == without_trailing(s, c) + repeated(c, s.len() - without_trailing(s, c).len()),
    decreases s.len(),
{
    if s.len() > 0 && s.last() == c {
        let front = s.drop_last();
        let kept = without_trailing(s, c);
        lemma_without_trailing(front, c);
        assert forall|j: int| 0 <= j < s.len() implies s[j] == (kept + repeated(
            c,
            s.len() - kept.len(),
        ))[j] by {
            if j < front.len() {
                assert(s[j] == front[j]);
            }
        }
        assert(s =~= kept + repeated(c, s.len() - kept.len()));
    } else {
        assert(s =~= s + repeated(c, 0));
    }
}

/// Nothing is cut off past a character that is not to be cut.
proof fn lemma_without_trailing_stops(s: Seq<char>, c: char, i: int)
    requires
        0 <= i < s.len(),
        s[i] != c,
    ensures
        without_trailing(s, c).len() > i,
    decreases s.len(),
{
    if s.last() == c {
        lemma_without_trailing_stops(s.drop_last(), c, i);
    }
}

/// The decimals of an amount that is not whole: six characters, not all of them zero.
proof fn lemma_decimals(frac: nat)
    requires
        0 < frac < 1_000_000,
    ensures
        zero_padded(frac, 6).len() == 6,
        exists|i: int| 0 <= i < 6 && zero_padded(frac, 6)[i] != '0',
{
    lemma_six_digits(frac);
    lemma_leading_digit(frac);
    let at = 6 - digits(frac).len();
    assert(zero_padded(frac, 6)[at] == digits(frac)[0]);
}

/// Different numbers below a million have different decimals.
proof fn lemma_decimals_injective(a: nat, b: nat)
    requires
        0 < a < 1_000_000,
        0 < b < 1_000_000,
        zero_padded(a, 6) == zero_padded(b, 6),
    ensures
        a == b,
{
    lemma_six_digits(a);
    lemma_six_digits(b);
    lemma_leading_digit(a);
    lemma_leading_digit(b);
    let la = digits(a).len();
    let lb = digits(b).len();
    let p = zero_padded(a, 6);
    assert(p[6 - la] == digits(a)[0]);
    assert(p[6 - lb] == digits(b)[0]);
    if la < lb {
        assert(p[6 - lb] == '0');
    } else if lb < la {
        assert(zero_padded(b, 6)[6 - la] == '0');
    }
    assert(p.skip(6 - la) =~= digits(a));
    assert(zero_padded(b, 6).skip(6 - lb) =~= digits(b));
    digits_tell_numbers_apart(a, b);
}

/// The text of an amount that is not whole: the digits of its whole part, a point, and decimals
/// that zeros complete to six.
proof fn lemma_broken_amount(base_units: nat)
    requires
        base_units % 1_000_000 != 0,
    ensures
        ({
            let head = digits(base_units / 1_000_000);
            let t = reward_text(base_units);
            &&& t.len() > head.len() + 1
            &&& t.len() <= head.len() + 7
            &&& t.take(head.len() as int) == head
            &&& t[head.len() as int] == '.'
            &&& t.skip(1 + head.len() as int) + repeated('0', head.len() + 7 - t.len()) == zero_padded(
                base_units % 1_000_000,
                6,
            )
        }),
{
    reveal_strlit(".");
    let head = digits(base_units / 1_000_000);
    let decimals = zero_padded(base_units % 1_000_000, 6);
    let full = head + "."@ + decimals;
    let t = reward_text(base_units);
    lemma_decimals(base_units % 1_000_000);
    let i = choose|i: int| 0 <= i < 6 && decimals[i] != '0';
    assert(full[head.len() + 1 + i] == decimals[i]);
    lemma_without_trailing_stops(full, '0', head.len() + 1 + i);
    lemma_without_trailing(full, '0');
    assert(t.take(head.len() as int) =~= head) by {
        assert forall|j: int| 0 <= j < head.len() implies t[j] == head[j] by {
            assert(full[j] == head[j]);
        }
    }
    assert(full[head.len() as int] == '.');
    assert(t.skip(1 + head.len() as int) + repeated('0', head.len() + 7 - t.len()) =~= decimals) by {
        assert forall|j: int| 0 <= j < 6 implies (t.skip(1 + head.len() as int) + repeated(
            '0',
            head.len() + 7 - t.len(),
        ))[j] == decimals[j] by {
            assert(full[head.len() + 1 + j] == decimals[j]);
        }
    }
}

/// Different amounts are written differently: no unit is lost in the text.
pub proof fn reward_text_is_exact(a: nat, b: nat)
    requires
        reward_text(a) == reward_text(b),
    ensures
        a == b,
{
    let wa = digits(a / 1_000_000);
    let wb = digits(b / 1_000_000);
    let t = reward_text(a);
    if a % 1_000_000 == 0 && b % 1_000_000 == 0 {
        digits_tell_numbers_apart(a / 1_000_000, b / 1_000_000);
    } else if a % 1_000_000 == 0 {
        lemma_broken_amount(b);
        lemma_digits_are_digits(a / 1_000_000, wb.len() as int);
    } else if b % 1_000_000 == 0 {
        lemma_broken_amount(a);
        lemma_digits_are_digits(b / 1_000_000, wa.len() as int);
    } else {
        lemma_broken_amount(a);
        lemma_broken_amount(b);
        if wa.len() < wb.len() {
            assert(t.take(wb.len() as int)[wa.len() as int] == '.');
            lemma_digits_are_digits(b / 1_000_000, wa.len() as int);
        } else if wb.len() < wa.len() {
            assert(t.take(wa.len() as int)[wb.len() as int] == '.');
            lemma_digits_are_digits(a / 1_000_000, wb.len() as int);
        }
        digits_tell_numbers_apart(a / 1_000_000, b / 1_000_000);
        lemma_decimals_injective(a % 1_000_000, b % 1_000_000);
    }
}

/// Whether a text writes an amount of base units: a whole part, and behind a point up to six
/// decimals, with no zero too much on either side.
pub open spec fn writes_amount(
    text: Seq<char>,
    whole: Seq<char>,
    decimals: Seq<char>,
    base_units: nat,
) -> bool {
    &&& text == (if decimals.len() == 0 {
        whole
    } else {
        whole + seq!['.'] + decimals
    })
    &&& all_digits(whole)
    &&& all_digits(decimals)
    &&& whole.len() == 1 || (whole.len() > 1 && whole[0] != '0')
    &&& decimals.len() <= 6
    &&& decimals.len() > 0 ==> decimals.last() != '0'
    &&& base_units == decimal_value(whole) * 1_000_000 + decimal_value(
        decimals + Seq::new((6 - decimals.len()) as nat, |i: int| '0'),
    )
}

/// The amount is read back from its text.
pub proof fn reward_text_is_read_back(base_units: nat)
    ensures
        exists|whole: Seq<char>, decimals: Seq<char>|
            writes_amount(reward_text(base_units), whole, decimals, base_units),
{
    let whole = digits(base_units / 1_000_000);
    let frac = base_units % 1_000_000;
    let t = reward_text(base_units);
    digits_are_read_back(base_units / 1_000_000);
    if frac == 0 {
        let none = Seq::<char>::empty();
        let zeros = Seq::new(6, |i: int| '0');
        assert(none + zeros =~= zeros + none);
        lemma_leading_zeros(zeros, none);
        assert(writes_amount(t, whole, none, base_units));
    } else {
        reveal_strlit(".");
        lemma_broken_amount(base_units);
        let decimals = t.skip(1 + whole.len() as int);
        let padded = zero_padded(frac, 6);
        zeros_in_front_keep_the_number(frac, 6);
        only_trailing_copies_are_cut_off(whole + "."@ + padded, '0');
        assert(t =~= whole + seq!['.'] + decimals) by {
            assert forall|j: int| 0 <= j < whole.len() implies t[j] == whole[j] by {
                assert(t.take(whole.len() as int)[j] == t[j]);
            }
        }
        let zeros = repeated('0', whole.len() + 7 - t.len());
        assert(zeros =~= Seq::new((6 - decimals.len()) as nat, |i: int| '0'));
        assert forall|i: int| 0 <= i < decimals.len() implies '0' <= #[trigger] decimals[i]
            <= '9' by {
            assert(padded[i] == (decimals + zeros)[i]);
        }
        assert(writes_amount(t, whole, decimals, base_units));
    }
}

} // verus!
