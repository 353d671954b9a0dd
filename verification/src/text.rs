//! Plain text: decimal numbers, padding, searching and shortening.

use vstd::prelude::*;
use vstd::string::*;
use vstd::utf8::*;

verus! {

/// The character of a decimal digit.
pub open spec fn digit_char(d: nat) -> char {
    if d == 0 {
        '0'
    } else if d == 1 {
        '1'
    } else if d == 2 {
        '2'
    } else if d == 3 {
        '3'
    } else if d == 4 {
        '4'
    } else if d == 5 {
        '5'
    } else if d == 6 {
        '6'
    } else if d == 7 {
        '7'
    } else if d == 8 {
        '8'
    } else {
        '9'
    }
}

/// The decimal digits of `n`, most significant first, without leading zeros.
pub open spec fn digits(n: nat) -> Seq<char>
    decreases n,
{
    if n < 10 {
        seq![digit_char(n)]
    } else {
        digits(n / 10).push(digit_char(n % 10))
    }
}

/// `n` times the character `c`.
pub open spec fn repeated(c: char, n: int) -> Seq<char> {
    Seq::new(
        if n > 0 {
            n as nat
        } else {
            0
        },
        |i: int| c,
    )
}

/// The digits of `n`, with zeros in front up to `width` characters.
pub open spec fn zero_padded(n: nat, width: nat) -> Seq<char> {
    repeated('0', width - digits(n).len()) + digits(n)
}

/// The text of one decimal digit.
fn digit_text(d: u64) -> (r: &'static str)
    requires
        d < 10,
    ensures
        r@ == seq![digit_char(d as nat)],
{
    proof {
        reveal_strlit("0");
        reveal_strlit("1");
        reveal_strlit("2");
        reveal_strlit("3");
        reveal_strlit("4");
        reveal_strlit("5");
        reveal_strlit("6");
        reveal_strlit("7");
        reveal_strlit("8");
        reveal_strlit("9");
    }
    if d == 0 {
        "0"
    } else if d == 1 {
        "1"
    } else if d == 2 {
        "2"
    } else if d == 3 {
        "3"
    } else if d == 4 {
        "4"
    } else if d == 5 {
        "5"
    } else if d == 6 {
        "6"
    } else if d == 7 {
        "7"
    } else if d == 8 {
        "8"
    } else {
        "9"
    }
}

/// The decimal text of a number.
pub fn decimal(n: u64) -> (r: String)
    ensures
        r@ == digits(n as nat),
    decreases n,
{
    if n < 10 {
        digit_text(n).to_string()
    } else {
        let mut out = decimal(n / 10);
        out.append(digit_text(n % 10));
        out
    }
}

/// Different digits have different characters.
pub proof fn lemma_digit_char_injective(a: nat, b: nat)
    requires
        a < 10,
        b < 10,
        digit_char(a) == digit_char(b),
    ensures
        a == b,
{
}

/// Different numbers have different digits.
pub proof fn digits_tell_numbers_apart(a: nat, b: nat)
    requires
        digits(a) == digits(b),
    ensures
        a == b,
    decreases a,
{
    lemma_digits_len(a);
    lemma_digits_len(b);
    if a < 10 {
        assert(digits(a)[0] == digit_char(a));
        if b < 10 {
            assert(digits(b)[0] == digit_char(b));
            lemma_digit_char_injective(a, b);
        }
    } else if b >= 10 {
        assert(digits(a).last() == digit_char(a % 10));
        assert(digits(b).last() == digit_char(b % 10));
        lemma_digit_char_injective(a % 10, b % 10);
        assert(digits(a).drop_last() =~= digits(a / 10));
        assert(digits(b).drop_last() =~= digits(b / 10));
        digits_tell_numbers_apart(a / 10, b / 10);
    }
}

/// One digit below ten, more from ten on.
pub proof fn lemma_digits_len(n: nat)
    ensures
        n < 10 ==> digits(n).len() == 1,
        n >= 10 ==> digits(n).len() >= 2,
    decreases n,
{
    if n >= 10 {
        lemma_digits_len(n / 10);
    }
}

/// The decimal text of a number, filled with zeros in front up to `width` characters.
pub fn zero_padded_decimal(n: u64, width: usize) -> (r: String)
    ensures
        r@ == zero_padded(n as nat, width as nat),
{
    let number = decimal(n);
    let mut len: usize = number.as_str().unicode_len();
    let mut out = String::new();
    let ghost body = digits(n as nat);
    while len < width
        invariant
            body.len() <= len,
            len <= width || len == body.len(),
            out@ == repeated('0', len - body.len()),
        decreases width - len,
    {
        proof {
            reveal_strlit("0");
        }
        out.append("0");
        len = len + 1;
    }
    out.append(number.as_str());
    out
}

/// The characters of a text.
pub fn chars_of(s: &str) -> (r: Vec<char>)
    ensures
        r@ == s@,
{
    let mut out: Vec<char> = Vec::new();
    for c in it: s.chars()
        invariant
            out@ == s@.take(it.index() as int),
            it.seq() == s@,
    {
        out.push(c);
    }
    out
}

/// Whether `pattern` stands somewhere in `s`.
pub open spec fn contains_text(s: Seq<char>, pattern: Seq<char>) -> bool {
    exists|i: int|
        0 <= i && i + pattern.len() <= s.len() && #[trigger] s.subrange(i, i + pattern.len())
            == pattern
}

/// Whether `pattern` stands in `s` at position `at`.
fn stands_at(s: &Vec<char>, pattern: &Vec<char>, at: usize) -> (r: bool)
    requires
        at + pattern@.len() <= s@.len(),
    ensures
        r == (s@.subrange(at as int, at + pattern@.len()) == pattern@),
{
    let ghost window = s@.subrange(at as int, at + pattern@.len());
    let end: usize = s.len();
    let mut i: usize = 0;
    while i < pattern.len()
        invariant
            i <= pattern@.len(),
            end == s@.len(),
            at + pattern@.len() <= end,
            window == s@.subrange(at as int, at + pattern@.len()),
            forall|j: int| 0 <= j < i ==> window[j] == pattern@[j],
        decreases pattern@.len() - i,
    {
        if s[at + i] != pattern[i] {
            assert(window[i as int] != pattern@[i as int]);
            return false;
        }
        i = i + 1;
    }
    assert(window =~= pattern@);
    true
}

/// Searches a text for a pattern.
pub fn contains(s: &str, pattern: &str) -> (r: bool)
    ensures
        r == contains_text(s@, pattern@),
{
    let text = chars_of(s);
    let wanted = chars_of(pattern);
    let n: usize = text.len();
    let m: usize = wanted.len();
    if m > n {
        return false;
    }
    let mut at: usize = 0;
    while at <= n - m
        invariant
            text@ == s@,
            wanted@ == pattern@,
            n == text@.len(),
            m == wanted@.len(),
            m <= n,
            at <= n - m + 1,
            forall|j: int| 0 <= j < at ==> #[trigger] s@.subrange(j, j + m) != pattern@,
        decreases n - m + 1 - at,
    {
        if stands_at(&text, &wanted, at) {
            return true;
        }
        if at == n - m {
            return false;
        }
        at = at + 1;
    }
    false
}

/// The first `keep` bytes of `s`, then `mark`, then the last `keep` bytes of `s`.
pub open spec fn shortened(s: Seq<char>, keep: nat, mark: Seq<char>) -> Seq<char> {
    let bytes = encode_utf8(s);
    decode_utf8(bytes.subrange(0, keep as int)) + mark + decode_utf8(
        bytes.subrange(bytes.len() - keep, bytes.len() as int),
    )
}

/// Whether `s` can be cut `keep` bytes from its start and `keep` bytes from its end: it is that
/// long, and no character straddles either cut.
pub open spec fn can_shorten(s: Seq<char>, keep: nat) -> bool {
    let bytes = encode_utf8(s);
    &&& keep <= bytes.len()
    &&& is_char_boundary(bytes, keep as int)
    &&& is_char_boundary(bytes, bytes.len() - keep)
}

/// Keeps the two ends of a text, `keep` bytes each, around a mark.
pub fn shorten(s: &str, keep: usize, mark: &str) -> (r: String)
    requires
        can_shorten(s@, keep as nat),
    ensures
        r@ == shortened(s@, keep as nat, mark@),
{
    let len: usize = s.as_bytes().len();
    let head = s.split_at(keep).0;
    let tail = s.split_at(len - keep).1;
    proof {
        encode_utf8_decode_utf8(head@);
        encode_utf8_decode_utf8(tail@);
    }
    let mut out = head.to_string();
    out.append(mark);
    out.append(tail);
    out
}

/// In an ASCII text bytes and characters are the same: every cut within its length is possible,
/// and the ends that are kept are its first and last characters.
pub proof fn ascii_is_shortened_by_characters(s: Seq<char>, keep: nat, mark: Seq<char>)
    requires
        is_ascii_chars(s),
        keep <= s.len(),
    ensures
        can_shorten(s, keep),
        shortened(s, keep, mark) == s.take(keep as int) + mark + s.skip(s.len() - keep),
{
    let bytes = encode_utf8(s);
    is_ascii_chars_encode_utf8(s);
    encode_utf8_valid_utf8(s);
    lemma_ascii_part(s, 0, keep as int);
    lemma_ascii_part(s, s.len() - keep, s.len() as int);
    assert(s.subrange(0, keep as int) =~= s.take(keep as int));
    assert(s.subrange(s.len() - keep, s.len() as int) =~= s.skip(s.len() - keep));
    lemma_ascii_boundary(s, keep as int);
    lemma_ascii_boundary(s, s.len() - keep);
}

/// A stretch of the bytes of an ASCII text decodes to the same stretch of its characters.
proof fn lemma_ascii_part(s: Seq<char>, from: int, to: int)
    requires
        is_ascii_chars(s),
        0 <= from <= to <= s.len(),
    ensures
        decode_utf8(encode_utf8(s).subrange(from, to)) == s.subrange(from, to),
{
    let part = s.subrange(from, to);
    is_ascii_chars_encode_utf8(s);
    is_ascii_chars_encode_utf8(part);
    let bytes = encode_utf8(s).subrange(from, to);
    assert forall|i: int| 0 <= i < part.len() implies bytes[i] == encode_utf8(part)[i] by {
        assert(part[i] == s[from + i]);
        assert(s[from + i] as u8 == encode_utf8(s)[from + i]);
    }
    assert(bytes =~= encode_utf8(part));
    encode_utf8_decode_utf8(part);
}

/// Every position of an ASCII text is a character boundary.
proof fn lemma_ascii_boundary(s: Seq<char>, at: int)
    requires
        is_ascii_chars(s),
        0 <= at <= s.len(),
    ensures
        is_char_boundary(encode_utf8(s), at),
{
    is_ascii_chars_encode_utf8(s);
    encode_utf8_valid_utf8(s);
    is_char_boundary_start_end_of_seq(encode_utf8(s));
    if at < s.len() {
        assert(s[at] as u8 == encode_utf8(s)[at]);
        is_char_boundary_iff_not_is_continuation_byte(encode_utf8(s), at);
    }
}

/// `s` filled with spaces behind up to `width` characters.
pub open spec fn left_aligned(s: Seq<char>, width: nat) -> Seq<char> {
    s + repeated(' ', width - s.len())
}

/// Fills a text with spaces behind, up to `width` characters.
pub fn align_left(s: &str, width: usize) -> (r: String)
    ensures
        r@ == left_aligned(s@, width as nat),
{
    let mut len: usize = s.unicode_len();
    let mut out = s.to_string();
    while len < width
        invariant
            s@.len() <= len,
            len <= width || len == s@.len(),
            out@ == s@ + repeated(' ', len - s@.len()),
        decreases width - len,
    {
        proof {
            reveal_strlit(" ");
        }
        out.append(" ");
        len = len + 1;
    }
    out
}

/// `s` without the copies of `c` that end it.
pub open spec fn without_trailing(s: Seq<char>, c: char) -> Seq<char>
    decreases s.len(),
{
    if s.len() > 0 && s.last() == c {
        without_trailing(s.drop_last(), c)
    } else {
        s
    }
}

/// Cuts off the copies of a character that end a text.
pub fn trim_trailing(s: &str, c: char) -> (r: String)
    ensures
        r@ == without_trailing(s@, c),
{
    let text = chars_of(s);
    let mut end: usize = text.len();
    assert(s@.take(s@.len() as int) =~= s@);
    while end > 0 && text[end - 1] == c
        invariant
            text@ == s@,
            end <= s@.len(),
            without_trailing(s@.take(end as int), c) == without_trailing(s@, c),
        decreases end,
    {
        assert(s@.take(end as int).drop_last() =~= s@.take(end - 1));
        end = end - 1;
    }
    assert(s@.take(end as int) =~= s@.subrange(0, end as int));
    s.substring_char(0, end).to_string()
}

/// Whether a text holds decimal digits only.
pub open spec fn all_digits(s: Seq<char>) -> bool {
    forall|i: int| 0 <= i < s.len() ==> '0' <= #[trigger] s[i] <= '9'
}

/// The number that some decimal digits write.
pub open spec fn decimal_value(s: Seq<char>) -> nat
    decreases s.len(),
{
    if s.len() == 0 {
        0
    } else {
        10 * decimal_value(s.drop_last()) + (s.last() as nat - '0' as nat) as nat
    }
}

/// The digits of a number write that number, and do so without a leading zero.
pub proof fn digits_are_read_back(n: nat)
    ensures
        all_digits(digits(n)),
        digits(n).len() > 0,
        decimal_value(digits(n)) == n,
        n == 0 ==> digits(n).len() == 1,
        n > 0 ==> digits(n)[0] != '0',
    decreases n,
{
    if n < 10 {
        assert(digits(n).last() == digit_char(n));
        assert(decimal_value(digits(n).drop_last()) == 0);
    } else {
        digits_are_read_back(n / 10);
        assert(digits(n).last() == digit_char(n % 10));
        assert(digits(n).drop_last() =~= digits(n / 10));
        assert(digits(n)[0] == digits(n / 10)[0]);
        assert forall|i: int| 0 <= i < digits(n).len() implies '0' <= #[trigger] digits(n)[i]
            <= '9' by {
            if i < digits(n).len() - 1 {
                assert(digits(n)[i] == digits(n / 10)[i]);
            }
        }
    }
}

/// Zeros in front do not change a number.
pub proof fn lemma_leading_zeros(zeros: Seq<char>, s: Seq<char>)
    requires
        forall|i: int| 0 <= i < zeros.len() ==> zeros[i] == '0',
        all_digits(s),
    ensures
        decimal_value(zeros + s) == decimal_value(s),
        all_digits(zeros + s),
    decreases zeros.len() + s.len(),
{
    let all = zeros + s;
    assert forall|i: int| 0 <= i < all.len() implies '0' <= #[trigger] all[i] <= '9' by {
        if i >= zeros.len() {
            assert(all[i] == s[i - zeros.len()]);
        }
    }
    if s.len() > 0 {
        assert(all.drop_last() =~= zeros + s.drop_last());
        lemma_leading_zeros(zeros, s.drop_last());
    } else if zeros.len() > 0 {
        let fewer = zeros.drop_last();
        assert(all.drop_last() =~= fewer + s);
        assert forall|i: int| 0 <= i < fewer.len() implies fewer[i] == '0' by {
            assert(fewer[i] == zeros[i]);
        }
        lemma_leading_zeros(fewer, s);
        assert(all.last() == zeros[zeros.len() - 1]);
    }
}

/// A number filled with zeros in front is still that number, as long as asked for or longer, and
/// no longer than it has to be.
pub proof fn zeros_in_front_keep_the_number(n: nat, width: nat)
    ensures
        all_digits(zero_padded(n, width)),
        decimal_value(zero_padded(n, width)) == n,
        zero_padded(n, width).len() >= width,
        zero_padded(n, width).len() > width ==> zero_padded(n, width) == digits(n),
{
    digits_are_read_back(n);
    let zeros = repeated('0', width - digits(n).len());
    lemma_leading_zeros(zeros, digits(n));
    if zero_padded(n, width).len() > width {
        assert(zero_padded(n, width) =~= digits(n));
    }
}

/// A pattern is found exactly where the text is something, the pattern, and something more.
pub proof fn found_pattern_stands_in_the_text(s: Seq<char>, pattern: Seq<char>)
    ensures
        contains_text(s, pattern) <==> exists|a: Seq<char>, b: Seq<char>| s == #[trigger] (a + pattern + b),
{
    if contains_text(s, pattern) {
        let i = choose|i: int|
            0 <= i && i + pattern.len() <= s.len() && #[trigger] s.subrange(i, i + pattern.len())
                == pattern;
        assert(s =~= s.take(i) + pattern + s.skip(i + pattern.len()));
    }
    if exists|a: Seq<char>, b: Seq<char>| s == #[trigger] (a + pattern + b) {
        let (a, b) = choose|a: Seq<char>, b: Seq<char>| s == #[trigger] (a + pattern + b);
        let i = a.len() as int;
        assert(s.subrange(i, i + pattern.len()) =~= pattern);
    }
}

/// Whatever stands around it, a pattern is found.
pub proof fn pattern_is_found_anywhere(a: Seq<char>, pattern: Seq<char>, b: Seq<char>)
    ensures
        contains_text(a + pattern + b, pattern),
{
    found_pattern_stands_in_the_text(a + pattern + b, pattern);
}

/// The bytes of two texts in a row are the bytes of the one and then of the other.
proof fn lemma_encode_concat(a: Seq<char>, b: Seq<char>)
    ensures
        encode_utf8(a + b) == encode_utf8(a) + encode_utf8(b),
    decreases a.len(),
{
    if a.len() == 0 {
        assert(a + b =~= b);
        assert(encode_utf8(a) + encode_utf8(b) =~= encode_utf8(b));
    } else {
        lemma_encode_concat(a.drop_first(), b);
        assert((a + b).drop_first() =~= a.drop_first() + b);
        assert((a + b)[0] == a[0]);
        assert(encode_utf8(a + b) =~= encode_utf8(a) + encode_utf8(b));
    }
}

/// A shortened text is, byte for byte, the first bytes of the text, the mark, and its last bytes.
pub proof fn shortened_text_keeps_the_ends(s: Seq<char>, keep: nat, mark: Seq<char>)
    requires
        can_shorten(s, keep),
    ensures
        encode_utf8(shortened(s, keep, mark)) == encode_utf8(s).take(keep as int) + encode_utf8(
            mark,
        ) + encode_utf8(s).skip(encode_utf8(s).len() - keep),
{
    let bytes = encode_utf8(s);
    let head = bytes.subrange(0, keep as int);
    let tail = bytes.subrange(bytes.len() - keep, bytes.len() as int);
    encode_utf8_valid_utf8(s);
    valid_utf8_split(bytes, keep as int);
    valid_utf8_split(bytes, bytes.len() - keep);
    decode_utf8_encode_utf8(head);
    decode_utf8_encode_utf8(tail);
    lemma_encode_concat(decode_utf8(head), mark);
    lemma_encode_concat(decode_utf8(head) + mark, decode_utf8(tail));
    assert(head =~= bytes.take(keep as int));
    assert(tail =~= bytes.skip(bytes.len() - keep));
}

/// A text aligned to the left begins with the text; spaces fill it up, and nothing more.
pub proof fn aligned_text_is_filled_with_spaces(s: Seq<char>, width: nat)
    ensures
        left_aligned(s, width).len() == (if s.len() > width {
            s.len()
        } else {
            width
        }),
        left_aligned(s, width).take(s.len() as int) == s,
        forall|i: int| s.len() <= i < left_aligned(s, width).len() ==> left_aligned(s, width)[i] == ' ',
{
    assert(left_aligned(s, width).take(s.len() as int) =~= s);
}

/// Only copies of the character are cut off behind, and all of them.
pub proof fn only_trailing_copies_are_cut_off(s: Seq<char>, c: char)
    ensures
        without_trailing(s, c).len() <= s.len(),
        without_trailing(s, c) == s.take(without_trailing(s, c).len() as int),
        forall|i: int| without_trailing(s, c).len() <= i < s.len() ==> s[i] == c,
        without_trailing(s, c).len() > 0 ==> without_trailing(s, c).last() != c,
    decreases s.len(),
{
    if s.len() > 0 && s.last() == c {
        let front = s.drop_last();
        only_trailing_copies_are_cut_off(front, c);
        assert forall|i: int| without_trailing(s, c).len() <= i < s.len() implies s[i] == c by {
            if i < front.len() {
                assert(front[i] == s[i]);
            }
        }
        assert(front.take(without_trailing(s, c).len() as int) =~= s.take(
            without_trailing(s, c).len() as int,
        ));
    } else {
        assert(s =~= s.take(s.len() as int));
    }
}

} // verus!
