//! The RPC endpoints: which to use, and what their errors mean.

use vstd::prelude::*;
use vstd::string::*;

use crate::text::{chars_of, contains, contains_text, pattern_is_found_anywhere};

verus! {

/// Whether a character is white space in Unicode.
pub open spec fn is_white_space(c: char) -> bool {
    ||| '\u{9}' <= c <= '\u{d}'
    ||| c == ' '
    ||| c == '\u{85}'
    ||| c == '\u{a0}'
    ||| c == '\u{1680}'
    ||| '\u{2000}' <= c <= '\u{200a}'
    ||| c == '\u{2028}'
    ||| c == '\u{2029}'
    ||| c == '\u{202f}'
    ||| c == '\u{205f}'
    ||| c == '\u{3000}'
}

/// Tells whether a character is white space.
fn white_space(c: char) -> (r: bool)
    ensures
        r == is_white_space(c),
{
    ('\u{9}' <= c && c <= '\u{d}') || c == ' ' || c == '\u{85}' || c == '\u{a0}' || c
        == '\u{1680}' || ('\u{2000}' <= c && c <= '\u{200a}') || c == '\u{2028}' || c
        == '\u{2029}' || c == '\u{202f}' || c == '\u{205f}' || c == '\u{3000}'
}

/// `s` without the white space in front.
pub open spec fn trimmed_start(s: Seq<char>) -> Seq<char>
    decreases s.len(),
{
    if s.len() > 0 && is_white_space(s[0]) {
        trimmed_start(s.drop_first())
    } else {
        s
    }
}

/// `s` without the white space behind.
pub open spec fn trimmed_end(s: Seq<char>) -> Seq<char>
    decreases s.len(),
{
    if s.len() > 0 && is_white_space(s.last()) {
        trimmed_end(s.drop_last())
    } else {
        s
    }
}

/// `s` without the white space on both sides.
pub open spec fn trimmed(s: Seq<char>) -> Seq<char> {
    trimmed_end(trimmed_start(s))
}

/// The stretches of `s` between its commas: one more than there are commas.
pub open spec fn between_commas(s: Seq<char>) -> Seq<Seq<char>>
    decreases s.len(),
{
    if s.len() == 0 {
        seq![Seq::empty()]
    } else {
        let before = between_commas(s.drop_last());
        if s.last() == ',' {
            before.push(Seq::empty())
        } else {
            before.drop_last().push(before.last().push(s.last()))
        }
    }
}

/// The list with one more entry, unless the entry is blank or in the list already.
pub open spec fn with_url(urls: Seq<Seq<char>>, entry: Seq<char>) -> Seq<Seq<char>> {
    let url = trimmed(entry);
    if url.len() == 0 || urls.contains(url) {
        urls
    } else {
        urls.push(url)
    }
}

/// The primary endpoint, then the entries that are neither blank nor repeated, in their order.
pub open spec fn with_urls(primary: Seq<char>, entries: Seq<Seq<char>>) -> Seq<Seq<char>>
    decreases entries.len(),
{
    if entries.len() == 0 {
        seq![primary]
    } else {
        with_url(with_urls(primary, entries.drop_last()), entries.last())
    }
}

/// All endpoints: the primary one and those of a comma-separated list.
pub open spec fn rpc_urls(primary: Seq<char>, extra: Option<Seq<char>>) -> Seq<Seq<char>> {
    match extra {
        Some(list) => with_urls(primary, between_commas(list)),
        None => seq![primary],
    }
}

/// The texts of a list.
pub open spec fn texts(list: Seq<String>) -> Seq<Seq<char>> {
    list.map_values(|s: String| s@)
}

/// The text of an optional string.
pub open spec fn text_of(s: Option<String>) -> Option<Seq<char>> {
    match s {
        Some(text) => Some(text@),
        None => None,
    }
}

/// Finds a text in a list.
fn is_listed(urls: &Vec<String>, url: &String) -> (r: bool)
    ensures
        r == texts(urls@).contains(url@),
{
    let mut i: usize = 0;
    while i < urls.len()
        invariant
            i <= urls@.len(),
            forall|j: int| 0 <= j < i ==> texts(urls@)[j] != url@,
        decreases urls@.len() - i,
    {
        if urls[i] == *url {
            assert(texts(urls@)[i as int] == url@);
            return true;
        }
        i = i + 1;
    }
    false
}

/// Where the part of `text` from `from` to `to` lies once it is trimmed.
fn trim_range(text: &Vec<char>, from: usize, to: usize) -> (r: (usize, usize))
    requires
        from <= to <= text@.len(),
    ensures
        from <= r.0 <= r.1 <= to,
        text@.subrange(r.0 as int, r.1 as int) == trimmed(
            text@.subrange(from as int, to as int),
        ),
{
    let mut a: usize = from;
    let mut b: usize = to;
    let ghost part = text@.subrange(from as int, to as int);
    while a < b && white_space(text[a])
        invariant
            from <= a <= b == to <= text@.len(),
            trimmed_start(part) == trimmed_start(text@.subrange(a as int, b as int)),
        decreases b - a,
    {
        assert(text@.subrange(a as int, b as int).drop_first() =~= text@.subrange(
            a + 1,
            b as int,
        ));
        a = a + 1;
    }
    let ghost tail = text@.subrange(a as int, b as int);
    assert(trimmed_start(part) == tail);
    while a < b && white_space(text[b - 1])
        invariant
            from <= a <= b <= to <= text@.len(),
            trimmed_end(tail) == trimmed_end(text@.subrange(a as int, b as int)),
        decreases b - a,
    {
        assert(text@.subrange(a as int, b as int).drop_last() =~= text@.subrange(
            a as int,
            b - 1,
        ));
        b = b - 1;
    }
    (a, b)
}

/// Adds the part of a text from `from` to `to` to a list of endpoints.
fn add_entry(urls: &mut Vec<String>, list: &str, text: &Vec<char>, from: usize, to: usize)
    requires
        text@ == list@,
        from <= to <= list@.len(),
    ensures
        texts(final(urls)@) == with_url(
            texts(old(urls)@),
            list@.subrange(from as int, to as int),
        ),
{
    let (a, b) = trim_range(text, from, to);
    let url = list.substring_char(a, b).to_string();
    if a < b && !is_listed(urls, &url) {
        urls.push(url);
        assert(texts(urls@) =~= texts(old(urls)@).push(url@));
    }
}

/// Lists the endpoints to broadcast to: the primary one first, then those of the comma-separated
/// list, trimmed, without blank entries and without repetitions.
pub fn parse_rpc_urls(primary: &str, extra: &Option<String>) -> (r: Vec<String>)
    ensures
        texts(r@) == rpc_urls(primary@, text_of(*extra)),
{
    let mut urls: Vec<String> = Vec::new();
    urls.push(primary.to_string());
    assert(texts(urls@) =~= seq![primary@]);
    match extra {
        Some(list) => {
            let list = list.as_str();
            let text = chars_of(list);
            let n: usize = text.len();
            let mut start: usize = 0;
            let mut i: usize = 0;
            assert(list@.take(0) =~= Seq::<char>::empty());
            assert(between_commas(list@.take(0)).drop_last() =~= Seq::<Seq<char>>::empty());
            assert(list@.subrange(0, 0) =~= Seq::<char>::empty());
            while i < n
                invariant
                    text@ == list@,
                    n == list@.len(),
                    start <= i <= n,
                    between_commas(list@.take(i as int)).len() > 0,
                    between_commas(list@.take(i as int)).last() == list@.subrange(
                        start as int,
                        i as int,
                    ),
                    texts(urls@) == with_urls(
                        primary@,
                        between_commas(list@.take(i as int)).drop_last(),
                    ),
                decreases n - i,
            {
                let ghost before = between_commas(list@.take(i as int));
                let ghost after = between_commas(list@.take(i + 1));
                assert(list@.take(i + 1).drop_last() =~= list@.take(i as int));
                if text[i] == ',' {
                    add_entry(&mut urls, list, &text, start, i);
                    start = i + 1;
                    assert(after.drop_last() =~= before);
                    assert(list@.subrange(start as int, i + 1) =~= Seq::<char>::empty());
                } else {
                    assert(after.drop_last() =~= before.drop_last());
                    assert(list@.subrange(start as int, i + 1) =~= list@.subrange(
                        start as int,
                        i as int,
                    ).push(list@[i as int]));
                }
                i = i + 1;
            }
            assert(list@.take(n as int) =~= list@);
            add_entry(&mut urls, list, &text, start, n);
        },
        None => {},
    }
    urls
}

/// The primary endpoint always comes first.
pub proof fn primary_url_comes_first(primary: Seq<char>, extra: Option<Seq<char>>)
    ensures
        rpc_urls(primary, extra).len() > 0,
        rpc_urls(primary, extra)[0] == primary,
{
    if let Some(list) = extra {
        lemma_primary_first(primary, between_commas(list));
    }
}

/// The primary endpoint comes first, whatever the entries.
proof fn lemma_primary_first(primary: Seq<char>, entries: Seq<Seq<char>>)
    ensures
        with_urls(primary, entries).len() > 0,
        with_urls(primary, entries)[0] == primary,
    decreases entries.len(),
{
    if entries.len() > 0 {
        lemma_primary_first(primary, entries.drop_last());
    }
}

/// No endpoint is listed twice, so none gets the same transaction twice.
pub proof fn no_url_is_listed_twice(primary: Seq<char>, extra: Option<Seq<char>>)
    ensures
        rpc_urls(primary, extra).no_duplicates(),
{
    if let Some(list) = extra {
        lemma_no_duplicates(primary, between_commas(list));
    }
}

/// No endpoint is listed twice, whatever the entries.
proof fn lemma_no_duplicates(primary: Seq<char>, entries: Seq<Seq<char>>)
    ensures
        with_urls(primary, entries).no_duplicates(),
    decreases entries.len(),
{
    if entries.len() > 0 {
        lemma_no_duplicates(primary, entries.drop_last());
    }
}

/// The list holds the primary endpoint and the entries that are not blank, and nothing else.
pub proof fn urls_are_the_entries(primary: Seq<char>, list: Seq<char>, url: Seq<char>)
    ensures
        rpc_urls(primary, Some(list)).contains(url) <==> (url == primary || (url.len() > 0
            && exists|i: int|
            0 <= i < between_commas(list).len() && url == trimmed(
                #[trigger] between_commas(list)[i],
            ))),
{
    lemma_entries(primary, between_commas(list), url);
}

/// The endpoints are the primary one and the entries that are not blank.
proof fn lemma_entries(primary: Seq<char>, entries: Seq<Seq<char>>, url: Seq<char>)
    ensures
        with_urls(primary, entries).contains(url) <==> (url == primary || (url.len() > 0
            && exists|i: int| 0 <= i < entries.len() && url == trimmed(#[trigger] entries[i]))),
    decreases entries.len(),
{
    if entries.len() == 0 {
        assert(seq![primary][0] == primary);
    } else {
        let front = entries.drop_last();
        let urls = with_urls(primary, front);
        let last = trimmed(entries.last());
        lemma_entries(primary, front, url);
        assert(entries[entries.len() - 1] == entries.last());
        if exists|i: int| 0 <= i < front.len() && url == trimmed(#[trigger] front[i]) {
            let i = choose|i: int| 0 <= i < front.len() && url == trimmed(#[trigger] front[i]);
            assert(entries[i] == front[i]);
        }
        if exists|i: int| 0 <= i < entries.len() && url == trimmed(#[trigger] entries[i]) {
            let i = choose|i: int| 0 <= i < entries.len() && url == trimmed(#[trigger] entries[i]);
            if i < front.len() {
                assert(front[i] == entries[i]);
            }
        }
        if last.len() > 0 && !urls.contains(last) {
            let more = urls.push(last);
            assert(more[more.len() - 1] == last);
            if urls.contains(url) {
                let k = choose|k: int| 0 <= k < urls.len() && urls[k] == url;
                assert(more[k] == url);
            }
            if more.contains(url) {
                let k = choose|k: int| 0 <= k < more.len() && more[k] == url;
                if k < urls.len() {
                    assert(urls[k] == url);
                }
            }
        }
    }
}

/// What an error of a submitted transaction means.
pub open spec fn submit_reason(error: Seq<char>) -> Seq<char> {
    if contains_text(error, "AboveTarget"@) || contains_text(error, "0x1773"@) {
        "above target"@
    } else if contains_text(error, "InvalidEquihash"@) || contains_text(error, "0x1772"@) {
        "stale challenge"@
    } else if contains_text(error, "blockhash not found"@) || contains_text(
        error,
        "BlockhashNotFound"@,
    ) {
        "blockhash expired"@
    } else {
        "submit error"@
    }
}

/// Tells from its text what an error of a submitted transaction means.
pub fn classify_submit_err(s: &str) -> (r: &'static str)
    ensures
        r@ == submit_reason(s@),
{
    if contains(s, "AboveTarget") || contains(s, "0x1773") {
        "above target"
    } else if contains(s, "InvalidEquihash") || contains(s, "0x1772") {
        "stale challenge"
    } else if contains(s, "blockhash not found") || contains(s, "BlockhashNotFound") {
        "blockhash expired"
    } else {
        "submit error"
    }
}

/// Whether a text is white space only.
pub open spec fn is_blank(s: Seq<char>) -> bool {
    forall|i: int| 0 <= i < s.len() ==> is_white_space(#[trigger] s[i])
}

/// What trimming in front takes off is white space, and none is left in front.
proof fn lemma_trimmed_start(s: Seq<char>) -> (n: int)
    ensures
        0 <= n <= s.len(),
        trimmed_start(s) == s.skip(n),
        is_blank(s.take(n)),
        n < s.len() ==> !is_white_space(s[n]),
    decreases s.len(),
{
    if s.len() > 0 && is_white_space(s[0]) {
        let rest = s.drop_first();
        let m = lemma_trimmed_start(rest);
        assert(rest.skip(m) =~= s.skip(m + 1));
        assert forall|i: int| 0 <= i < m + 1 implies is_white_space(
            #[trigger] s.take(m + 1)[i],
        ) by {
            if i > 0 {
                assert(s.take(m + 1)[i] == rest.take(m)[i - 1]);
            }
        }
        if m + 1 < s.len() {
            assert(rest[m] == s[m + 1]);
        }
        m + 1
    } else {
        assert(s.skip(0) =~= s);
        0
    }
}

/// What trimming behind takes off is white space, and none is left behind.
proof fn lemma_trimmed_end(s: Seq<char>) -> (n: int)
    ensures
        0 <= n <= s.len(),
        trimmed_end(s) == s.take(n),
        is_blank(s.skip(n)),
        n > 0 ==> !is_white_space(s[n - 1]),
    decreases s.len(),
{
    if s.len() > 0 && is_white_space(s.last()) {
        let rest = s.drop_last();
        let n = lemma_trimmed_end(rest);
        assert(rest.take(n) =~= s.take(n));
        assert forall|i: int| 0 <= i < s.len() - n implies is_white_space(
            #[trigger] s.skip(n)[i],
        ) by {
            if i < rest.len() - n {
                assert(s.skip(n)[i] == rest.skip(n)[i]);
            }
        }
        if n > 0 {
            assert(rest[n - 1] == s[n - 1]);
        }
        n
    } else {
        assert(s.take(s.len() as int) =~= s);
        s.len() as int
    }
}

/// Trimming takes off white space only, and all of it: a text is white space, the trimmed text, and
/// white space, and the trimmed text neither begins nor ends with any.
pub proof fn only_white_space_is_trimmed(s: Seq<char>)
    ensures
        exists|a: Seq<char>, b: Seq<char>|
            s == #[trigger] (a + trimmed(s) + b) && is_blank(a) && is_blank(b),
        trimmed(s).len() > 0 ==> !is_white_space(trimmed(s)[0]) && !is_white_space(
            trimmed(s).last(),
        ),
{
    let m = lemma_trimmed_start(s);
    let mid = s.skip(m);
    let n = lemma_trimmed_end(mid);
    let a = s.take(m);
    let b = mid.skip(n);
    assert(s =~= a + trimmed(s) + b);
    if trimmed(s).len() > 0 {
        assert(trimmed(s)[0] == s[m]);
        assert(trimmed(s).last() == mid[n - 1]);
    }
}

/// A text that neither begins nor ends with white space is left as it is when it is trimmed; so is
/// what stands between white space.
pub proof fn trimmed_text_is_left_alone(a: Seq<char>, s: Seq<char>, b: Seq<char>)
    requires
        is_blank(a),
        is_blank(b),
        s.len() > 0,
        !is_white_space(s[0]),
        !is_white_space(s.last()),
    ensures
        trimmed(a + s + b) == s,
        trimmed(s) == s,
{
    lemma_trimmed_between(a, s, b);
    let none = Seq::<char>::empty();
    lemma_trimmed_between(none, s, none);
    assert(none + s + none =~= s);
}

/// What stands between white space is left as it is.
proof fn lemma_trimmed_between(a: Seq<char>, s: Seq<char>, b: Seq<char>)
    requires
        is_blank(a),
        is_blank(b),
        s.len() > 0,
        !is_white_space(s[0]),
        !is_white_space(s.last()),
    ensures
        trimmed(a + s + b) == s,
{
    let all = a + s + b;
    let m = lemma_trimmed_start(all);
    let mid = all.skip(m);
    let n = lemma_trimmed_end(mid);
    let from = a.len() as int;
    let to = (a.len() + s.len()) as int;
    assert(all[from] == s[0]);
    assert(all[to - 1] == s.last());
    if m < from {
        assert(all[m] == a[m]);
    } else if m > from {
        assert(all.take(m)[from] == all[from]);
    }
    if m + n > to {
        assert(mid[n - 1] == all[m + n - 1]);
        assert(all[m + n - 1] == b[m + n - 1 - to]);
    } else if m + n < to {
        assert(mid.skip(n)[to - 1 - m - n] == all[to - 1]);
    }
    assert(trimmed(all) =~= s);
}

/// White space is what Unicode calls so, by code point.
pub proof fn white_space_is_that_of_unicode(c: char)
    ensures
        is_white_space(c) <==> {
            let code = c as u32;
            ||| 9 <= code <= 13
            ||| code == 32
            ||| code == 0x85
            ||| code == 0xa0
            ||| code == 0x1680
            ||| 0x2000 <= code <= 0x200a
            ||| code == 0x2028
            ||| code == 0x2029
            ||| code == 0x202f
            ||| code == 0x205f
            ||| code == 0x3000
        },
{
}

/// Some texts with commas between them.
pub open spec fn joined(parts: Seq<Seq<char>>) -> Seq<char>
    decreases parts.len(),
{
    if parts.len() == 0 {
        Seq::empty()
    } else if parts.len() == 1 {
        parts[0]
    } else {
        joined(parts.drop_last()) + seq![','] + parts.last()
    }
}

/// A list is cut at its commas and nowhere else: with commas between them the entries are the list
/// again, and no entry holds a comma.
pub proof fn list_is_cut_at_its_commas(list: Seq<char>)
    ensures
        between_commas(list).len() > 0,
        joined(between_commas(list)) == list,
        forall|i: int| 0 <= i < between_commas(list).len() ==> !(#[trigger] between_commas(list)[i]).contains(','),
    decreases list.len(),
{
    let parts = between_commas(list);
    if list.len() == 0 {
        assert(joined(parts) =~= list);
    } else {
        let front = list.drop_last();
        let before = between_commas(front);
        list_is_cut_at_its_commas(front);
        assert(list =~= front.push(list.last()));
        if list.last() == ',' {
            assert(parts.drop_last() =~= before);
            assert(joined(parts) =~= list);
        } else {
            assert(parts.drop_last() =~= before.drop_last());
            assert(parts.last() == before.last().push(list.last()));
            if before.len() == 1 {
                assert(joined(before) == before.last());
            }
            assert(joined(parts) =~= joined(before).push(list.last()));
            assert forall|i: int| 0 <= i < parts.len() implies !(#[trigger] parts[i]).contains(
                ',',
            ) by {
                if i < parts.len() - 1 {
                    assert(parts[i] == before[i]);
                } else {
                    assert(before[i] == before.last());
                    if parts[i].contains(',') {
                        let k = choose|k: int| 0 <= k < parts[i].len() && parts[i][k] == ',';
                        assert(k < before[i].len());
                        assert(before[i][k] == ',');
                    }
                }
            }
        }
    }
}

/// An entry behind a comma is the last entry of the list.
proof fn lemma_last_entry(list: Seq<char>, entry: Seq<char>)
    requires
        !entry.contains(','),
    ensures
        between_commas(list.push(',') + entry) == between_commas(list).push(entry),
    decreases entry.len(),
{
    let all = list.push(',') + entry;
    list_is_cut_at_its_commas(list);
    if entry.len() == 0 {
        assert(all =~= list.push(','));
        assert(all.drop_last() =~= list);
        assert(entry =~= Seq::<char>::empty());
    } else {
        let front = entry.drop_last();
        assert forall|k: int| 0 <= k < front.len() implies front[k] != ',' by {
            assert(front[k] == entry[k]);
            assert(entry.contains(entry[k]));
        }
        lemma_last_entry(list, front);
        assert(entry.contains(entry[entry.len() - 1]));
        assert(all.drop_last() =~= list.push(',') + front);
        assert(all.last() == entry.last());
        let before = between_commas(all.drop_last());
        assert(before.drop_last() =~= between_commas(list));
        assert(before.last() == front);
        assert(front.push(entry.last()) =~= entry);
    }
}

/// A text without a comma is the one entry of its list.
proof fn lemma_only_entry(entry: Seq<char>)
    requires
        !entry.contains(','),
    ensures
        between_commas(entry) == seq![entry],
    decreases entry.len(),
{
    if entry.len() == 0 {
        assert(entry =~= Seq::<char>::empty());
    } else {
        let front = entry.drop_last();
        assert forall|k: int| 0 <= k < front.len() implies front[k] != ',' by {
            assert(front[k] == entry[k]);
            assert(entry.contains(entry[k]));
        }
        lemma_only_entry(front);
        assert(entry.contains(entry[entry.len() - 1]));
        assert(front.push(entry.last()) =~= entry);
        assert(between_commas(entry) =~= seq![entry]);
    }
}

/// One entry more at the end of the list is one endpoint more at the end, whole but for the white
/// space around it; unless it is blank or listed before, which changes nothing.
pub proof fn list_grows_by_its_last_entry(primary: Seq<char>, list: Seq<char>, entry: Seq<char>)
    requires
        !entry.contains(','),
    ensures
        ({
            let before = rpc_urls(primary, Some(list));
            let after = rpc_urls(primary, Some(list.push(',') + entry));
            let url = trimmed(entry);
            after == (if url.len() > 0 && !before.contains(url) {
                before.push(url)
            } else {
                before
            })
        }),
{
    lemma_last_entry(list, entry);
    assert(between_commas(list).push(entry).drop_last() =~= between_commas(list));
}

/// Without a list there is the primary endpoint alone; with one entry that entry too, unless it is
/// blank or the primary endpoint again.
pub proof fn list_begins_with_the_primary(primary: Seq<char>, entry: Seq<char>)
    requires
        !entry.contains(','),
    ensures
        rpc_urls(primary, None) == seq![primary],
        rpc_urls(primary, Some(entry)) == (if trimmed(entry).len() > 0 && trimmed(entry)
            != primary {
            seq![primary, trimmed(entry)]
        } else {
            seq![primary]
        }),
{
    lemma_only_entry(entry);
    let alone = seq![primary];
    assert(seq![entry].drop_last() =~= Seq::<Seq<char>>::empty());
    assert(with_urls(primary, seq![entry].drop_last()) == alone);
    assert(with_urls(primary, seq![entry]) == with_url(alone, entry));
    assert(alone[0] == primary);
    if alone.contains(trimmed(entry)) {
        let k = choose|k: int| 0 <= k < alone.len() && alone[k] == trimmed(entry);
        assert(k == 0);
    }
    assert(seq![primary].push(trimmed(entry)) =~= seq![primary, trimmed(entry)]);
}

/// The texts of a list are those of its strings, letter for letter and in their order.
pub proof fn texts_are_taken_at_their_word(list: Seq<String>, s: String)
    ensures
        texts(list).len() == list.len(),
        forall|i: int| 0 <= i < list.len() ==> #[trigger] texts(list)[i] == list[i]@,
        text_of(Some(s)) == Some(s@),
        text_of(None) is None,
{
}

/// Each reason is told by its marks, wherever they stand in the error: too high a hash first, then a
/// stale challenge, then an expired blockhash, and where none of these marks stands, no more than
/// that there was an error.
pub proof fn errors_are_told_by_their_marks(error: Seq<char>)
    ensures
        ({
            let above = contains_text(error, "AboveTarget"@) || contains_text(error, "0x1773"@);
            let stale = contains_text(error, "InvalidEquihash"@) || contains_text(
                error,
                "0x1772"@,
            );
            let expired = contains_text(error, "blockhash not found"@) || contains_text(
                error,
                "BlockhashNotFound"@,
            );
            &&& submit_reason(error) == "above target"@ <==> above
            &&& submit_reason(error) == "stale challenge"@ <==> stale && !above
            &&& submit_reason(error) == "blockhash expired"@ <==> expired && !stale && !above
            &&& submit_reason(error) == "submit error"@ <==> !expired && !stale && !above
        }),
{
    reveal_strlit("above target");
    reveal_strlit("stale challenge");
    reveal_strlit("blockhash expired");
    reveal_strlit("submit error");
    assert("above target"@[0] == 'a');
    assert("stale challenge"@[1] == 't');
    assert("blockhash expired"@[0] == 'b');
    assert("submit error"@[0] == 's' && "submit error"@[1] == 'u');
}

/// A mark tells its reason whatever stands around it.
pub proof fn marks_tell_their_reason_anywhere(a: Seq<char>, b: Seq<char>)
    ensures
        submit_reason(a + "AboveTarget"@ + b) == "above target"@,
        submit_reason(a + "0x1773"@ + b) == "above target"@,
        submit_reason(a + "InvalidEquihash"@ + b) != "submit error"@,
        submit_reason(a + "0x1772"@ + b) != "submit error"@,
        submit_reason(a + "blockhash not found"@ + b) != "submit error"@,
        submit_reason(a + "BlockhashNotFound"@ + b) != "submit error"@,
{
    pattern_is_found_anywhere(a, "AboveTarget"@, b);
    pattern_is_found_anywhere(a, "0x1773"@, b);
    pattern_is_found_anywhere(a, "InvalidEquihash"@, b);
    pattern_is_found_anywhere(a, "0x1772"@, b);
    pattern_is_found_anywhere(a, "blockhash not found"@, b);
    pattern_is_found_anywhere(a, "BlockhashNotFound"@, b);
    errors_are_told_by_their_marks(a + "AboveTarget"@ + b);
    errors_are_told_by_their_marks(a + "0x1773"@ + b);
    errors_are_told_by_their_marks(a + "InvalidEquihash"@ + b);
    errors_are_told_by_their_marks(a + "0x1772"@ + b);
    errors_are_told_by_their_marks(a + "blockhash not found"@ + b);
    errors_are_told_by_their_marks(a + "BlockhashNotFound"@ + b);
}

} // verus!
