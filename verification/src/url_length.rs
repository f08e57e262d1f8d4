//! How far the URL parser counts.
//!
//! `url::Url::parse` counts some of the characters of a text in integers of limited size. What it
//! counts is stated here, so that no text is handed to it on which a counter overflows. A long path
//! or a long query is not counted.
use vstd::prelude::*;

use crate::query_providers;

verus! {

/// A kind of characters that can stand in a row.
#[derive(Debug, Clone, Copy, PartialEq, Eq, Structural)]
pub enum Kind {
    /// Control characters and spaces.
    Blank,
    /// What can stand in front of the colon.
    Scheme,
    /// Slashes and backslashes.
    Slash,
    /// What can stand in front of the path.
    Authority,
    /// What can stand in front of the path where a backslash counts as a slash.
    SpecialAuthority,
}

/// The character is of this kind.
pub open spec fn is_of(kind: Kind, c: char) -> bool {
    match kind {
        Kind::Blank => c <= ' ',
        Kind::Scheme => c != ':',
        Kind::Slash => c == '/' || c == '\\',
        Kind::Authority => c != '/' && c != '?' && c != '#',
        Kind::SpecialAuthority => c != '/' && c != '?' && c != '#' && c != '\\',
    }
}

/// Whether the character is of this kind.
fn check_kind(kind: Kind, c: char) -> (is: bool)
    ensures
        is == is_of(kind, c),
{
    match kind {
        Kind::Blank => c <= ' ',
        Kind::Scheme => c != ':',
        Kind::Slash => c == '/' || c == '\\',
        Kind::Authority => c != '/' && c != '?' && c != '#',
        Kind::SpecialAuthority => c != '/' && c != '?' && c != '#' && c != '\\',
    }
}

/// The number of characters of a kind that a text starts with.
pub open spec fn run_len(text: Seq<char>, kind: Kind) -> nat
    decreases text.len(),
{
    if text.len() > 0 && is_of(kind, text[0]) {
        1 + run_len(text.skip(1), kind)
    } else {
        0
    }
}

/// The text without the control characters and spaces at its end.
pub open spec fn trim_end(text: Seq<char>) -> Seq<char>
    decreases text.len(),
{
    if text.len() > 0 && is_of(Kind::Blank, text.last()) {
        trim_end(text.drop_last())
    } else {
        text
    }
}

/// The character is a tab or ends a line.
pub open spec fn is_break(c: char) -> bool {
    c == '\t' || c == '\n' || c == '\r'
}

/// The characters of a text that matter for the URL that it stands for: those at its ends that are
/// control characters or spaces do not, nor do tabs and line ends.
pub open spec fn significant(text: Seq<char>) -> Seq<char> {
    let trimmed = trim_end(text);
    trimmed.skip(run_len(trimmed, Kind::Blank) as int).filter(|c: char| !is_break(c))
}

/// In URLs of this scheme a backslash counts as a slash, and there can be any number of slashes in
/// front of the authority.
pub open spec fn is_special(scheme: Seq<char>) -> bool {
    scheme == "http"@ || scheme == "https"@ || scheme == "ws"@ || scheme == "wss"@ || scheme
        == "ftp"@
}

/// What the parser counts in a text: the characters of the scheme, the slashes in front of the
/// authority, and the characters of the authority.
#[derive(Debug, Clone, Copy, PartialEq, Eq, Structural)]
pub struct UrlCounts {
    pub scheme: usize,
    pub slashes: usize,
    pub authority: usize,
}

/// The numbers of characters in the scheme of a text, in the slashes in front of its authority, and
/// in its authority.
pub open spec fn counts_of(text: Seq<char>) -> (nat, nat, nat) {
    let all = significant(text);
    let scheme_len = run_len(all, Kind::Scheme);
    let scheme = query_providers::lower(all.take(scheme_len as int));
    let rest = if scheme_len < all.len() {
        all.skip(scheme_len as int + 1)
    } else {
        Seq::empty()
    };
    if is_special(scheme) {
        let slashes = run_len(rest, Kind::Slash);
        (scheme_len, slashes, run_len(rest.skip(slashes as int), Kind::SpecialAuthority))
    } else if scheme != "file"@ && rest.len() >= 2 && rest[0] == '/' && rest[1] == '/' {
        (scheme_len, 0, run_len(rest.skip(2), Kind::Authority))
    } else {
        (scheme_len, 0, 0)
    }
}

/// The counters of the parser do not overflow on the text: the one for the authority is an `i32`,
/// the one for the slashes a `u32`, and places behind the scheme are added up in a `u32`.
pub open spec fn is_countable(text: Seq<char>) -> bool {
    let (scheme, slashes, authority) = counts_of(text);
    scheme <= 0xffff_fffc && slashes <= 0xffff_ffff && authority <= 0x7fff_ffff
}

/// The characters of a text.
fn characters(text: &str) -> (chars: Vec<char>)
    ensures
        chars@ == text@,
{
    let mut chars: Vec<char> = Vec::new();
    for c in iter: text.chars()
        invariant
            chars@ == iter.seq().take(iter.index() as int),
    {
        chars.push(c);
    }
    chars
}

/// The number of characters of a kind from the place `start` on.
fn count_run(chars: &Vec<char>, start: usize, kind: Kind) -> (len: usize)
    requires
        start <= chars@.len(),
    ensures
        len == run_len(chars@.skip(start as int), kind),
        start + len <= chars@.len(),
{
    let mut i: usize = start;
    while i < chars.len() && check_kind(kind, chars[i])
        invariant
            start <= i <= chars@.len(),
            run_len(chars@.skip(start as int), kind) == (i - start) + run_len(
                chars@.skip(i as int),
                kind,
            ),
        decreases chars.len() - i,
    {
        assert(chars@.skip(i as int).skip(1) =~= chars@.skip(i + 1));
        i += 1;
    }
    i - start
}

/// The characters of a text that matter for the URL that it stands for.
fn keep_significant(text: &str) -> (kept: Vec<char>)
    ensures
        kept@ == significant(text@),
{
    let mut chars = characters(text);
    while chars.len() > 0 && check_kind(Kind::Blank, chars[chars.len() - 1])
        invariant
            trim_end(chars@) == trim_end(text@),
        decreases chars.len(),
    {
        chars.pop();
    }
    let first = count_run(&chars, 0, Kind::Blank);
    assert(chars@.skip(0) =~= chars@);
    let ghost trimmed = chars@.skip(first as int);
    let mut kept: Vec<char> = Vec::new();
    let mut i: usize = first;
    proof {
        reveal(Seq::filter);
    }
    while i < chars.len()
        invariant
            first <= i <= chars@.len(),
            trimmed == chars@.skip(first as int),
            kept@ == trimmed.take(i - first).filter(|c: char| !is_break(c)),
        decreases chars.len() - i,
    {
        let c = chars[i];
        proof {
            reveal(Seq::filter);
            assert(trimmed.take(i + 1 - first).drop_last() =~= trimmed.take(i - first));
        }
        if !(c == '\t' || c == '\n' || c == '\r') {
            kept.push(c);
        }
        i += 1;
    }
    assert(trimmed.take(i - first) =~= trimmed);
    kept
}

/// The character in lower case.
fn to_lower(c: char) -> (lower: char)
    ensures
        lower == query_providers::lower_char(c),
{
    if 'A' <= c && c <= 'Z' {
        ((c as u8) + 32) as char
    } else {
        c
    }
}

/// Whether the first `len` characters, in lower case, are `word`.
fn starts_as(chars: &Vec<char>, len: usize, word: &str) -> (same: bool)
    requires
        len <= chars@.len(),
    ensures
        same == (query_providers::lower(chars@.take(len as int)) == word@),
{
    if len != word.unicode_len() {
        return false;
    }
    let ghost start = query_providers::lower(chars@.take(len as int));
    let mut i: usize = 0;
    while i < len
        invariant
            i <= len,
            len <= chars@.len(),
            len == word@.len(),
            start == query_providers::lower(chars@.take(len as int)),
            forall|j: int| 0 <= j < i ==> start[j] == #[trigger] word@[j],
        decreases len - i,
    {
        if to_lower(chars[i]) != word.get_char(i) {
            assert(start[i as int] != word@[i as int]);
            return false;
        }
        i += 1;
    }
    assert(start =~= word@);
    true
}

/// Counts in a text what the parser counts.
pub fn count_in(text: &str) -> (counts: UrlCounts)
    ensures
        (counts.scheme as nat, counts.slashes as nat, counts.authority as nat) == counts_of(text@),
{
    let all = keep_significant(text);
    let scheme = count_run(&all, 0, Kind::Scheme);
    assert(all@.skip(0) =~= all@);
    let rest = if scheme < all.len() {
        scheme + 1
    } else {
        scheme
    };
    let ghost tail = if scheme < all@.len() {
        all@.skip(scheme + 1)
    } else {
        Seq::empty()
    };
    assert(tail =~= all@.skip(rest as int));
    if starts_as(&all, scheme, "http") || starts_as(&all, scheme, "https") || starts_as(
        &all,
        scheme,
        "ws",
    ) || starts_as(&all, scheme, "wss") || starts_as(&all, scheme, "ftp") {
        let slashes = count_run(&all, rest, Kind::Slash);
        let authority = count_run(&all, rest + slashes, Kind::SpecialAuthority);
        assert(tail.skip(slashes as int) =~= all@.skip(rest + slashes));
        UrlCounts { scheme, slashes, authority }
    } else if !starts_as(&all, scheme, "file") && all.len() - rest >= 2 && all[rest] == '/'
        && all[rest + 1] == '/' {
        let authority = count_run(&all, rest + 2, Kind::Authority);
        assert(tail.skip(2) =~= all@.skip(rest + 2));
        UrlCounts { scheme, slashes: 0, authority }
    } else {
        UrlCounts { scheme, slashes: 0, authority: 0 }
    }
}

/// Whether the counters of the parser do not overflow on the text.
pub fn can_be_counted(text: &str) -> (can: bool)
    ensures
        can == is_countable(text@),
{
    let counts = count_in(text);
    counts.scheme <= 0xffff_fffc && counts.slashes <= 0xffff_ffff && counts.authority <= 0x7fff_ffff
}

/// A row of characters is no longer than the text that it stands in.
proof fn lemma_run_len(text: Seq<char>, kind: Kind)
    ensures
        run_len(text, kind) <= text.len(),
    decreases text.len(),
{
    if text.len() > 0 && is_of(kind, text[0]) {
        lemma_run_len(text.skip(1), kind);
    }
}

/// Trimming does not make a text longer.
proof fn lemma_trim_end_len(text: Seq<char>)
    ensures
        trim_end(text).len() <= text.len(),
    decreases text.len(),
{
    if text.len() > 0 && is_of(Kind::Blank, text.last()) {
        lemma_trim_end_len(text.drop_last());
    }
}

/// A text that is not longer than the smallest counter can count is never refused for its length.
pub proof fn law_short_texts_are_counted(text: Seq<char>)
    requires
        text.len() <= 0x7fff_ffff,
    ensures
        is_countable(text),
{
    let trimmed = trim_end(text);
    lemma_trim_end_len(text);
    lemma_run_len(trimmed, Kind::Blank);
    let inner = trimmed.skip(run_len(trimmed, Kind::Blank) as int);
    inner.lemma_filter_len(|c: char| !is_break(c));
    let all = significant(text);
    lemma_run_len(all, Kind::Scheme);
    let scheme_len = run_len(all, Kind::Scheme);
    let rest = if scheme_len < all.len() {
        all.skip(scheme_len as int + 1)
    } else {
        Seq::empty()
    };
    lemma_run_len(rest, Kind::Slash);
    let slashes = run_len(rest, Kind::Slash);
    lemma_run_len(rest.skip(slashes as int), Kind::SpecialAuthority);
    if rest.len() >= 2 {
        lemma_run_len(rest.skip(2), Kind::Authority);
    }
}

/// A row of characters of a kind ends where a character of another kind follows.
proof fn lemma_run_ends(row: Seq<char>, after: Seq<char>, kind: Kind)
    requires
        forall|i: int| 0 <= i < row.len() ==> is_of(kind, #[trigger] row[i]),
        after.len() > 0 ==> !is_of(kind, after[0]),
    ensures
        run_len(row + after, kind) == row.len(),
    decreases row.len(),
{
    let text = row + after;
    if row.len() > 0 {
        assert(text.skip(1) =~= row.skip(1) + after);
        assert(is_of(kind, row[0]));
        lemma_run_ends(row.skip(1), after, kind);
    } else {
        assert(text =~= after);
    }
}

/// Trimming leaves the front of a text alone, up to a character that is not trimmed.
proof fn lemma_trim_end_of(front: Seq<char>, back: Seq<char>)
    requires
        front.len() > 0,
        !is_of(Kind::Blank, front.last()),
    ensures
        trim_end(front + back) == front + trim_end(back),
    decreases back.len(),
{
    let text = front + back;
    if back.len() > 0 {
        assert(text.last() == back.last());
        if is_of(Kind::Blank, back.last()) {
            assert(text.drop_last() =~= front + back.drop_last());
            lemma_trim_end_of(front, back.drop_last());
        }
    } else {
        assert(text =~= front);
        assert(front + trim_end(back) =~= front);
    }
}

/// Filtering a text without tabs and line ends leaves it as it is.
proof fn lemma_nothing_to_filter(text: Seq<char>)
    requires
        forall|i: int| 0 <= i < text.len() ==> !is_break(#[trigger] text[i]),
    ensures
        text.filter(|c: char| !is_break(c)) == text,
    decreases text.len(),
{
    reveal(Seq::filter);
    if text.len() > 0 {
        lemma_nothing_to_filter(text.drop_last());
        assert(text =~= text.drop_last().push(text.last()));
    }
}

/// What matters of a text that starts with visible characters.
proof fn lemma_significant(front: Seq<char>, back: Seq<char>)
    requires
        front.len() > 0,
        forall|i: int| 0 <= i < front.len() ==> #[trigger] front[i] > ' ',
    ensures
        significant(front + back) == front + trim_end(back).filter(|c: char| !is_break(c)),
{
    lemma_trim_end_of(front, back);
    let trimmed = front + trim_end(back);
    assert(trimmed[0] == front[0]);
    assert(trimmed.skip(0) =~= trimmed);
    lemma_nothing_to_filter(front);
    Seq::filter_distributes_over_add(front, trim_end(back), |c: char| !is_break(c));
}

/// What is counted of a scheme, a colon, slashes, a host, and something that does not belong to it.
proof fn lemma_counted(
    scheme: Seq<char>,
    slashes: Seq<char>,
    host: Seq<char>,
    end: Seq<char>,
    all: Seq<char>,
)
    requires
        forall|i: int| 0 <= i < scheme.len() ==> is_of(Kind::Scheme, #[trigger] scheme[i]),
        forall|i: int| 0 <= i < slashes.len() ==> is_of(Kind::Slash, #[trigger] slashes[i]),
        host.len() > 0,
        forall|i: int| 0 <= i < host.len() ==> is_of(Kind::SpecialAuthority, #[trigger] host[i]),
        end.len() > 0 ==> !is_of(Kind::SpecialAuthority, end[0]),
        all == scheme + (seq![':'] + (slashes + (host + end))),
    ensures
        run_len(all, Kind::Scheme) == scheme.len(),
        all.take(scheme.len() as int) == scheme,
        scheme.len() < all.len(),
        run_len(all.skip(scheme.len() as int + 1), Kind::Slash) == slashes.len(),
        run_len(
            all.skip(scheme.len() as int + 1).skip(slashes.len() as int),
            Kind::SpecialAuthority,
        ) == host.len(),
{
    let host_on = host + end;
    let behind = seq![':'] + (slashes + host_on);
    assert(behind[0] == ':');
    lemma_run_ends(scheme, behind, Kind::Scheme);
    assert(all.take(scheme.len() as int) =~= scheme);
    assert(all.skip(scheme.len() as int + 1) =~= slashes + host_on);
    assert(host_on[0] == host[0]);
    assert(is_of(Kind::SpecialAuthority, host[0]));
    lemma_run_ends(slashes, host_on, Kind::Slash);
    assert((slashes + host_on).skip(slashes.len() as int) =~= host_on);
    lemma_run_ends(host, end, Kind::SpecialAuthority);
}

/// Of a text with one of the schemes of the web, any number of slashes and a host, the scheme, the
/// slashes and the host are counted, and nothing of what comes behind it, however long it is.
pub proof fn law_path_is_not_counted(
    scheme: Seq<char>,
    slashes: Seq<char>,
    host: Seq<char>,
    tail: Seq<char>,
)
    requires
        scheme == "http"@ || scheme == "https"@ || scheme == "ws"@ || scheme == "wss"@ || scheme
            == "ftp"@,
        forall|i: int|
            0 <= i < slashes.len() ==> #[trigger] slashes[i] == '/' || slashes[i] == '\\',
        host.len() > 0,
        forall|i: int|
            0 <= i < host.len() ==> {
                let c = #[trigger] host[i];
                c > ' ' && c != '/' && c != '\\' && c != '?' && c != '#'
            },
        tail.len() > 0 ==> tail[0] == '/' || tail[0] == '\\' || tail[0] == '?' || tail[0] == '#',
    ensures
        counts_of(scheme + seq![':'] + slashes + host + tail) == (
            scheme.len(),
            slashes.len(),
            host.len(),
        ),
        is_countable(scheme + seq![':'] + slashes + host + tail) <==> slashes.len() <= 0xffff_ffff
            && host.len() <= 0x7fff_ffff,
{
    reveal_strlit("http");
    reveal_strlit("https");
    reveal_strlit("ws");
    reveal_strlit("wss");
    reveal_strlit("ftp");
    let text = scheme + seq![':'] + slashes + host + tail;
    let mark = tail.take(if tail.len() > 0 {
        1
    } else {
        0
    });
    let path = tail.skip(mark.len() as int);
    let front = scheme + seq![':'] + slashes + host + mark;
    assert(text =~= front + path);
    assert forall|i: int| 0 <= i < front.len() implies #[trigger] front[i] > ' ' by {
        let first = scheme.len() + 1;
        let second = first + slashes.len();
        if first <= i < second {
            assert(front[i] == slashes[i - first]);
        } else if second <= i < second + host.len() {
            assert(front[i] == host[i - second]);
        }
    }
    lemma_significant(front, path);
    let end = trim_end(path).filter(|c: char| !is_break(c));
    assert(path.len() == 0 ==> end =~= Seq::<char>::empty()) by {
        reveal(Seq::filter);
    }
    let all = front + end;
    assert(all =~= scheme + (seq![':'] + (slashes + (host + (mark + end)))));
    lemma_counted(scheme, slashes, host, mark + end, all);
    assert(query_providers::lower(scheme) =~= scheme);
}

/// The limits are those of the counters: four less than two to the power of 32 for the scheme, one
/// less than that power for the slashes, and one less than half of it for the authority.
pub proof fn law_limits(text: Seq<char>)
    ensures
        ({
            let (scheme, slashes, authority) = counts_of(text);
            is_countable(text) <==> scheme + 4 <= 0x1_0000_0000 && slashes < 0x1_0000_0000
                && authority < 0x8000_0000
        }),
{
}

} // verus!
