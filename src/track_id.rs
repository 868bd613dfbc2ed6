//! Extraction of a typed track reference from a share URL.

use vstd::prelude::*;
use crate::error::ResolveError;
use crate::text::{contains, decimal, digit_char, is_digit, digit_value, strip_marker, str_contains, remove_fragment_marker};

verus! {

/// A reference to something playable: a song, or a program that wraps one.
#[derive(Clone, Copy, Debug, PartialEq, Eq, Structural)]
pub enum TrackRef {
    Standalone(u64),
    Program(u64),
}

impl TrackRef {
    pub open spec fn id(self) -> u64 {
        match self {
            TrackRef::Standalone(id) => id,
            TrackRef::Program(id) => id,
        }
    }
}

pub open spec fn all_digits(s: Seq<char>) -> bool {
    forall|i: int| 0 <= i < s.len() ==> is_digit(#[trigger] s[i])
}

/// The number that a string of decimal digits denotes.
pub open spec fn digits_value(s: Seq<char>) -> nat
    decreases s.len(),
{
    if s.len() == 0 {
        0
    } else {
        digits_value(s.drop_last()) * 10 + digit_value(s.last())
    }
}

/// The text with one leading `+` removed, if it has one.
pub open spec fn unsigned_body(s: Seq<char>) -> Seq<char> {
    if s.len() > 0 && s[0] == '+' {
        s.drop_first()
    } else {
        s
    }
}

/// What `u64::from_str` accepts: an optional `+`, then one or more ASCII digits
/// whose value fits in 64 bits.
pub open spec fn parse_u64_spec(s: Seq<char>) -> Option<u64> {
    let body = unsigned_body(s);
    if body.len() > 0 && all_digits(body) && digits_value(body) <= u64::MAX {
        Some(digits_value(body) as u64)
    } else {
        None
    }
}

proof fn lemma_digits_value_prefix(s: Seq<char>, i: int)
    requires
        all_digits(s),
        0 <= i <= s.len(),
    ensures
        digits_value(s.subrange(0, i)) <= digits_value(s),
    decreases s.len(),
{
    if i < s.len() {
        assert(s.drop_last().subrange(0, i) =~= s.subrange(0, i));
        lemma_digits_value_prefix(s.drop_last(), i);
    } else {
        assert(s.subrange(0, i) =~= s);
    }
}

/// Parses an unsigned decimal number as `u64::from_str` does.
pub fn parse_u64(s: &str) -> (r: Option<u64>)
    ensures
        r == parse_u64_spec(s@),
{
    let n = s.unicode_len();
    let start: usize = if n > 0 && s.get_char(0) == '+' {
        1
    } else {
        0
    };
    let ghost body = s@.subrange(start as int, n as int);
    assert(body =~= unsigned_body(s@));
    if start == n {
        return None;
    }
    let mut i: usize = start;
    while i < n
        invariant
            n == s@.len(),
            start <= i <= n,
            body == s@.subrange(start as int, n as int),
            body == unsigned_body(s@),
            forall|k: int| start <= k < i ==> is_digit(#[trigger] s@[k]),
        decreases n - i,
    {
        let c = s.get_char(i);
        if !('0' <= c && c <= '9') {
            assert(body[i - start] == s@[i as int]);
            assert(!is_digit(body[i - start]));
            assert(!all_digits(body));
            return None;
        }
        i = i + 1;
    }
    assert(all_digits(body)) by {
        assert forall|k: int| 0 <= k < body.len() implies is_digit(#[trigger] body[k]) by {
            assert(body[k] == s@[start + k]);
        }
    }
    let mut acc: u64 = 0;
    let mut i: usize = start;
    assert(body.subrange(0, 0) =~= Seq::<char>::empty());
    while i < n
        invariant
            n == s@.len(),
            start <= i <= n,
            body == s@.subrange(start as int, n as int),
            body == unsigned_body(s@),
            all_digits(body),
            acc == digits_value(body.subrange(0, i - start)),
        decreases n - i,
    {
        let c = s.get_char(i);
        assert(body[i - start] == c);
        let d = (c as u32 - 48) as u64;
        let ghost pre = body.subrange(0, i - start + 1);
        assert(pre.drop_last() =~= body.subrange(0, i - start));
        assert(pre.last() == c);
        assert(digits_value(pre) == acc * 10 + d);
        match acc.checked_mul(10) {
            Some(t) => match t.checked_add(d) {
                Some(v) => {
                    acc = v;
                },
                None => {
                    proof {
                        lemma_digits_value_prefix(body, i - start + 1);
                    }
                    assert(digits_value(body) > u64::MAX);
                    return None;
                },
            },
            None => {
                proof {
                    lemma_digits_value_prefix(body, i - start + 1);
                }
                assert(acc * 10 > u64::MAX);
                assert(digits_value(pre) >= acc * 10);
                assert(digits_value(body) > u64::MAX);
                return None;
            },
        }
        i = i + 1;
    }
    assert(body.subrange(0, n - start) =~= body);
    Some(acc)
}

pub open spec fn starts_with_id_key(seg: Seq<char>) -> bool {
    seg.len() >= 3 && seg[0] == 'i' && seg[1] == 'd' && seg[2] == '='
}

/// Walks the `&`-separated segments of `rest`, `cur` being the part of the current
/// segment already read, and gives what follows `id=` in the first segment that
/// starts with it.
pub open spec fn scan_id(rest: Seq<char>, cur: Seq<char>) -> Option<Seq<char>>
    decreases rest.len(),
{
    if rest.len() == 0 || rest[0] == '&' {
        if starts_with_id_key(cur) {
            Some(cur.skip(3))
        } else if rest.len() == 0 {
            None
        } else {
            scan_id(rest.drop_first(), Seq::empty())
        }
    } else {
        scan_id(rest.drop_first(), cur.push(rest[0]))
    }
}

/// The value of the first `id=` parameter of a query string.
pub open spec fn id_param(query: Seq<char>) -> Option<Seq<char>> {
    scan_id(query, Seq::empty())
}

/// The track id that a query string names.
pub open spec fn query_id(query: Seq<char>) -> Option<u64> {
    match id_param(query) {
        Some(v) => parse_u64_spec(v),
        None => None,
    }
}

/// Reads the `id` parameter of a query string (`a=1&id=42&b=2`) as a `u64`.
pub fn music_id_from_query(query: &str) -> (r: Result<u64, ResolveError>)
    ensures
        r is Ok <==> query_id(query@) is Some,
        r matches Ok(v) ==> query_id(query@) == Some(v),
        r matches Err(e) ==> e == ResolveError::InvalidUrl,
{
    let n = query.unicode_len();
    let mut start: usize = 0;
    let mut i: usize = 0;
    assert(query@.skip(0) =~= query@);
    assert(query@.subrange(0, 0) =~= Seq::<char>::empty());
    loop
        invariant
            n == query@.len(),
            start <= i <= n,
            id_param(query@) == scan_id(query@.skip(i as int), query@.subrange(start as int, i as int)),
        decreases n - i,
    {
        let ghost cur = query@.subrange(start as int, i as int);
        let at_end = i == n;
        if at_end || query.get_char(i) == '&' {
            if i - start >= 3 && query.get_char(start) == 'i' && query.get_char(start + 1) == 'd'
                && query.get_char(start + 2) == '=' {
                let v = query.substring_char(start + 3, i);
                assert(v@ =~= cur.skip(3));
                return match parse_u64(v) {
                    Some(id) => Ok(id),
                    None => Err(ResolveError::InvalidUrl),
                };
            }
            if at_end {
                return Err(ResolveError::InvalidUrl);
            }
            assert(query@.skip(i as int).drop_first() =~= query@.skip(i + 1));
            assert(query@.subrange(i + 1, i + 1) =~= Seq::<char>::empty());
            start = i + 1;
        } else {
            assert(query@.skip(i as int).drop_first() =~= query@.skip(i + 1));
            assert(cur.push(query@[i as int]) =~= query@.subrange(start as int, i + 1));
        }
        i = i + 1;
    }
}

/// The query component that `url::Url::parse` finds in a URL: `None` where the
/// text does not parse as a URL, `Some(None)` where the URL has no query.
pub uninterp spec fn parsed_query(url: Seq<char>) -> Option<Option<Seq<char>>>;

/// Relies on `url::Url::parse` (re-exported by reqwest) and `Url::query`: parse the
/// URL, then hand out its query component.
#[verifier::external_body]
fn url_query(url: &str) -> (r: Option<Option<String>>)
    ensures
        r is None <==> parsed_query(url@) is None,
        r matches Some(q) ==> (q is None <==> parsed_query(url@) == Some(None::<Seq<char>>)),
        r matches Some(Some(q)) ==> parsed_query(url@) == Some(Some(q@)),
{
    match reqwest::Url::parse(url) {
        Ok(u) => Some(u.query().map(|q| q.to_string())),
        Err(_) => None,
    }
}

/// The track id of a share URL: the `id` query parameter, once every `/#` is removed.
pub open spec fn url_id(url: Seq<char>) -> Option<u64> {
    match parsed_query(strip_marker(url)) {
        Some(Some(q)) => query_id(q),
        _ => None,
    }
}

/// Reads the numeric track id out of a share URL such as
/// `https://music.163.com/#/song?id=26209670`.
pub fn get_music_id(url: &str) -> (r: Result<u64, ResolveError>)
    ensures
        r is Ok <==> url_id(url@) is Some,
        r matches Ok(v) ==> url_id(url@) == Some(v),
        r matches Err(e) ==> e == ResolveError::InvalidUrl,
{
    let stripped = remove_fragment_marker(url);
    match url_query(stripped.as_str()) {
        Some(Some(q)) => music_id_from_query(q.as_str()),
        _ => Err(ResolveError::InvalidUrl),
    }
}

/// The marker that tells a program URL from a song URL.
pub open spec fn program_marker() -> Seq<char> {
    seq!['p', 'r', 'o', 'g', 'r', 'a', 'm']
}

/// Whether a URL points to a program rather than to a song.
pub fn is_program_url(url: &str) -> (r: bool)
    ensures
        r == contains(url@, program_marker()),
{
    let marker = "program";
    proof {
        reveal_strlit("program");
    }
    assert(marker@ =~= program_marker());
    str_contains(url, marker)
}

/// Where a track URL is resolved: by this crate, or by the generic downloader.
#[derive(Clone, Copy, Debug, PartialEq, Eq, Structural)]
pub enum SourceType {
    Ytdl,
    Netease,
}

/// The host of the music service.
pub const SERVICE_HOST: &'static str = "music.163.com";

/// The scheme prefix that a playable URL starts with.
pub const HTTP_PREFIX: &'static str = "http";

/// URLs of the music service are resolved here; any other goes to the downloader.
pub fn source_type(url: &str) -> (r: SourceType)
    ensures
        r is Netease <==> contains(url@, SERVICE_HOST@),
{
    if str_contains(url, SERVICE_HOST) {
        SourceType::Netease
    } else {
        SourceType::Ytdl
    }
}

/// Whether `url` starts with `http`.
pub fn is_http_url(url: &str) -> (r: bool)
    ensures
        r == (url@.len() >= HTTP_PREFIX@.len() && url@.take(HTTP_PREFIX@.len() as int) == HTTP_PREFIX@),
{
    let n = url.unicode_len();
    let m = HTTP_PREFIX.unicode_len();
    if n < m {
        return false;
    }
    let mut i: usize = 0;
    while i < m
        invariant
            n == url@.len(),
            m == HTTP_PREFIX@.len(),
            m <= n,
            i <= m,
            forall|k: int| 0 <= k < i ==> url@[k] == HTTP_PREFIX@[k],
        decreases m - i,
    {
        if url.get_char(i) != HTTP_PREFIX.get_char(i) {
            assert(url@.take(m as int)[i as int] != HTTP_PREFIX@[i as int]);
            return false;
        }
        i = i + 1;
    }
    assert(url@.take(m as int) =~= HTTP_PREFIX@);
    true
}

/// The track reference that a share URL names.
pub open spec fn url_track_ref(url: Seq<char>) -> Option<TrackRef> {
    match url_id(url) {
        Some(id) => Some(
            if contains(url, program_marker()) {
                TrackRef::Program(id)
            } else {
                TrackRef::Standalone(id)
            },
        ),
        None => None,
    }
}

/// Classifies a share URL and reads its id.
pub fn track_ref(url: &str) -> (r: Result<TrackRef, ResolveError>)
    ensures
        r is Ok <==> url_track_ref(url@) is Some,
        r matches Ok(t) ==> url_track_ref(url@) == Some(t),
        r matches Ok(t) ==> (t is Program <==> contains(url@, program_marker())),
        r matches Err(e) ==> e == ResolveError::InvalidUrl,
{
    let id = get_music_id(url)?;
    if is_program_url(url) {
        Ok(TrackRef::Program(id))
    } else {
        Ok(TrackRef::Standalone(id))
    }
}

proof fn lemma_decimal_digits(n: nat)
    ensures
        decimal(n).len() >= 1,
        all_digits(decimal(n)),
        digits_value(decimal(n)) == n,
    decreases n,
{
    assert(digit_value(digit_char(n % 10)) == n % 10);
    if n >= 10 {
        lemma_decimal_digits(n / 10);
        let d = decimal(n);
        assert(d.drop_last() =~= decimal(n / 10));
        assert(d.last() == digit_char(n % 10));
        assert(n == (n / 10) * 10 + n % 10);
        assert(digits_value(d) == digits_value(d.drop_last()) * 10 + digit_value(d.last()));
        assert(digit_value(d.last()) == n % 10);
        assert(digits_value(d.drop_last()) == n / 10);
        assert(d.drop_last() =~= decimal(n / 10));
        assert forall|i: int| 0 <= i < d.len() implies is_digit(#[trigger] d[i]) by {
            if i < d.len() - 1 {
                assert(d[i] == decimal(n / 10)[i]);
            }
        }
    } else {
        assert(decimal(n).drop_last() =~= Seq::<char>::empty());
        assert(digits_value(Seq::<char>::empty()) == 0);
    }
}

proof fn lemma_scan_id_segment(x: Seq<char>, rest: Seq<char>, cur: Seq<char>)
    requires
        forall|i: int| 0 <= i < x.len() ==> x[i] != '&',
    ensures
        scan_id(x + rest, cur) == scan_id(rest, cur + x),
    decreases x.len(),
{
    if x.len() == 0 {
        assert(x + rest =~= rest);
        assert(cur + x =~= cur);
    } else {
        assert((x + rest).drop_first() =~= x.drop_first() + rest);
        assert(cur.push(x[0]) + x.drop_first() =~= cur + x);
        lemma_scan_id_segment(x.drop_first(), rest, cur.push(x[0]));
    }
}

/// A query whose first parameter is `id=<n>`, with `n` in plain decimal and any
/// further parameters after a `&`, names track `n`.
pub proof fn lemma_query_names_id(n: u64, rest: Seq<char>)
    requires
        rest.len() == 0 || rest[0] == '&',
    ensures
        query_id(seq!['i', 'd', '='] + decimal(n as nat) + rest) == Some(n),
{
    let key = seq!['i', 'd', '='];
    let dec = decimal(n as nat);
    let x = key + dec;
    lemma_decimal_digits(n as nat);
    assert forall|i: int| 0 <= i < x.len() implies x[i] != '&' by {
        if i >= 3 {
            assert(x[i] == dec[i - 3]);
            assert(is_digit(dec[i - 3]));
        }
    }
    assert(Seq::<char>::empty() + x =~= x);
    lemma_scan_id_segment(x, rest, Seq::empty());
    assert(scan_id(rest, x) == Some(x.skip(3)));
    assert(x.skip(3) =~= dec);
    assert(is_digit(dec[0]));
    assert(unsigned_body(dec) == dec);
    assert(parse_u64_spec(dec) == Some(n));
}

proof fn lemma_scan_id_skips_segments(p: Seq<char>, cur: Seq<char>, x: Seq<char>)
    requires
        scan_id(p, cur) is None,
    ensures
        scan_id(p + seq!['&'] + x, cur) == scan_id(x, Seq::empty()),
    decreases p.len(),
{
    let q = p + seq!['&'] + x;
    if p.len() == 0 {
        assert(q.drop_first() =~= x);
    } else if p[0] == '&' {
        assert(q.drop_first() =~= p.drop_first() + seq!['&'] + x);
        lemma_scan_id_skips_segments(p.drop_first(), Seq::empty(), x);
    } else {
        assert(q.drop_first() =~= p.drop_first() + seq!['&'] + x);
        lemma_scan_id_skips_segments(p.drop_first(), cur.push(p[0]), x);
    }
}

/// A query whose first `id` parameter is `id=<n>`, with `n` in plain decimal, names
/// track `n`: `before` holds the parameters ahead of it, none of them `id`, each
/// closed by `&`.
pub proof fn lemma_query_names_later_id(before: Seq<char>, n: u64, rest: Seq<char>)
    requires
        before.len() == 0 || (before.last() == '&' && id_param(before.drop_last()) is None),
        rest.len() == 0 || rest[0] == '&',
    ensures
        query_id(before + seq!['i', 'd', '='] + decimal(n as nat) + rest) == Some(n),
{
    let tail = seq!['i', 'd', '='] + decimal(n as nat) + rest;
    lemma_query_names_id(n, rest);
    if before.len() == 0 {
        assert(before + tail =~= tail);
    } else {
        let p = before.drop_last();
        lemma_scan_id_skips_segments(p, Seq::empty(), tail);
        assert(p + seq!['&'] + tail =~= before + tail);
    }
    assert(before + seq!['i', 'd', '='] + decimal(n as nat) + rest =~= before + tail);
}

/// A share URL names track `n` when its query, once every `/#` is removed, holds
/// `id=<n>` as its first `id` parameter, whatever parameters stand before and after.
pub proof fn lemma_url_names_id(url: Seq<char>, before: Seq<char>, n: u64, rest: Seq<char>)
    requires
        before.len() == 0 || (before.last() == '&' && id_param(before.drop_last()) is None),
        rest.len() == 0 || rest[0] == '&',
        parsed_query(strip_marker(url)) == Some(
            Some(before + seq!['i', 'd', '='] + decimal(n as nat) + rest),
        ),
    ensures
        url_id(url) == Some(n),
{
    lemma_query_names_later_id(before, n, rest);
}

proof fn lemma_strip_marker_concat(a: Seq<char>, x: Seq<char>)
    requires
        a.len() == 0 || a.last() != '/',
    ensures
        strip_marker(a + x) == strip_marker(a) + strip_marker(x),
    decreases a.len(),
{
    if a.len() == 0 {
        assert(a + x =~= x);
        assert(strip_marker(a) + strip_marker(x) =~= strip_marker(x));
    } else if a.len() >= 2 && a[0] == '/' && a[1] == '#' {
        let a2 = a.subrange(2, a.len() as int);
        assert((a + x).subrange(2, (a + x).len() as int) =~= a2 + x);
        if a2.len() > 0 {
            assert(a2.last() == a.last());
        }
        lemma_strip_marker_concat(a2, x);
    } else {
        let a1 = a.subrange(1, a.len() as int);
        assert((a + x).subrange(1, (a + x).len() as int) =~= a1 + x);
        if a1.len() > 0 {
            assert(a1.last() == a.last());
        } else {
            assert(a[0] != '/');
        }
        lemma_strip_marker_concat(a1, x);
        assert(seq![a[0]] + (strip_marker(a1) + strip_marker(x)) =~= (seq![a[0]] + strip_marker(a1))
            + strip_marker(x));
    }
}

/// The `/#` fragment marker does not change the id that a share URL names, wherever
/// it stands after a character other than `/`.
pub proof fn lemma_fragment_marker_ignored(a: Seq<char>, b: Seq<char>)
    requires
        a.len() == 0 || a.last() != '/',
    ensures
        url_id(a + seq!['/', '#'] + b) == url_id(a + b),
        url_track_ref(a + seq!['/', '#'] + b) is Some <==> url_track_ref(a + b) is Some,
{
    let m = seq!['/', '#'];
    lemma_strip_marker_concat(a, m + b);
    lemma_strip_marker_concat(a, b);
    assert(a + m + b =~= a + (m + b));
    assert((m + b).subrange(2, (m + b).len() as int) =~= b);
}

} // verus!
