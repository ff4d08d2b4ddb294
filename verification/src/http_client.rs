//! The HTTP request and response model that adapters hand to a transport,
//! authentication headers, and the query-string helpers used by the offline
//! transport.
use vstd::prelude::*;
use vstd::string::*;
use vstd::utf8::{decode_utf8, encode_utf8, is_ascii_chars, valid_utf8};
use crate::text::{
    contains_str, parse_usize, parsed_usize, starts_with, str_contains, str_eq, str_starts_with,
    ascii_lower, eq_ignore_ascii_case, find_char_from, find_first, first_occurrence, first_or_len,
    lemma_first_or_len, trim, trim_str,
    to_ascii_lowercase,
};

verus! {

/// Minimal HTTP method set needed by provider adapters.
#[derive(Debug, Clone, Copy, PartialEq, Eq, Structural)]
pub enum HttpMethod {
    Get,
    Post,
}

/// Authentication strategy applied to outgoing HTTP requests.
#[derive(Debug, Clone)]
pub enum HttpAuth {
    NoAuth,
    BearerToken(String),
    Header { name: String, value: String },
    Cookie(String),
}

/// Header value stored under `key`: the last entry with that name wins.
pub open spec fn header_lookup(h: Seq<(String, String)>, key: Seq<char>) -> Option<Seq<char>>
    decreases h.len(),
{
    if h.len() == 0 {
        None
    } else if h.last().0@ == key {
        Some(h.last().1@)
    } else {
        header_lookup(h.drop_last(), key)
    }
}

/// No two entries carry the same name.
pub open spec fn distinct_names(h: Seq<(String, String)>) -> bool {
    forall|i: int, j: int| 0 <= i < j < h.len() ==> h[i].0@ != h[j].0@
}

proof fn lemma_lookup_push(h: Seq<(String, String)>, e: (String, String), key: Seq<char>)
    ensures
        header_lookup(h.push(e), key) == if e.0@ == key {
            Some(e.1@)
        } else {
            header_lookup(h, key)
        },
{
    assert(h.push(e).drop_last() =~= h);
}

/// Sets header `name` to `value`, replacing any earlier value under that name.
pub fn insert_header(headers: &mut Vec<(String, String)>, name: String, value: String)
    ensures
        forall|k: Seq<char>| #[trigger]
            header_lookup(final(headers)@, k) == if k == name@ {
                Some(value@)
            } else {
                header_lookup(old(headers)@, k)
            },
        distinct_names(old(headers)@) ==> distinct_names(final(headers)@),
{
    let ghost old_h = headers@;
    let mut out: Vec<(String, String)> = Vec::new();
    let n = headers.len();
    let mut i: usize = 0;
    while i < n
        invariant
            n == headers.len(),
            headers@ == old_h,
            i <= n,
            forall|k: Seq<char>| k != name@ ==> #[trigger] header_lookup(out@, k)
                == header_lookup(old_h.take(i as int), k),
            header_lookup(out@, name@) is None,
            forall|a: int| 0 <= a < out.len() ==> (#[trigger] out@[a]).0@ != name@,
            distinct_names(old_h) ==> distinct_names(out@),
            distinct_names(old_h) ==> forall|a: int, j: int|
                0 <= a < out.len() && i <= j < n ==> (#[trigger] out@[a]).0@ != (#[trigger] old_h[j]).0@,
        decreases n - i,
    {
        let same = headers[i].0 == name;
        let ghost prev = out@;
        if !same {
            let entry = (headers[i].0.clone(), headers[i].1.clone());
            out.push(entry);
            proof {
                assert forall|k: Seq<char>| k != name@ implies #[trigger] header_lookup(out@, k)
                    == header_lookup(old_h.take(i + 1), k) by {
                    lemma_lookup_push(prev, entry, k);
                    assert(old_h.take(i + 1) =~= old_h.take(i as int).push(old_h[i as int]));
                    lemma_lookup_push(old_h.take(i as int), old_h[i as int], k);
                }
                lemma_lookup_push(prev, entry, name@);
            }
        } else {
            proof {
                assert forall|k: Seq<char>| k != name@ implies #[trigger] header_lookup(out@, k)
                    == header_lookup(old_h.take(i + 1), k) by {
                    assert(old_h.take(i + 1) =~= old_h.take(i as int).push(old_h[i as int]));
                    lemma_lookup_push(old_h.take(i as int), old_h[i as int], k);
                }
            }
        }
        i = i + 1;
    }
    let ghost prev = out@;
    let entry = (name, value);
    out.push(entry);
    proof {
        assert(old_h.take(n as int) =~= old_h);
        assert forall|k: Seq<char>| #[trigger]
            header_lookup(out@, k) == if k == name@ {
                Some(value@)
            } else {
                header_lookup(old_h, k)
            } by {
            lemma_lookup_push(prev, entry, k);
        }
    }
    *headers = out;
}

/// The value stored under exactly `name`, if any.
pub fn get_header(headers: &Vec<(String, String)>, name: &str) -> (r: Option<String>)
    ensures
        match r {
            Some(v) => header_lookup(headers@, name@) == Some(v@),
            None => header_lookup(headers@, name@) is None,
        },
{
    let key = String::from_str(name);
    let mut i = headers.len();
    assert(headers@.take(i as int) =~= headers@);
    while i > 0
        invariant
            i <= headers.len(),
            key@ == name@,
            header_lookup(headers@, name@) == header_lookup(headers@.take(i as int), name@),
        decreases i,
    {
        let ghost t = headers@.take(i as int);
        assert(t.drop_last() =~= headers@.take(i - 1));
        assert(t.last() == headers@[i - 1]);
        if headers[i - 1].0 == key {
            return Some(headers[i - 1].1.clone());
        }
        i = i - 1;
    }
    None
}

/// The header that an authentication strategy adds: its name and value.
pub open spec fn auth_header(a: HttpAuth) -> Option<(Seq<char>, Seq<char>)> {
    match a {
        HttpAuth::NoAuth => None,
        HttpAuth::BearerToken(t) => Some(("authorization"@, "Bearer "@ + t@)),
        HttpAuth::Header { name, value } => Some((ascii_lower(name@), value@)),
        HttpAuth::Cookie(c) => Some(("cookie"@, c@)),
    }
}

/// The header map after authentication: only the added header changes.
pub open spec fn after_auth(
    before: Seq<(String, String)>,
    after: Seq<(String, String)>,
    a: HttpAuth,
) -> bool {
    forall|k: Seq<char>| #[trigger]
        header_lookup(after, k) == match auth_header(a) {
            Some((n, v)) => if k == n {
                Some(v)
            } else {
                header_lookup(before, k)
            },
            None => header_lookup(before, k),
        }
}

impl HttpAuth {
    /// Adds the strategy's header to `headers`.
    pub fn apply(&self, headers: &mut Vec<(String, String)>)
        ensures
            after_auth(old(headers)@, final(headers)@, *self),
            distinct_names(old(headers)@) ==> distinct_names(final(headers)@),
    {
        match self {
            HttpAuth::NoAuth => {},
            HttpAuth::BearerToken(token) => {
                let mut v = String::from_str("Bearer ");
                v.append(token.as_str());
                insert_header(headers, String::from_str("authorization"), v);
            },
            HttpAuth::Header { name, value } => {
                insert_header(headers, to_ascii_lowercase(name.as_str()), value.clone());
            },
            HttpAuth::Cookie(cookie) => {
                insert_header(headers, String::from_str("cookie"), cookie.clone());
            },
        }
    }
}

/// HTTP request envelope used by adapter transport calls.
#[derive(Debug, Clone)]
pub struct HttpRequest {
    pub method: HttpMethod,
    pub url: String,
    /// Header names and values; names are stored lower-cased when they come
    /// through `with_header`, and no name occurs twice.
    pub headers: Vec<(String, String)>,
    pub body: Option<String>,
    pub timeout_ms: u64,
}

impl HttpRequest {
    /// Well-formedness: no header name occurs twice.
    pub open spec fn wf(&self) -> bool {
        distinct_names(self.headers@)
    }

    /// A request with no headers, no body and a 3000 ms timeout.
    pub fn new(method: HttpMethod, url: &str) -> (r: Self)
        ensures
            r.method == method,
            r.url@ == url@,
            r.headers@.len() == 0,
            r.body is None,
            r.timeout_ms == 3000,
            r.wf(),
    {
        HttpRequest {
            method,
            url: String::from_str(url),
            headers: Vec::new(),
            body: None,
            timeout_ms: 3_000,
        }
    }

    /// A GET request to `url`.
    pub fn get(url: &str) -> (r: Self)
        ensures
            r.method == HttpMethod::Get,
            r.url@ == url@,
            r.headers@.len() == 0,
            r.body is None,
            r.timeout_ms == 3000,
            r.wf(),
    {
        Self::new(HttpMethod::Get, url)
    }

    /// The request with header `name` (lower-cased) set to `value`.
    pub fn with_header(self, name: &str, value: &str) -> (r: Self)
        ensures
            r.method == self.method,
            r.url == self.url,
            r.body == self.body,
            r.timeout_ms == self.timeout_ms,
            forall|k: Seq<char>| #[trigger]
                header_lookup(r.headers@, k) == if k == ascii_lower(name@) {
                    Some(value@)
                } else {
                    header_lookup(self.headers@, k)
                },
            self.wf() ==> r.wf(),
    {
        let mut s = self;
        insert_header(&mut s.headers, to_ascii_lowercase(name), String::from_str(value));
        s
    }

    /// The request with `body` as its body.
    pub fn with_body(self, body: &str) -> (r: Self)
        ensures
            r.method == self.method,
            r.url == self.url,
            r.headers == self.headers,
            r.body matches Some(b) && b@ == body@,
            r.timeout_ms == self.timeout_ms,
    {
        let mut s = self;
        s.body = Some(String::from_str(body));
        s
    }

    /// The request with the header of `auth` added.
    pub fn with_auth(self, auth: &HttpAuth) -> (r: Self)
        ensures
            r.method == self.method,
            r.url == self.url,
            r.body == self.body,
            r.timeout_ms == self.timeout_ms,
            after_auth(self.headers@, r.headers@, *auth),
            self.wf() ==> r.wf(),
    {
        let mut s = self;
        auth.apply(&mut s.headers);
        s
    }

    /// The request with a timeout of `timeout_ms` milliseconds.
    pub fn with_timeout_ms(self, timeout_ms: u64) -> (r: Self)
        ensures
            r.method == self.method,
            r.url == self.url,
            r.headers == self.headers,
            r.body == self.body,
            r.timeout_ms == timeout_ms,
    {
        let mut s = self;
        s.timeout_ms = timeout_ms;
        s
    }

    /// The value of header `name`, looked up exactly as stored.
    pub fn header(&self, name: &str) -> (r: Option<String>)
        ensures
            match r {
                Some(v) => header_lookup(self.headers@, name@) == Some(v@),
                None => header_lookup(self.headers@, name@) is None,
            },
    {
        get_header(&self.headers, name)
    }
}

/// HTTP response envelope returned by an adapter transport.
#[derive(Debug, Clone)]
pub struct HttpResponse {
    pub status: u16,
    pub body: String,
}

impl HttpResponse {
    /// A 200 response with `body`.
    pub fn ok_json(body: &str) -> (r: Self)
        ensures
            r.status == 200,
            r.body@ == body@,
    {
        HttpResponse { status: 200, body: String::from_str(body) }
    }

    /// Whether the status is in the 2xx range.
    pub fn is_success(&self) -> (r: bool)
        ensures
            r == (200 <= self.status && self.status < 300),
    {
        self.status >= 200 && self.status < 300
    }
}

/// Transport-level HTTP error.
#[derive(Debug, Clone)]
pub struct HttpError {
    message: String,
    retryable: bool,
}

impl HttpError {
    pub closed spec fn message_view(&self) -> Seq<char> {
        self.message@
    }

    pub closed spec fn is_retryable(&self) -> bool {
        self.retryable
    }

    /// A retryable transport error.
    pub fn new(message: &str) -> (e: Self)
        ensures
            e.message_view() == message@,
            e.is_retryable(),
    {
        HttpError { message: String::from_str(message), retryable: true }
    }

    /// A transport error that is not worth retrying.
    pub fn non_retryable(message: &str) -> (e: Self)
        ensures
            e.message_view() == message@,
            !e.is_retryable(),
    {
        HttpError { message: String::from_str(message), retryable: false }
    }

    pub fn message(&self) -> (m: &str)
        ensures
            m@ == self.message_view(),
    {
        self.message.as_str()
    }

    pub fn retryable(&self) -> (r: bool)
        ensures
            r == self.is_retryable(),
    {
        self.retryable
    }
}

} // verus!

verus! {

/// Whether `b` is an ASCII hexadecimal digit, in either case.
pub open spec fn is_hex_byte(b: u8) -> bool {
    (48 <= b && b <= 57) || (65 <= b && b <= 70) || (97 <= b && b <= 102)
}

/// The value of an ASCII hexadecimal digit.
pub open spec fn hex_value(b: u8) -> int {
    if 48 <= b && b <= 57 {
        b - 48
    } else if 65 <= b && b <= 70 {
        b - 55
    } else {
        b - 87
    }
}

/// Percent-decoding of bytes: each `%` followed by two hexadecimal digits
/// becomes the byte they spell; every other byte, a `%` that does not start
/// such an escape included, is kept as it is. `+` stays `+`.
pub open spec fn percent_decode(b: Seq<u8>) -> Seq<u8>
    decreases b.len(),
{
    if b.len() == 0 {
        Seq::empty()
    } else if b[0] == 37 && b.len() >= 3 && is_hex_byte(b[1]) && is_hex_byte(b[2]) {
        seq![(hex_value(b[1]) * 16 + hex_value(b[2])) as u8] + percent_decode(b.skip(3))
    } else {
        seq![b[0]] + percent_decode(b.skip(1))
    }
}

/// The percent-decoded text of `s`: its UTF-8 bytes are percent-decoded, and
/// the result is text only when those bytes are valid UTF-8.
pub open spec fn url_decoded(s: Seq<char>) -> Option<Seq<char>> {
    let d = percent_decode(encode_utf8(s));
    if valid_utf8(d) {
        Some(decode_utf8(d))
    } else {
        None
    }
}

/// Percent-decodes `s` with `urlencoding::decode`.
///
/// `decode` turns each `%` followed by two hexadecimal digits into that byte,
/// keeps every other byte, and reads the bytes as UTF-8, failing when they are
/// not; the contract says so through `url_decoded`.
#[verifier::external_body]
pub(crate) fn url_decode(s: &str) -> (r: Option<String>)
    ensures
        match r {
            Some(d) => url_decoded(s@) == Some(d@),
            None => url_decoded(s@) is None,
        },
{
    match urlencoding::decode(s) {
        Ok(d) => Some(d.into_owned()),
        Err(_) => None,
    }
}

/// The name part of a `name=value` pair: everything before the first `=`.
pub open spec fn pair_name(p: Seq<char>) -> Seq<char> {
    p.take(first_or_len(p, '=') as int)
}

/// The value part of a `name=value` pair: everything after the first `=`,
/// empty when there is no `=`.
pub open spec fn pair_value(p: Seq<char>) -> Seq<char> {
    if first_or_len(p, '=') < p.len() {
        p.skip(first_or_len(p, '=') + 1int)
    } else {
        Seq::empty()
    }
}

/// The raw value of the first `&`-separated pair of `q` whose name equals
/// `key` up to ASCII case.
pub open spec fn find_param(q: Seq<char>, key: Seq<char>) -> Option<Seq<char>>
    decreases q.len(),
{
    let e = first_or_len(q, '&');
    if ascii_lower(pair_name(q.take(e as int))) == ascii_lower(key) {
        Some(pair_value(q.take(e as int)))
    } else if e < q.len() {
        proof {
            lemma_first_or_len(q, '&');
        }
        find_param(q.skip(e + 1int), key)
    } else {
        None
    }
}

/// A parameter value as reported: percent-decoded, or raw when decoding fails.
pub open spec fn decoded_or_raw(v: Seq<char>) -> Seq<char> {
    match url_decoded(v) {
        Some(d) => d,
        None => v,
    }
}

/// The value of query parameter `key` in `url`: the query is what follows the
/// first `?`, the first matching pair wins, and its value is decoded.
pub open spec fn query_param_of(url: Seq<char>, key: Seq<char>) -> Option<Seq<char>> {
    let qi = first_or_len(url, '?');
    if qi == url.len() {
        None
    } else {
        match find_param(url.skip(qi + 1int), key) {
            Some(v) => Some(decoded_or_raw(v)),
            None => None,
        }
    }
}

/// Percent-decodes a parameter value, keeping it raw when decoding fails.
pub fn decode_or_raw(value: &str) -> (r: String)
    ensures
        r@ == decoded_or_raw(value@),
{
    match url_decode(value) {
        Some(d) => d,
        None => String::from_str(value),
    }
}

/// The decoded value of query parameter `key` in `url`, matching the name
/// without regard to ASCII case.
pub fn query_param(url: &str, key: &str) -> (r: Option<String>)
    ensures
        match r {
            Some(v) => query_param_of(url@, key@) == Some(v@),
            None => query_param_of(url@, key@) is None,
        },
{
    let n = url.unicode_len();
    let qi = find_char_from(url, '?', 0);
    assert(url@.skip(0) =~= url@);
    if qi == n {
        return None;
    }
    let query = url.substring_char(qi + 1, n);
    assert(query@ =~= url@.skip(qi + 1));
    let m = query.unicode_len();
    let mut pos: usize = 0;
    assert(query@.skip(0) =~= query@);
    while pos <= m
        invariant
            m == query@.len(),
            pos <= m,
            find_param(query@, key@) == find_param(query@.skip(pos as int), key@),
            query_param_of(url@, key@) == match find_param(query@, key@) {
                Some(v) => Some(decoded_or_raw(v)),
                None => None::<Seq<char>>,
            },
        decreases m - pos,
    {
        let ghost t = query@.skip(pos as int);
        let e = find_char_from(query, '&', pos);
        let pair = query.substring_char(pos, e);
        assert(pair@ =~= t.take((e - pos) as int));
        let plen = pair.unicode_len();
        let eq = find_char_from(pair, '=', 0);
        assert(pair@.skip(0) =~= pair@);
        let name = pair.substring_char(0, eq);
        assert(name@ =~= pair_name(pair@));
        if eq_ignore_ascii_case(name, key) {
            let value = if eq < plen {
                pair.substring_char(eq + 1, plen)
            } else {
                ""
            };
            proof {
                if eq < plen {
                    assert(value@ =~= pair_value(pair@));
                } else {
                    reveal_strlit("");
                    assert(value@ =~= pair_value(pair@));
                }
            }
            return Some(decode_or_raw(value));
        }
        if e == m {
            return None;
        }
        assert(t.skip((e - pos) + 1) =~= query@.skip(e + 1));
        pos = e + 1;
    }
    None
}

} // verus!

verus! {

/// The views of a sequence of strings.
pub open spec fn views(v: Seq<String>) -> Seq<Seq<char>> {
    v.map_values(|s: String| s@)
}

/// The non-empty trimmed pieces of a comma-separated list, in order.
pub open spec fn symbols_of(s: Seq<char>) -> Seq<Seq<char>>
    decreases s.len(),
{
    let e = first_or_len(s, ',');
    let t = trim(s.take(e as int));
    let rest = if e < s.len() {
        proof {
            lemma_first_or_len(s, ',');
        }
        symbols_of(s.skip(e + 1int))
    } else {
        Seq::empty()
    };
    if t.len() == 0 {
        rest
    } else {
        seq![t] + rest
    }
}

/// The symbol list a request names: the `symbols` query parameter, or
/// `AAPL` when the URL has none.
pub open spec fn requested_symbols(url: Seq<char>) -> Seq<Seq<char>> {
    match query_param_of(url, "symbols"@) {
        Some(raw) => symbols_of(raw),
        None => symbols_of("AAPL"@),
    }
}

/// The symbols listed in the `symbols` query parameter of `url`
/// (comma-separated, trimmed, empty entries dropped), defaulting to `AAPL`.
pub fn parse_symbols(url: &str) -> (r: Vec<String>)
    ensures
        views(r@) == requested_symbols(url@),
{
    let raw = match query_param(url, "symbols") {
        Some(v) => v,
        None => String::from_str("AAPL"),
    };
    let r = raw.as_str();
    assert(symbols_of(r@) == requested_symbols(url@));
    let n = r.unicode_len();
    let mut out: Vec<String> = Vec::new();
    let mut pos: usize = 0;
    assert(r@.skip(0) =~= r@);
    assert(views(out@) + symbols_of(r@) =~= symbols_of(r@));
    while pos <= n
        invariant
            n == r@.len(),
            pos <= n,
            symbols_of(r@) == requested_symbols(url@),
            views(out@) + symbols_of(r@.skip(pos as int)) == symbols_of(r@),
        decreases n - pos,
    {
        let ghost s = r@.skip(pos as int);
        let e = find_char_from(r, ',', pos);
        let piece = r.substring_char(pos, e);
        assert(piece@ =~= s.take((e - pos) as int));
        let t = trim_str(piece);
        let ghost before = out@;
        if t.unicode_len() > 0 {
            out.push(String::from_str(t));
            assert(views(out@) =~= views(before) + seq![t@]);
        }
        if e == n {
            assert(views(out@) == symbols_of(r@)) by {
                assert(symbols_of(s) == if t@.len() == 0 {
                    Seq::<Seq<char>>::empty()
                } else {
                    seq![t@] + Seq::<Seq<char>>::empty()
                });
                if t@.len() == 0 {
                    assert(views(before) + Seq::<Seq<char>>::empty() =~= views(before));
                } else {
                    assert(views(before) + (seq![t@] + Seq::<Seq<char>>::empty()) =~= views(out@));
                }
            }
            return out;
        }
        assert(s.skip((e - pos) + 1) =~= r@.skip(e + 1));
        proof {
            let rest = symbols_of(r@.skip(e + 1));
            if t@.len() > 0 {
                assert(views(before) + (seq![t@] + rest) =~= views(out@) + rest);
            }
        }
        pos = e + 1;
    }
    out
}

/// What `haystack.split(start).nth(1)` gives: the text after the first
/// occurrence of `start` up to its next occurrence (for an empty `start`,
/// the first character).
pub open spec fn second_piece(h: Seq<char>, start: Seq<char>) -> Option<Seq<char>> {
    if start.len() == 0 {
        Some(h.take(if h.len() == 0 { 0int } else { 1int }))
    } else {
        match first_occurrence(h, start, 0) {
            None => None,
            Some(p) => {
                let a = p + start.len();
                Some(
                    match first_occurrence(h, start, a) {
                        Some(q) => h.subrange(a, q),
                        None => h.skip(a),
                    },
                )
            },
        }
    }
}

/// What `s.split(end).next()` gives: the text before the first occurrence of
/// `end` (nothing for an empty `end`).
pub open spec fn first_piece(s: Seq<char>, end: Seq<char>) -> Seq<char> {
    if end.len() == 0 {
        Seq::empty()
    } else {
        match first_occurrence(s, end, 0) {
            Some(q) => s.take(q),
            None => s,
        }
    }
}

/// The text of `haystack` between `start` and `end`.
pub open spec fn between_of(h: Seq<char>, start: Seq<char>, end: Seq<char>) -> Option<Seq<char>> {
    match second_piece(h, start) {
        Some(x) => Some(first_piece(x, end)),
        None => None,
    }
}

/// The part of `haystack` after the first `start` and before the following
/// `end` (as `haystack.split(start).nth(1)` then `.split(end).next()`).
pub fn extract_between<'a>(haystack: &'a str, start: &str, end: &str) -> (r: Option<&'a str>)
    ensures
        match r {
            Some(x) => between_of(haystack@, start@, end@) == Some(x@),
            None => between_of(haystack@, start@, end@) is None,
        },
{
    let n = haystack.unicode_len();
    let sl = start.unicode_len();
    let a: usize;
    let b: usize;
    if sl == 0 {
        a = 0;
        b = if n == 0 { 0 } else { 1 };
        assert(haystack@.subrange(0, b as int) =~= haystack@.take(b as int));
    } else {
        match find_first(haystack, start, 0) {
            None => return None,
            Some(p) => {
                a = p + sl;
                match find_first(haystack, start, a) {
                    Some(q) => {
                        b = q;
                    },
                    None => {
                        b = n;
                        assert(haystack@.subrange(a as int, n as int) =~= haystack@.skip(a as int));
                    },
                }
            },
        }
    }
    let suffix = haystack.substring_char(a, b);
    assert(second_piece(haystack@, start@) == Some(suffix@));
    let el = end.unicode_len();
    if el == 0 {
        let e = haystack.substring_char(a, a);
        assert(e@ =~= Seq::<char>::empty());
        return Some(e);
    }
    match find_first(suffix, end, 0) {
        Some(q) => {
            let x = suffix.substring_char(0, q);
            assert(x@ =~= suffix@.take(q as int));
            Some(x)
        },
        None => Some(suffix),
    }
}

} // verus!

verus! {

/// Bytes that percent-encoding leaves as they are: ASCII letters and digits,
/// `-`, `.`, `_` and `~`.
pub open spec fn url_safe_byte(b: u8) -> bool {
    (48 <= b && b <= 57) || (65 <= b && b <= 90) || (97 <= b && b <= 122) || b == 45 || b == 46
        || b == 95 || b == 126
}

/// The upper-case hexadecimal digit for `d` (below 16).
pub open spec fn hex_digit_upper(d: int) -> char {
    if d < 10 {
        (48 + d) as char
    } else {
        (55 + d) as char
    }
}

/// Percent-encoding of bytes: a safe byte stands for itself, every other byte
/// becomes `%` and its two upper-case hexadecimal digits.
pub open spec fn percent_encode(b: Seq<u8>) -> Seq<char>
    decreases b.len(),
{
    if b.len() == 0 {
        Seq::empty()
    } else {
        let head = if url_safe_byte(b[0]) {
            seq![b[0] as char]
        } else {
            seq!['%', hex_digit_upper(b[0] as int / 16), hex_digit_upper(b[0] as int % 16)]
        };
        head + percent_encode(b.skip(1))
    }
}

/// The percent-encoded form of `s`: its UTF-8 bytes, percent-encoded.
pub open spec fn url_encoded(s: Seq<char>) -> Seq<char> {
    percent_encode(encode_utf8(s))
}

/// The bytes of a text made of ASCII characters, one per character.
pub open spec fn ascii_bytes(cs: Seq<char>) -> Seq<u8> {
    Seq::new(cs.len(), |i: int| cs[i] as u8)
}

proof fn lemma_hex_digit_round_trip(d: int)
    requires
        0 <= d < 16,
    ensures
        '\0' <= hex_digit_upper(d) <= '\u{7f}',
        is_hex_byte(hex_digit_upper(d) as u8),
        hex_value(hex_digit_upper(d) as u8) == d,
        hex_digit_upper(d) as u8 != 37,
{
}

proof fn lemma_percent_encode_ascii(b: Seq<u8>)
    ensures
        is_ascii_chars(percent_encode(b)),
        percent_decode(ascii_bytes(percent_encode(b))) == b,
    decreases b.len(),
{
    if b.len() > 0 {
        let rest = percent_encode(b.skip(1));
        lemma_percent_encode_ascii(b.skip(1));
        let x = b[0];
        if url_safe_byte(x) {
            let head = seq![x as char];
            assert((x as char) as u8 == x);
            assert(percent_encode(b) == head + rest);
            let t = ascii_bytes(head + rest);
            assert(t.skip(1) =~= ascii_bytes(rest));
            assert(t[0] == x);
            assert(percent_decode(t) == seq![x] + percent_decode(t.skip(1)));
            assert(seq![x] + b.skip(1) =~= b);
        } else {
            let hi = x as int / 16;
            let lo = x as int % 16;
            lemma_hex_digit_round_trip(hi);
            lemma_hex_digit_round_trip(lo);
            let head = seq!['%', hex_digit_upper(hi), hex_digit_upper(lo)];
            assert(percent_encode(b) == head + rest);
            let t = ascii_bytes(head + rest);
            assert(t.skip(3) =~= ascii_bytes(rest));
            assert(t[0] == 37);
            assert(t[1] == hex_digit_upper(hi) as u8);
            assert(t[2] == hex_digit_upper(lo) as u8);
            assert((hi * 16 + lo) as u8 == x);
            assert(percent_decode(t) == seq![x] + percent_decode(t.skip(3)));
            assert(seq![x] + b.skip(1) =~= b);
        }
        assert(is_ascii_chars(percent_encode(b))) by {
            assert forall|i: int| 0 <= i < percent_encode(b).len() implies '\0' <= #[trigger] percent_encode(b)[i] <= '\u{7f}' by {
                if url_safe_byte(x) {
                    if i > 0 {
                        assert(percent_encode(b)[i] == rest[i - 1]);
                    }
                } else {
                    if i > 2 {
                        assert(percent_encode(b)[i] == rest[i - 3]);
                    }
                }
            }
        }
    }
}

/// Decoding undoes encoding: the percent-encoded form of any text decodes
/// back to that text.
pub proof fn law_decode_undoes_encode(s: Seq<char>)
    ensures
        url_decoded(url_encoded(s)) == Some(s),
{
    let b = encode_utf8(s);
    lemma_percent_encode_ascii(b);
    let e = percent_encode(b);
    vstd::utf8::is_ascii_chars_encode_utf8(e);
    assert(encode_utf8(e) =~= ascii_bytes(e));
    vstd::utf8::encode_utf8_valid_utf8(s);
    vstd::utf8::encode_utf8_decode_utf8(s);
}

/// Percent-encodes `s` with `urlencoding::encode`.
///
/// `encode` writes each safe byte of the UTF-8 text as it is and every other
/// byte as `%XX` in upper case; the contract says so through `url_encoded`.
#[verifier::external_body]
pub(crate) fn url_encode(s: &str) -> (r: String)
    ensures
        r@ == url_encoded(s@),
{
    urlencoding::encode(s).into_owned()
}

} // verus!

verus! {

/// The canned reply the offline transport gives to a URL, with what it
/// reads from the URL.
#[derive(Debug, Clone)]
pub enum MockRoute {
    YahooCookie,
    YahooCrumb,
    PolygonPrevious { symbol: String },
    PolygonRange { limit: usize },
    PolygonSearch { query: String },
    AlpacaQuotes { symbols: Vec<String> },
    AlpacaBars { limit: usize },
    AlphaVantageQuote,
    AlphaVantageSeries,
    AlphaVantageSearch,
    YahooQuotes { symbols: Vec<String> },
    YahooChart,
    YahooSearch,
    YahooEarnings,
    YahooFinancials,
    YahooFundamentals,
    Fallback,
}

/// The kinds of canned reply.
#[derive(Debug, Clone, Copy, PartialEq, Eq, Structural)]
pub enum MockKind {
    YahooCookie,
    YahooCrumb,
    PolygonPrevious,
    PolygonRange,
    PolygonSearch,
    AlpacaQuotes,
    AlpacaBars,
    AlphaVantageQuote,
    AlphaVantageSeries,
    AlphaVantageSearch,
    YahooQuotes,
    YahooChart,
    YahooSearch,
    YahooEarnings,
    YahooFinancials,
    YahooFundamentals,
    Fallback,
}

/// The kind of a reply.
pub open spec fn kind_of(r: MockRoute) -> MockKind {
    match r {
        MockRoute::YahooCookie => MockKind::YahooCookie,
        MockRoute::YahooCrumb => MockKind::YahooCrumb,
        MockRoute::PolygonPrevious { .. } => MockKind::PolygonPrevious,
        MockRoute::PolygonRange { .. } => MockKind::PolygonRange,
        MockRoute::PolygonSearch { .. } => MockKind::PolygonSearch,
        MockRoute::AlpacaQuotes { .. } => MockKind::AlpacaQuotes,
        MockRoute::AlpacaBars { .. } => MockKind::AlpacaBars,
        MockRoute::AlphaVantageQuote => MockKind::AlphaVantageQuote,
        MockRoute::AlphaVantageSeries => MockKind::AlphaVantageSeries,
        MockRoute::AlphaVantageSearch => MockKind::AlphaVantageSearch,
        MockRoute::YahooQuotes { .. } => MockKind::YahooQuotes,
        MockRoute::YahooChart => MockKind::YahooChart,
        MockRoute::YahooSearch => MockKind::YahooSearch,
        MockRoute::YahooEarnings => MockKind::YahooEarnings,
        MockRoute::YahooFinancials => MockKind::YahooFinancials,
        MockRoute::YahooFundamentals => MockKind::YahooFundamentals,
        MockRoute::Fallback => MockKind::Fallback,
    }
}

/// A query parameter's value, or the empty text when the URL has none.
pub open spec fn param_or_empty(url: Seq<char>, key: Seq<char>) -> Seq<char> {
    match query_param_of(url, key) {
        Some(v) => v,
        None => Seq::empty(),
    }
}

/// The reply kind for an Alpha Vantage query, if its `function` has one.
pub open spec fn alphavantage_kind(url: Seq<char>) -> Option<MockKind> {
    let f = param_or_empty(url, "function"@);
    if f == "GLOBAL_QUOTE"@ {
        Some(MockKind::AlphaVantageQuote)
    } else if starts_with(f, "TIME_SERIES"@) {
        Some(MockKind::AlphaVantageSeries)
    } else if f == "SYMBOL_SEARCH"@ {
        Some(MockKind::AlphaVantageSearch)
    } else {
        None
    }
}

/// The reply kind for a Yahoo quote-summary query, by its modules.
pub open spec fn summary_kind(url: Seq<char>) -> MockKind {
    let m = param_or_empty(url, "modules"@);
    if contains_str(m, "earnings"@) {
        MockKind::YahooEarnings
    } else if contains_str(m, "incomeStatementHistory"@) || contains_str(
        m,
        "balanceSheetHistory"@,
    ) || contains_str(m, "cashflowStatementHistory"@) {
        MockKind::YahooFinancials
    } else {
        MockKind::YahooFundamentals
    }
}

/// The reply kind for a URL, by the first rule that matches it.
pub open spec fn mock_kind(u: Seq<char>) -> MockKind {
    if contains_str(u, "fc.yahoo.com"@) {
        MockKind::YahooCookie
    } else if contains_str(u, "finance.yahoo.com/v1/test/getcrumb"@) {
        MockKind::YahooCrumb
    } else if contains_str(u, "api.polygon.io/v2/aggs/ticker/"@) && contains_str(u, "/prev"@) {
        MockKind::PolygonPrevious
    } else if contains_str(u, "api.polygon.io/v2/aggs/ticker/"@) && contains_str(u, "/range/"@) {
        MockKind::PolygonRange
    } else if contains_str(u, "api.polygon.io/v3/reference/tickers"@) {
        MockKind::PolygonSearch
    } else if contains_str(u, "data.alpaca.markets/v2/stocks/quotes/latest"@) {
        MockKind::AlpacaQuotes
    } else if contains_str(u, "data.alpaca.markets/v2/stocks/"@) && contains_str(u, "/bars?"@) {
        MockKind::AlpacaBars
    } else if contains_str(u, "alphavantage.co/query"@) && alphavantage_kind(u) is Some {
        alphavantage_kind(u)->0
    } else if contains_str(u, "query1.finance.yahoo.com/v7/finance/quote?"@) {
        MockKind::YahooQuotes
    } else if contains_str(u, "query1.finance.yahoo.com/v8/finance/chart/"@) {
        MockKind::YahooChart
    } else if contains_str(u, "query2.finance.yahoo.com/v1/finance/search"@) {
        MockKind::YahooSearch
    } else if contains_str(u, "/v10/finance/quoteSummary/"@) {
        summary_kind(u)
    } else {
        MockKind::Fallback
    }
}

/// The row count a canned series has: the `limit` parameter when it parses,
/// else 30.
pub open spec fn mock_limit(u: Seq<char>) -> usize {
    match query_param_of(u, "limit"@) {
        Some(raw) => match parsed_usize(raw) {
            Some(n) => n,
            None => 30,
        },
        None => 30,
    }
}

/// The symbol a canned previous-close reply names: the path segment after
/// `/ticker/`, else `AAPL`.
pub open spec fn mock_symbol(u: Seq<char>) -> Seq<char> {
    match between_of(u, "/ticker/"@, "/"@) {
        Some(s) => s,
        None => "AAPL"@,
    }
}

/// The query a canned search reply echoes: the `search` parameter, else
/// `apple`.
pub open spec fn mock_query(u: Seq<char>) -> Seq<char> {
    match query_param_of(u, "search"@) {
        Some(s) => s,
        None => "apple"@,
    }
}

/// The `limit` of a URL, as a canned series reads it.
fn limit_param(url: &str) -> (n: usize)
    ensures
        n == mock_limit(url@),
{
    match query_param(url, "limit") {
        Some(raw) => match parse_usize(raw.as_str()) {
            Some(n) => n,
            None => 30,
        },
        None => 30,
    }
}

/// The `function` of an Alpha Vantage query, or the empty text.
fn param_text(url: &str, key: &str) -> (r: String)
    ensures
        r@ == param_or_empty(url@, key@),
{
    match query_param(url, key) {
        Some(v) => v,
        None => {
            let e = String::new();
            assert(e@ =~= Seq::<char>::empty());
            e
        },
    }
}

/// Decides which canned reply the offline transport gives to `url`, and
/// reads from the URL what that reply echoes.
pub fn mock_route(url: &str) -> (r: MockRoute)
    ensures
        kind_of(r) == mock_kind(url@),
        r matches MockRoute::PolygonPrevious { symbol } ==> symbol@ == mock_symbol(url@),
        r matches MockRoute::PolygonRange { limit } ==> limit == mock_limit(url@),
        r matches MockRoute::AlpacaBars { limit } ==> limit == mock_limit(url@),
        r matches MockRoute::PolygonSearch { query } ==> query@ == mock_query(url@),
        r matches MockRoute::AlpacaQuotes { symbols } ==> views(symbols@) == requested_symbols(url@),
        r matches MockRoute::YahooQuotes { symbols } ==> views(symbols@) == requested_symbols(url@),
{
    proof {
        reveal_strlit("AAPL");
        reveal_strlit("apple");
        reveal_strlit("GLOBAL_QUOTE");
        reveal_strlit("SYMBOL_SEARCH");
    }
    if str_contains(url, "fc.yahoo.com") {
        return MockRoute::YahooCookie;
    }
    if str_contains(url, "finance.yahoo.com/v1/test/getcrumb") {
        return MockRoute::YahooCrumb;
    }
    let polygon_aggs = str_contains(url, "api.polygon.io/v2/aggs/ticker/");
    if polygon_aggs && str_contains(url, "/prev") {
        let symbol = match extract_between(url, "/ticker/", "/") {
            Some(s) => s.to_string(),
            None => String::from_str("AAPL"),
        };
        return MockRoute::PolygonPrevious { symbol };
    }
    if polygon_aggs && str_contains(url, "/range/") {
        return MockRoute::PolygonRange { limit: limit_param(url) };
    }
    if str_contains(url, "api.polygon.io/v3/reference/tickers") {
        let query = match query_param(url, "search") {
            Some(q) => q,
            None => String::from_str("apple"),
        };
        return MockRoute::PolygonSearch { query };
    }
    if str_contains(url, "data.alpaca.markets/v2/stocks/quotes/latest") {
        return MockRoute::AlpacaQuotes { symbols: parse_symbols(url) };
    }
    if str_contains(url, "data.alpaca.markets/v2/stocks/") && str_contains(url, "/bars?") {
        return MockRoute::AlpacaBars { limit: limit_param(url) };
    }
    if str_contains(url, "alphavantage.co/query") {
        let function = param_text(url, "function");
        let f = function.as_str();
        if str_eq(f, "GLOBAL_QUOTE") {
            return MockRoute::AlphaVantageQuote;
        }
        if str_starts_with(f, "TIME_SERIES") {
            return MockRoute::AlphaVantageSeries;
        }
        if str_eq(f, "SYMBOL_SEARCH") {
            return MockRoute::AlphaVantageSearch;
        }
    }
    if str_contains(url, "query1.finance.yahoo.com/v7/finance/quote?") {
        return MockRoute::YahooQuotes { symbols: parse_symbols(url) };
    }
    if str_contains(url, "query1.finance.yahoo.com/v8/finance/chart/") {
        return MockRoute::YahooChart;
    }
    if str_contains(url, "query2.finance.yahoo.com/v1/finance/search") {
        return MockRoute::YahooSearch;
    }
    if str_contains(url, "/v10/finance/quoteSummary/") {
        let modules = param_text(url, "modules");
        let m = modules.as_str();
        if str_contains(m, "earnings") {
            return MockRoute::YahooEarnings;
        }
        if str_contains(m, "incomeStatementHistory") || str_contains(m, "balanceSheetHistory")
            || str_contains(m, "cashflowStatementHistory") {
            return MockRoute::YahooFinancials;
        }
        return MockRoute::YahooFundamentals;
    }
    MockRoute::Fallback
}

/// The offline transport: answers every request with canned data chosen by
/// its URL.
#[derive(Debug, Default, Clone, Copy)]
pub struct NoopHttpClient;

impl NoopHttpClient {
    /// The canned reply for `request`.
    pub fn route_for(&self, request: &HttpRequest) -> (r: MockRoute)
        ensures
            kind_of(r) == mock_kind(request.url@),
            r matches MockRoute::PolygonPrevious { symbol } ==> symbol@ == mock_symbol(request.url@),
            r matches MockRoute::PolygonRange { limit } ==> limit == mock_limit(request.url@),
            r matches MockRoute::AlpacaBars { limit } ==> limit == mock_limit(request.url@),
            r matches MockRoute::PolygonSearch { query } ==> query@ == mock_query(request.url@),
            r matches MockRoute::AlpacaQuotes { symbols } ==> views(symbols@) == requested_symbols(
                request.url@,
            ),
            r matches MockRoute::YahooQuotes { symbols } ==> views(symbols@) == requested_symbols(
                request.url@,
            ),
    {
        mock_route(request.url.as_str())
    }
}

} // verus!
