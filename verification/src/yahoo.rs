//! Yahoo Finance: cookie/crumb authentication state, crumb validation,
//! request URLs and cache keys.
use vstd::prelude::*;
use vstd::string::*;
use vstd::utf8::encode_utf8;
use crate::adapters::{
    capabilities_for, fresh_health, health_under, health_with_circuit, joined, join_strings,
    provider_capabilities, AdapterHealth,
};
use crate::cache::CacheStore;
use crate::http_client::{header_lookup, url_encode, url_encoded, views, HttpAuth, HttpMethod, HttpRequest};
use crate::requests::{
    bars_refusal, check_bars, check_earnings, check_financials, check_fundamentals, check_quote,
    check_search, earnings_refusal, financials_refusal, fundamentals_refusal, interval_name,
    outcome_is, quote_refusal, search_refusal, BarsRequest, EarningsRequest, FinancialsRequest,
    FinancialPeriod, FundamentalsRequest, Interval, QuoteRequest, SearchRequest, StatementType,
};
use crate::source::{
    CapabilitySet, CircuitState, HealthState, HealthStatus, ProviderId, SourceError, SourceErrorKind,
};
use crate::text::{
    ascii_lower, contains_str, decimal, decimal_string, find_char_from, find_first,
    first_occurrence, first_or_len, lemma_first_or_len, starts_with, str_contains, str_starts_with,
    trim, trim_str,
};

verus! {

/// Yahoo Finance cookie/crumb authentication state. Times are milliseconds
/// on a monotonic clock.
pub struct YahooAuthManager {
    cookie: Option<String>,
    crumb: Option<String>,
    last_refresh_ms: Option<u64>,
    auth_ttl_secs: u64,
}

/// Cached authentication is valid when a cookie and a crumb are stored and
/// fewer than the time-to-live seconds (whole seconds, rounded down) have
/// passed since the last refresh.
pub open spec fn auth_valid(
    has_cookie: bool,
    has_crumb: bool,
    last_refresh: Option<u64>,
    ttl_secs: u64,
    now: u64,
) -> bool {
    has_cookie && has_crumb && match last_refresh {
        Some(t) => (if now >= t { (now - t) as int } else { 0int }) / 1000 < ttl_secs,
        None => false,
    }
}

impl YahooAuthManager {
    pub closed spec fn has_cookie(&self) -> bool {
        self.cookie is Some
    }

    pub closed spec fn stored_cookie(&self) -> Option<Seq<char>> {
        match self.cookie {
            Some(c) => Some(c@),
            None => None,
        }
    }

    pub closed spec fn stored_crumb(&self) -> Option<Seq<char>> {
        match self.crumb {
            Some(c) => Some(c@),
            None => None,
        }
    }

    pub closed spec fn last_refresh(&self) -> Option<u64> {
        self.last_refresh_ms
    }

    pub closed spec fn ttl_secs(&self) -> u64 {
        self.auth_ttl_secs
    }

    /// Nothing cached; authentication lives one hour.
    pub fn new() -> (m: Self)
        ensures
            !m.has_cookie(),
            m.stored_crumb() is None,
            m.last_refresh() is None,
            m.ttl_secs() == 3600,
    {
        YahooAuthManager { cookie: None, crumb: None, last_refresh_ms: None, auth_ttl_secs: 3600 }
    }

    /// Whether the cached authentication may be used at `now_ms`.
    pub fn is_auth_valid(&self, now_ms: u64) -> (r: bool)
        ensures
            r == auth_valid(
                self.has_cookie(),
                self.stored_crumb() is Some,
                self.last_refresh(),
                self.ttl_secs(),
                now_ms,
            ),
    {
        if self.cookie.is_none() || self.crumb.is_none() {
            return false;
        }
        match self.last_refresh_ms {
            Some(last) => {
                let elapsed_ms = if now_ms >= last { now_ms - last } else { 0 };
                elapsed_ms / 1000 < self.auth_ttl_secs
            },
            None => false,
        }
    }

    /// The cached crumb when the cached authentication is valid at `now_ms`.
    pub fn cached_crumb(&self, now_ms: u64) -> (r: Option<String>)
        ensures
            match r {
                Some(c) => auth_valid(
                    self.has_cookie(),
                    self.stored_crumb() is Some,
                    self.last_refresh(),
                    self.ttl_secs(),
                    now_ms,
                ) && self.stored_crumb() == Some(c@),
                None => !auth_valid(
                    self.has_cookie(),
                    self.stored_crumb() is Some,
                    self.last_refresh(),
                    self.ttl_secs(),
                    now_ms,
                ),
            },
    {
        if self.is_auth_valid(now_ms) {
            match &self.crumb {
                Some(c) => Some(c.clone()),
                None => None,
            }
        } else {
            None
        }
    }

    /// The stored crumb, whatever its age.
    pub fn crumb(&self) -> (r: Option<String>)
        ensures
            match r {
                Some(c) => self.stored_crumb() == Some(c@),
                None => self.stored_crumb() is None,
            },
    {
        match &self.crumb {
            Some(c) => Some(c.clone()),
            None => None,
        }
    }

    /// Records what a refresh at `now_ms` obtained: the session cookie and
    /// the crumb.
    pub fn store_auth(&mut self, cookie: &str, crumb: &str, now_ms: u64)
        ensures
            final(self).has_cookie(),
            final(self).stored_cookie() == Some(cookie@),
            final(self).stored_crumb() == Some(crumb@),
            final(self).last_refresh() == Some(now_ms),
            final(self).ttl_secs() == old(self).ttl_secs(),
    {
        self.cookie = Some(String::from_str(cookie));
        self.crumb = Some(String::from_str(crumb));
        self.last_refresh_ms = Some(now_ms);
    }

    /// Forgets the cached authentication, so that the next use refreshes it.
    pub fn invalidate(&mut self)
        ensures
            !final(self).has_cookie(),
            final(self).stored_crumb() is None,
            final(self).last_refresh() is None,
            final(self).ttl_secs() == old(self).ttl_secs(),
    {
        self.cookie = None;
        self.crumb = None;
        self.last_refresh_ms = None;
    }
}

/// A crumb stored by a refresh is served from the cache for its lifetime:
/// from the refresh on, for as long as fewer than the time-to-live seconds
/// have passed; once they have, or after an invalidation, it is not.
pub proof fn law_cached_crumb_within_ttl(m: YahooAuthManager, now: u64, later: u64)
    requires
        m.has_cookie(),
        m.stored_crumb() is Some,
        m.last_refresh() == Some(now),
        now <= later,
    ensures
        auth_valid(m.has_cookie(), m.stored_crumb() is Some, m.last_refresh(), m.ttl_secs(), later)
            <==> (later - now) / 1000 < m.ttl_secs(),
        !auth_valid(false, false, None, m.ttl_secs(), later),
{
}

/// What `str::to_lowercase` gives: the Unicode lower-case mapping.
pub uninterp spec fn unicode_lower(s: Seq<char>) -> Seq<char>;

/// Whether every character is ASCII.
pub open spec fn all_ascii(s: Seq<char>) -> bool {
    forall|i: int| 0 <= i < s.len() ==> (s[i] as u32) < 128
}

/// Lower-cases `s` as `str::to_lowercase` does.
///
/// The contract names the Unicode mapping and states what its documentation
/// plainly gives for ASCII text: ASCII letters map to lower case and nothing
/// else changes.
#[verifier::external_body]
pub(crate) fn to_lowercase(s: &str) -> (r: String)
    ensures
        r@ == unicode_lower(s@),
        all_ascii(s@) ==> r@ == ascii_lower(s@),
{
    s.to_lowercase()
}

/// What a crumb response tells the refresh: try the next endpoint, stop
/// because Yahoo is rate limiting, or accept the crumb.
#[derive(Debug, Clone)]
pub enum CrumbVerdict {
    TryNext,
    RateLimited,
    Accept(String),
}

/// The verdict on a crumb response, as a spec. The body is trimmed; HTML
/// pages are skipped; a "too many requests" page stops the refresh; a body
/// that is non-empty, shorter than 100 UTF-8 bytes (the length as `str::len`
/// reports it) and without spaces is the crumb.
pub open spec fn crumb_verdict(success: bool, body: Seq<char>) -> (u8, Seq<char>) {
    let t = trim(body);
    if !success || body.len() == 0 {
        (0, Seq::empty())
    } else if contains_str(t, "<html"@) || contains_str(t, "<!DOCTYPE"@) {
        (0, Seq::empty())
    } else if contains_str(unicode_lower(t), "too many requests"@) {
        (1, Seq::empty())
    } else if t.len() > 0 && (encode_utf8(t).len() as usize) < 100 && !t.contains(' ') {
        (2, t)
    } else {
        (0, Seq::empty())
    }
}

/// Judges one crumb response.
pub fn judge_crumb_response(success: bool, body: &str) -> (r: CrumbVerdict)
    ensures
        match r {
            CrumbVerdict::TryNext => crumb_verdict(success, body@).0 == 0,
            CrumbVerdict::RateLimited => crumb_verdict(success, body@).0 == 1,
            CrumbVerdict::Accept(c) => crumb_verdict(success, body@) == (2u8, c@),
        },
{
    if !success || body.unicode_len() == 0 {
        return CrumbVerdict::TryNext;
    }
    let t = trim_str(body);
    if str_contains(t, "<html") || str_contains(t, "<!DOCTYPE") {
        return CrumbVerdict::TryNext;
    }
    let lower = to_lowercase(t);
    if str_contains(lower.as_str(), "too many requests") {
        return CrumbVerdict::RateLimited;
    }
    let n = t.unicode_len();
    if n > 0 && t.len() < 100 && !crate::text::contains_char(t, ' ') {
        CrumbVerdict::Accept(String::from_str(t))
    } else {
        CrumbVerdict::TryNext
    }
}

/// The pieces of `s` between `&`s, written back with `&` between them, up to
/// but not including the first piece that starts with `crumb=`; `first`
/// tells whether a piece has been written yet.
pub open spec fn keep_before_crumb(s: Seq<char>, first: bool) -> Seq<char>
    decreases s.len(),
{
    let i = first_or_len(s, '&');
    let piece = s.take(i as int);
    if starts_with(piece, "crumb="@) {
        Seq::empty()
    } else {
        let head = if first {
            piece
        } else {
            "&"@ + piece
        };
        if i < s.len() {
            proof {
                lemma_first_or_len(s, '&');
            }
            head + keep_before_crumb(s.skip(i + 1int), false)
        } else {
            head
        }
    }
}

/// The endpoint re-signed with a fresh crumb: everything before the first
/// `&crumb=`, without any later `crumb=` parameter, then `&crumb=` and the
/// encoded crumb.
pub open spec fn resigned(endpoint: Seq<char>, crumb: Seq<char>) -> Seq<char> {
    let base = match first_occurrence(endpoint, "&crumb="@, 0) {
        Some(q) => endpoint.take(q),
        None => endpoint,
    };
    keep_before_crumb(base, true) + "&crumb="@ + url_encoded(crumb)
}

/// Rebuilds `endpoint` with `crumb` in place of its old crumb.
pub fn resign_endpoint(endpoint: &str, crumb: &str) -> (r: String)
    ensures
        r@ == resigned(endpoint@, crumb@),
{
    let n = endpoint.unicode_len();
    let end = match find_first(endpoint, "&crumb=", 0) {
        Some(q) => q,
        None => n,
    };
    let base = endpoint.substring_char(0, end);
    assert(base@ =~= match first_occurrence(endpoint@, "&crumb="@, 0) {
        Some(q) => endpoint@.take(q),
        None => endpoint@,
    });
    let m = base.unicode_len();
    let mut out = String::new();
    let mut pos: usize = 0;
    assert(base@.skip(0) =~= base@);
    assert(out@ + keep_before_crumb(base@, true) =~= keep_before_crumb(base@, true));
    while pos <= m
        invariant_except_break
            out@ + keep_before_crumb(base@.skip(pos as int), pos == 0) == keep_before_crumb(base@, true),
        invariant
            m == base@.len(),
            pos <= m,
        ensures
            out@ == keep_before_crumb(base@, true),
        decreases m - pos,
    {
        let ghost s = base@.skip(pos as int);
        let i = find_char_from(base, '&', pos);
        let piece = base.substring_char(pos, i);
        assert(piece@ =~= s.take((i - pos) as int));
        if str_starts_with(piece, "crumb=") {
            assert(keep_before_crumb(s, pos == 0) == Seq::<char>::empty());
            assert(out@ + Seq::<char>::empty() =~= out@);
            break;
        }
        let ghost before = out@;
        if pos > 0 {
            out.append("&");
        }
        out.append(piece);
        proof {
            let head = if pos == 0 {
                piece@
            } else {
                "&"@ + piece@
            };
            assert(out@ =~= before + head);
        }
        if i == m {
            proof {
                let head = if pos == 0 {
                    piece@
                } else {
                    "&"@ + piece@
                };
                assert(keep_before_crumb(s, pos == 0) == head);
            }
            break;
        }
        assert(s.skip((i - pos) + 1) =~= base@.skip(i + 1));
        proof {
            let head = if pos == 0 {
                piece@
            } else {
                "&"@ + piece@
            };
            assert(before + (head + keep_before_crumb(base@.skip(i + 1), false)) =~= out@
                + keep_before_crumb(base@.skip(i + 1), false));
        }
        pos = i + 1;
    }
    out.append("&crumb=");
    out.append(url_encode(crumb).as_str());
    out
}

} // verus!

verus! {

/// The chart range Yahoo is asked for, by number of bars wanted.
pub open spec fn chart_range(limit: nat) -> Seq<char> {
    if limit <= 100 {
        "1d"@
    } else if limit <= 1000 {
        "1mo"@
    } else {
        "1y"@
    }
}

/// The statement modules requested for a statement type.
pub open spec fn statement_modules(t: StatementType) -> Seq<char> {
    match t {
        StatementType::Income => "incomeStatementHistory,incomeStatementHistoryQuarterly"@,
        StatementType::Balance => "balanceSheetHistory,balanceSheetHistoryQuarterly"@,
        StatementType::CashFlow => "cashflowStatementHistory,cashflowStatementHistoryQuarterly"@,
    }
}

/// The quote URL for `symbols` signed with `crumb`.
pub open spec fn quote_url(symbols: Seq<Seq<char>>, crumb: Seq<char>) -> Seq<char> {
    "https://query1.finance.yahoo.com/v7/finance/quote?symbols="@ + url_encoded(joined(symbols, ","@))
        + "&fields=regularMarketPrice,regularMarketBid,regularMarketAsk,regularMarketVolume,currency&crumb="@
        + url_encoded(crumb)
}

/// The chart URL for `symbol` signed with `crumb`.
pub open spec fn chart_url(symbol: Seq<char>, interval: Interval, limit: nat, crumb: Seq<char>) -> Seq<char> {
    "https://query1.finance.yahoo.com/v8/finance/chart/"@ + url_encoded(symbol) + "?range="@
        + chart_range(limit) + "&interval="@ + interval_name(interval) + "&crumb="@ + url_encoded(crumb)
}

/// Yahoo adapter: configured health, transport, authentication state and
/// response cache.
pub struct YahooAdapter<C> {
    health: AdapterHealth,
    http_client: C,
    auth_manager: YahooAuthManager,
    cache: CacheStore,
}

impl<C> YahooAdapter<C> {
    pub closed spec fn configured(&self) -> AdapterHealth {
        self.health
    }

    pub closed spec fn client(&self) -> C {
        self.http_client
    }

    /// The authentication state.
    pub closed spec fn auth(&self) -> YahooAuthManager {
        self.auth_manager
    }

    /// The response cache.
    pub closed spec fn response_cache(&self) -> CacheStore {
        self.cache
    }

    /// An adapter that calls out through `http_client`, caching responses in
    /// `cache` or, without one, in a five-minute cache. Yahoo needs no
    /// credentials, so `_auth` is not used.
    pub fn with_http_client(http_client: C, _auth: HttpAuth, cache: Option<CacheStore>) -> (a: Self)
        ensures
            a.configured() == fresh_health(ProviderId::Yahoo),
            a.client() == http_client,
            !a.auth().has_cookie(),
            a.auth().stored_crumb() is None,
            a.auth().last_refresh() is None,
            a.auth().ttl_secs() == 3600,
            cache matches Some(c) ==> a.response_cache() == c,
            cache is None ==> a.response_cache().default_ttl() == 300_000 && a.response_cache().size()
                == 0,
    {
        let cache = match cache {
            Some(c) => c,
            None => CacheStore::with_default_ttl(),
        };
        YahooAdapter {
            health: AdapterHealth { health_state: HealthState::Healthy, rate_available: true, score: 78 },
            http_client,
            auth_manager: YahooAuthManager::new(),
            cache,
        }
    }

    /// An adapter with a given configured health.
    pub fn with_health(
        health_state: HealthState,
        rate_available: bool,
        http_client: C,
        auth: HttpAuth,
        cache: Option<CacheStore>,
    ) -> (a: Self)
        ensures
            a.configured() == (AdapterHealth { health_state, rate_available, score: 78 }),
            a.client() == http_client,
            !a.auth().has_cookie(),
            a.auth().stored_crumb() is None,
            a.auth().last_refresh() is None,
            a.auth().ttl_secs() == 3600,
            cache matches Some(c) ==> a.response_cache() == c,
            cache is None ==> a.response_cache().default_ttl() == 300_000 && a.response_cache().size()
                == 0,
    {
        let mut a = Self::with_http_client(http_client, auth, cache);
        a.health = AdapterHealth { health_state, rate_available, score: 78 };
        a
    }

    pub fn id(&self) -> (p: ProviderId)
        ensures
            p == ProviderId::Yahoo,
    {
        ProviderId::Yahoo
    }

    pub fn capabilities(&self) -> (c: CapabilitySet)
        ensures
            c == provider_capabilities(ProviderId::Yahoo),
    {
        capabilities_for(ProviderId::Yahoo)
    }

    /// The health the adapter reports while its circuit breaker is in `circuit`.
    pub fn health(&self, circuit: CircuitState) -> (h: HealthStatus)
        ensures
            h == health_under(
                self.configured().health_state,
                self.configured().rate_available,
                self.configured().score,
                circuit,
            ),
    {
        health_with_circuit(self.health.health_state, self.health.rate_available, self.health.score, circuit)
    }

    pub fn http_client(&self) -> (c: &C)
        ensures
            *c == self.client(),
    {
        &self.http_client
    }

    /// The authentication state, for updating in place.
    pub fn auth_manager(&mut self) -> (r: &mut YahooAuthManager)
        ensures
            *r == old(self).auth(),
            final(self).auth() == *final(r),
            final(self).configured() == old(self).configured(),
            final(self).client() == old(self).client(),
            final(self).response_cache() == old(self).response_cache(),
    {
        &mut self.auth_manager
    }

    /// The response cache, for updating in place.
    pub fn cache(&mut self) -> (r: &mut CacheStore)
        ensures
            *r == old(self).response_cache(),
            final(self).response_cache() == *final(r),
            final(self).configured() == old(self).configured(),
            final(self).client() == old(self).client(),
            final(self).auth() == old(self).auth(),
    {
        &mut self.cache
    }

    /// Forgets the cached authentication after Yahoo refused it.
    pub fn handle_auth_error(&mut self)
        ensures
            !final(self).auth().has_cookie(),
            final(self).auth().stored_crumb() is None,
            final(self).auth().last_refresh() is None,
            final(self).auth().ttl_secs() == old(self).auth().ttl_secs(),
            final(self).configured() == old(self).configured(),
            final(self).client() == old(self).client(),
            final(self).response_cache() == old(self).response_cache(),
    {
        self.auth_manager.invalidate();
    }

    pub fn check_quote(&self, req: &QuoteRequest) -> (r: Result<(), SourceError>)
        ensures
            outcome_is(r, quote_refusal(ProviderId::Yahoo, req.symbols@.len())),
    {
        check_quote(ProviderId::Yahoo, req)
    }

    pub fn check_bars(&self, req: &BarsRequest) -> (r: Result<(), SourceError>)
        ensures
            outcome_is(r, bars_refusal(ProviderId::Yahoo, req.interval, req.limit as nat)),
    {
        check_bars(ProviderId::Yahoo, req)
    }

    pub fn check_fundamentals(&self, req: &FundamentalsRequest) -> (r: Result<(), SourceError>)
        ensures
            outcome_is(r, fundamentals_refusal(ProviderId::Yahoo, req.symbols@.len())),
    {
        check_fundamentals(ProviderId::Yahoo, req)
    }

    pub fn check_search(&self, req: &SearchRequest) -> (r: Result<(), SourceError>)
        ensures
            outcome_is(r, search_refusal(ProviderId::Yahoo, req.query@, req.limit as nat)),
    {
        check_search(ProviderId::Yahoo, req)
    }

    pub fn check_financials(&self, req: &FinancialsRequest) -> (r: Result<(), SourceError>)
        ensures
            outcome_is(r, financials_refusal(ProviderId::Yahoo, req.limit as nat)),
    {
        check_financials(ProviderId::Yahoo, req)
    }

    pub fn check_earnings(&self, req: &EarningsRequest) -> (r: Result<(), SourceError>)
        ensures
            outcome_is(r, earnings_refusal(ProviderId::Yahoo, req.limit as nat)),
    {
        check_earnings(ProviderId::Yahoo, req)
    }

    /// The cache key of a quote: `quote:` and the symbol.
    pub fn quote_cache_key(symbol: &str) -> (k: String)
        ensures
            k@ == "quote:"@ + symbol@,
    {
        let mut k = String::from_str("quote:");
        k.append(symbol);
        k
    }

    /// The cache key of bars: `bars:`, symbol, interval and limit, `:`-separated.
    pub fn bars_cache_key(symbol: &str, interval: Interval, limit: usize) -> (k: String)
        ensures
            k@ == "bars:"@ + symbol@ + ":"@ + interval_name(interval) + ":"@ + decimal(limit as nat),
    {
        let mut k = String::from_str("bars:");
        k.append(symbol);
        k.append(":");
        k.append(interval.as_str());
        k.append(":");
        k.append(decimal_string(limit as u64).as_str());
        k
    }

    /// The chart range for a number of bars: one day up to 100, one month up
    /// to 1000, else one year.
    pub fn chart_range(limit: usize) -> (s: &'static str)
        ensures
            s@ == chart_range(limit as nat),
    {
        if limit <= 100 {
            "1d"
        } else if limit <= 1000 {
            "1mo"
        } else {
            "1y"
        }
    }

    /// The statement modules requested for `statement_type`.
    pub fn statement_modules(statement_type: StatementType) -> (s: &'static str)
        ensures
            s@ == statement_modules(statement_type),
    {
        match statement_type {
            StatementType::Income => "incomeStatementHistory,incomeStatementHistoryQuarterly",
            StatementType::Balance => "balanceSheetHistory,balanceSheetHistoryQuarterly",
            StatementType::CashFlow => "cashflowStatementHistory,cashflowStatementHistoryQuarterly",
        }
    }

    /// A Yahoo GET: the `referer` header set and a 10000 ms timeout.
    pub fn get_request(url: &str) -> (r: HttpRequest)
        ensures
            r.method == HttpMethod::Get,
            r.url@ == url@,
            header_lookup(r.headers@, "referer"@) == Some("https://finance.yahoo.com/"@),
            forall|k: Seq<char>| k != "referer"@ ==> header_lookup(r.headers@, k) is None,
            r.body is None,
            r.timeout_ms == 10000,
            r.wf(),
    {
        let r = HttpRequest::get(url).with_header("referer", "https://finance.yahoo.com/").with_timeout_ms(
            10_000,
        );
        proof {
            reveal_strlit("referer");
            assert(ascii_lower("referer"@) =~= "referer"@);
        }
        r
    }

    /// The quote URL for `req` signed with `crumb`.
    pub fn quote_url(req: &QuoteRequest, crumb: &str) -> (u: String)
        ensures
            u@ == quote_url(views(req.symbols@), crumb@),
    {
        let mut u = String::from_str("https://query1.finance.yahoo.com/v7/finance/quote?symbols=");
        let syms = join_strings(&req.symbols, ",");
        u.append(url_encode(syms.as_str()).as_str());
        u.append("&fields=regularMarketPrice,regularMarketBid,regularMarketAsk,regularMarketVolume,currency&crumb=");
        u.append(url_encode(crumb).as_str());
        u
    }

    /// The chart URL for `req` signed with `crumb`.
    pub fn chart_url(req: &BarsRequest, crumb: &str) -> (u: String)
        ensures
            u@ == chart_url(req.symbol@, req.interval, req.limit as nat, crumb@),
    {
        let mut u = String::from_str("https://query1.finance.yahoo.com/v8/finance/chart/");
        u.append(url_encode(req.symbol.as_str()).as_str());
        u.append("?range=");
        u.append(Self::chart_range(req.limit));
        u.append("&interval=");
        u.append(req.interval.as_str());
        u.append("&crumb=");
        u.append(url_encode(crumb).as_str());
        u
    }

    /// The search URL for `req` signed with `crumb`.
    pub fn search_url(req: &SearchRequest, crumb: &str) -> (u: String)
        ensures
            u@ == "https://query2.finance.yahoo.com/v1/finance/search?q="@ + url_encoded(req.query@)
                + "&quotesCount="@ + decimal(req.limit as nat) + "&crumb="@ + url_encoded(crumb@),
    {
        let mut u = String::from_str("https://query2.finance.yahoo.com/v1/finance/search?q=");
        u.append(url_encode(req.query.as_str()).as_str());
        u.append("&quotesCount=");
        u.append(decimal_string(req.limit as u64).as_str());
        u.append("&crumb=");
        u.append(url_encode(crumb).as_str());
        u
    }

    /// The fundamentals URL for `symbol` signed with `crumb`.
    pub fn fundamentals_url(symbol: &str, crumb: &str) -> (u: String)
        ensures
            u@ == "https://query2.finance.yahoo.com/v10/finance/quoteSummary/"@ + url_encoded(symbol@)
                + "?modules=price,summaryDetail,defaultKeyStatistics&crumb="@ + url_encoded(crumb@),
    {
        let mut u = String::from_str("https://query2.finance.yahoo.com/v10/finance/quoteSummary/");
        u.append(url_encode(symbol).as_str());
        u.append("?modules=price,summaryDetail,defaultKeyStatistics&crumb=");
        u.append(url_encode(crumb).as_str());
        u
    }

    /// The financial statements URL for `req` signed with `crumb`.
    pub fn financials_url(req: &FinancialsRequest, crumb: &str) -> (u: String)
        ensures
            u@ == "https://query1.finance.yahoo.com/v10/finance/quoteSummary/"@ + url_encoded(req.symbol@)
                + "?modules="@ + statement_modules(req.statement_type) + "&crumb="@ + url_encoded(crumb@),
    {
        let mut u = String::from_str("https://query1.finance.yahoo.com/v10/finance/quoteSummary/");
        u.append(url_encode(req.symbol.as_str()).as_str());
        u.append("?modules=");
        u.append(Self::statement_modules(req.statement_type));
        u.append("&crumb=");
        u.append(url_encode(crumb).as_str());
        u
    }
}

} // verus!

verus! {

/// What a Yahoo data response calls for: use its body, refresh the
/// authentication and send the request once more, or fail.
#[derive(Debug, Clone)]
pub enum StatusVerdict {
    Accept,
    RefreshAndRetry,
    Refuse(SourceError),
}

/// The message of a refused status: the status, and on a retried request
/// (where `mention_refresh` asks for it) that it followed a refresh.
pub open spec fn status_message(status: u16, mention_refresh: bool) -> Seq<char> {
    "yahoo returned status "@ + decimal(status as nat) + if mention_refresh {
        " after auth refresh"@
    } else {
        Seq::empty()
    }
}

fn refused_status(status: u16, mention_refresh: bool) -> (e: SourceError)
    ensures
        e.kind == SourceErrorKind::Unavailable,
        e.message@ == status_message(status, mention_refresh),
{
    let mut m = String::from_str("yahoo returned status ");
    m.append(decimal_string(status as u64).as_str());
    if mention_refresh {
        m.append(" after auth refresh");
    }
    proof {
        reveal_strlit(" after auth refresh");
        assert(m@ =~= status_message(status, mention_refresh));
    }
    SourceError::unavailable(m.as_str())
}

/// Judges the first response to a data request: 401 and 429 call for a
/// refresh and one retry, another 2xx status is accepted, anything else
/// fails.
pub fn judge_first_status(status: u16) -> (r: StatusVerdict)
    ensures
        (status == 401 || status == 429) ==> r is RefreshAndRetry,
        (200 <= status <= 299) ==> r is Accept,
        !(status == 401 || status == 429 || (200 <= status <= 299)) ==> (r matches StatusVerdict::Refuse(
            e,
        ) && e.kind == SourceErrorKind::Unavailable && e.message@ == status_message(status, false)),
{
    if status == 401 || status == 429 {
        StatusVerdict::RefreshAndRetry
    } else if 200 <= status && status <= 299 {
        StatusVerdict::Accept
    } else {
        StatusVerdict::Refuse(refused_status(status, false))
    }
}

/// Judges the response to the retried request: a 2xx status is accepted,
/// anything else fails, the message saying so after a refresh where
/// `mention_refresh` asks for it.
pub fn judge_retried_status(status: u16, mention_refresh: bool) -> (r: StatusVerdict)
    ensures
        (200 <= status <= 299) ==> r is Accept,
        !(200 <= status <= 299) ==> (r matches StatusVerdict::Refuse(e) && e.kind
            == SourceErrorKind::Unavailable && e.message@ == status_message(status, mention_refresh)),
{
    if 200 <= status && status <= 299 {
        StatusVerdict::Accept
    } else {
        StatusVerdict::Refuse(refused_status(status, mention_refresh))
    }
}

/// The failure of a request that never got a response.
pub fn transport_failure(message: &str, on_retry: bool) -> (e: SourceError)
    ensures
        e.kind == SourceErrorKind::Unavailable,
        e.message@ == (if on_retry {
            "yahoo transport error on retry: "@
        } else {
            "yahoo transport error: "@
        }) + message@,
{
    let mut m = if on_retry {
        String::from_str("yahoo transport error on retry: ")
    } else {
        String::from_str("yahoo transport error: ")
    };
    m.append(message);
    SourceError::unavailable(m.as_str())
}

} // verus!

verus! {

/// Judges the error field of a Yahoo response: a non-empty error fails as
/// unavailable with `label` (such as `yahoo chart`) and the error; none, or
/// an empty one, passes.
pub fn check_api_error(label: &str, error: Option<&str>) -> (r: Result<(), SourceError>)
    ensures
        match error {
            None => r is Ok,
            Some(x) => if x@.len() == 0 {
                r is Ok
            } else {
                r matches Err(e) && e.kind == SourceErrorKind::Unavailable && e.message@ == label@
                    + " API error: "@ + x@
            },
        },
{
    match error {
        Some(x) => {
            if x.unicode_len() == 0 {
                return Ok(());
            }
            let mut m = label.to_string();
            m.append(" API error: ");
            m.append(x);
            Err(SourceError::unavailable(m.as_str()))
        },
        None => Ok(()),
    }
}

/// The failure of a response with no result: an internal error naming what
/// was asked for (such as `financials`).
pub fn missing_result(what: &str) -> (e: SourceError)
    ensures
        e.kind == SourceErrorKind::Internal,
        e.message@ == "no result in "@ + what@ + " response"@,
{
    let mut m = String::from_str("no result in ");
    m.append(what);
    m.append(" response");
    SourceError::internal(m.as_str())
}

/// Whether a statement request reads the annual history (rather than the
/// quarterly one).
pub fn uses_annual_history(period: FinancialPeriod) -> (r: bool)
    ensures
        r == (period == FinancialPeriod::Annual),
{
    match period {
        FinancialPeriod::Annual => true,
        FinancialPeriod::Quarterly => false,
    }
}

} // verus!
