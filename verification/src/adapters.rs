//! Provider adapters: their identity, capabilities, health under a circuit
//! breaker, request checks, and the HTTP requests they send.
use vstd::prelude::*;
use vstd::string::*;
use crate::http_client::{
    after_auth, header_lookup, views, HttpAuth, HttpError, HttpMethod, HttpRequest, HttpResponse,
};
use crate::requests::{
    bars_refusal, check_bars, check_earnings, check_financials, check_fundamentals, check_quote,
    check_search, earnings_refusal, financials_refusal, fundamentals_refusal, outcome_is,
    quote_refusal, search_refusal, unsupported, BarsRequest, EarningsRequest, FinancialsRequest,
    FundamentalsRequest, Interval, QuoteRequest, SearchRequest,
};
use crate::source::{
    provider_name, SourceErrorKind, covers, CapabilitySet, CircuitState, Endpoint, HealthState, HealthStatus, ProviderId,
    SourceError,
};
use crate::text::{ascii_lower, decimal, decimal_string, str_eq, trim};

verus! {

/// The health an adapter reports: its configured state and rate budget,
/// degraded while its circuit breaker is half-open, unhealthy and without
/// budget while it is open.
pub open spec fn health_under(
    state: HealthState,
    rate_available: bool,
    score: u16,
    circuit: CircuitState,
) -> HealthStatus {
    match circuit {
        CircuitState::Closed => HealthStatus { state, rate_available, score },
        CircuitState::HalfOpen => HealthStatus {
            state: if state == HealthState::Healthy {
                HealthState::Degraded
            } else {
                state
            },
            rate_available,
            score,
        },
        CircuitState::Open => HealthStatus {
            state: HealthState::Unhealthy,
            rate_available: false,
            score,
        },
    }
}

/// Computes `health_under`.
pub fn health_with_circuit(
    state: HealthState,
    rate_available: bool,
    score: u16,
    circuit: CircuitState,
) -> (h: HealthStatus)
    ensures
        h == health_under(state, rate_available, score, circuit),
{
    let mut state = state;
    let mut rate_available = rate_available;
    match circuit {
        CircuitState::Closed => {},
        CircuitState::HalfOpen => {
            if state == HealthState::Healthy {
                state = HealthState::Degraded;
            }
        },
        CircuitState::Open => {
            state = HealthState::Unhealthy;
            rate_available = false;
        },
    }
    HealthStatus::new(state, rate_available, score)
}

/// The configured health of an adapter.
#[derive(Debug, Clone, Copy, PartialEq, Eq, Structural)]
pub struct AdapterHealth {
    pub health_state: HealthState,
    pub rate_available: bool,
    pub score: u16,
}

/// The endpoints a provider's adapter serves: Alpaca only quotes and bars,
/// Polygon and Alpha Vantage everything but financial statements and
/// earnings, Yahoo everything.
pub open spec fn provider_capabilities(p: ProviderId) -> CapabilitySet {
    match p {
        ProviderId::Alpaca => CapabilitySet {
            quote: true,
            bars: true,
            fundamentals: false,
            search: false,
            financials: false,
            earnings: false,
        },
        ProviderId::Yahoo => CapabilitySet {
            quote: true,
            bars: true,
            fundamentals: true,
            search: true,
            financials: true,
            earnings: true,
        },
        ProviderId::Polygon | ProviderId::Alphavantage => CapabilitySet {
            quote: true,
            bars: true,
            fundamentals: true,
            search: true,
            financials: false,
            earnings: false,
        },
    }
}

/// A provider refuses an endpoint as unsupported exactly when its adapter's
/// capabilities leave the endpoint out, and serves quotes and bars always:
/// for a well-formed request, the request checks and the capability sets
/// agree.
pub proof fn law_refusals_follow_capabilities(p: ProviderId, n: nat, query: Seq<char>, limit: nat)
    requires
        1 <= n <= 2,
        trim(query).len() > 0,
        limit > 0,
    ensures
        quote_refusal(p, n) is None && provider_capabilities(p).quote,
        bars_refusal(p, Interval::OneDay, limit) is None && provider_capabilities(p).bars,
        fundamentals_refusal(p, n) == if provider_capabilities(p).fundamentals {
            None
        } else {
            unsupported(Endpoint::Fundamentals)
        },
        search_refusal(p, query, limit) == if provider_capabilities(p).search {
            None
        } else {
            unsupported(Endpoint::Search)
        },
        financials_refusal(p, limit) == if provider_capabilities(p).financials {
            None
        } else {
            unsupported(Endpoint::Financials)
        },
        earnings_refusal(p, limit) == if provider_capabilities(p).earnings {
            None
        } else {
            unsupported(Endpoint::Earnings)
        },
{
}

/// The capabilities of provider `p`'s adapter.
pub fn capabilities_for(p: ProviderId) -> (c: CapabilitySet)
    ensures
        c == provider_capabilities(p),
{
    match p {
        ProviderId::Alpaca => CapabilitySet::new(true, true, false, false, false, false),
        ProviderId::Yahoo => CapabilitySet::full(),
        ProviderId::Polygon | ProviderId::Alphavantage => CapabilitySet::new(
            true,
            true,
            true,
            true,
            false,
            false,
        ),
    }
}

/// The preference score a provider's adapter starts with.
pub open spec fn default_score(p: ProviderId) -> u16 {
    match p {
        ProviderId::Polygon => 90,
        ProviderId::Alpaca => 85,
        ProviderId::Yahoo => 78,
        ProviderId::Alphavantage => 70,
    }
}

/// A freshly built adapter: healthy, with rate budget, at its default score.
pub open spec fn fresh_health(p: ProviderId) -> AdapterHealth {
    AdapterHealth { health_state: HealthState::Healthy, rate_available: true, score: default_score(p) }
}

/// Alpaca adapter.
#[derive(Clone)]
pub struct AlpacaAdapter<C> {
    health: AdapterHealth,
    http_client: C,
    api_key: String,
    secret_key: String,
}

impl<C> AlpacaAdapter<C> {
    pub closed spec fn configured(&self) -> AdapterHealth {
        self.health
    }

    pub closed spec fn client(&self) -> C {
        self.http_client
    }

    pub closed spec fn key(&self) -> Seq<char> {
        self.api_key@
    }

    pub closed spec fn secret(&self) -> Seq<char> {
        self.secret_key@
    }

    /// An adapter that calls out through `http_client` with the given keys.
    pub fn with_http_client(http_client: C, api_key: &str, secret_key: &str) -> (a: Self)
        ensures
            a.configured() == fresh_health(ProviderId::Alpaca),
            a.client() == http_client,
            a.key() == api_key@,
            a.secret() == secret_key@,
    {
        AlpacaAdapter {
            health: AdapterHealth { health_state: HealthState::Healthy, rate_available: true, score: 85 },
            http_client,
            api_key: String::from_str(api_key),
            secret_key: String::from_str(secret_key),
        }
    }

    pub fn id(&self) -> (p: ProviderId)
        ensures
            p == ProviderId::Alpaca,
    {
        ProviderId::Alpaca
    }

    pub fn capabilities(&self) -> (c: CapabilitySet)
        ensures
            c == provider_capabilities(ProviderId::Alpaca),
    {
        capabilities_for(ProviderId::Alpaca)
    }

    /// The health the adapter reports while its circuit breaker is in `circuit`.
    pub fn health(&self, circuit: CircuitState) -> (h: HealthStatus)
        ensures
            h == health_under(
                self.configured().health_state,
                self.configured().rate_available,
                self.configured().score,
                circuit,
            ),
    {
        health_with_circuit(self.health.health_state, self.health.rate_available, self.health.score, circuit)
    }

    pub fn http_client(&self) -> (c: &C)
        ensures
            *c == self.client(),
    {
        &self.http_client
    }

    pub fn check_quote(&self, req: &QuoteRequest) -> (r: Result<(), SourceError>)
        ensures
            outcome_is(r, quote_refusal(ProviderId::Alpaca, req.symbols@.len())),
    {
        check_quote(ProviderId::Alpaca, req)
    }

    pub fn check_bars(&self, req: &BarsRequest) -> (r: Result<(), SourceError>)
        ensures
            outcome_is(r, bars_refusal(ProviderId::Alpaca, req.interval, req.limit as nat)),
    {
        check_bars(ProviderId::Alpaca, req)
    }

    /// The latest-quotes request for `req`: the symbols comma-joined in the
    /// URL, both keys as headers, a 5000 ms timeout.
    pub fn quotes_request(&self, req: &QuoteRequest) -> (r: HttpRequest)
        ensures
            r.method == HttpMethod::Get,
            r.url@ == "https://data.alpaca.markets/v2/stocks/quotes/latest?symbols="@ + joined(
                views(req.symbols@),
                ","@,
            ),
            header_lookup(r.headers@, "apca-api-key-id"@) == Some(self.key()),
            header_lookup(r.headers@, "apca-api-secret-key"@) == Some(self.secret()),
            forall|k: Seq<char>|
                k != "apca-api-key-id"@ && k != "apca-api-secret-key"@ ==> header_lookup(
                    r.headers@,
                    k,
                ) is None,
            r.body is None,
            r.timeout_ms == 5000,
            r.wf(),
    {
        let mut url = String::from_str("https://data.alpaca.markets/v2/stocks/quotes/latest?symbols=");
        let syms = join_strings(&req.symbols, ",");
        url.append(syms.as_str());
        let r = HttpRequest::get(url.as_str())
            .with_header("APCA-API-KEY-ID", self.api_key.as_str())
            .with_header("APCA-API-SECRET-KEY", self.secret_key.as_str())
            .with_timeout_ms(5_000);
        proof {
            reveal_strlit("APCA-API-KEY-ID");
            reveal_strlit("APCA-API-SECRET-KEY");
            reveal_strlit("apca-api-key-id");
            reveal_strlit("apca-api-secret-key");
            assert(ascii_lower("APCA-API-KEY-ID"@) =~= "apca-api-key-id"@);
            assert(ascii_lower("APCA-API-SECRET-KEY"@) =~= "apca-api-secret-key"@);
        }
        r
    }

    /// The bars request for `req`, reaching back to `start` (a UTC
    /// timestamp the caller takes from the clock): both keys as headers, a
    /// 5000 ms timeout.
    pub fn bars_request(&self, req: &BarsRequest, start: &str) -> (r: HttpRequest)
        ensures
            r.method == HttpMethod::Get,
            r.url@ == "https://data.alpaca.markets/v2/stocks/"@ + req.symbol@ + "/bars?timeframe="@
                + alpaca_timeframe(req.interval) + "&start="@ + start@ + "&limit="@ + decimal(
                req.limit as nat,
            ),
            header_lookup(r.headers@, "apca-api-key-id"@) == Some(self.key()),
            header_lookup(r.headers@, "apca-api-secret-key"@) == Some(self.secret()),
            forall|k: Seq<char>|
                k != "apca-api-key-id"@ && k != "apca-api-secret-key"@ ==> header_lookup(
                    r.headers@,
                    k,
                ) is None,
            r.body is None,
            r.timeout_ms == 5000,
            r.wf(),
    {
        let mut url = String::from_str("https://data.alpaca.markets/v2/stocks/");
        url.append(req.symbol.as_str());
        url.append("/bars?timeframe=");
        url.append(alpaca_timeframe_name(req.interval));
        url.append("&start=");
        url.append(start);
        url.append("&limit=");
        url.append(decimal_string(req.limit as u64).as_str());
        let r = HttpRequest::get(url.as_str())
            .with_header("APCA-API-KEY-ID", self.api_key.as_str())
            .with_header("APCA-API-SECRET-KEY", self.secret_key.as_str())
            .with_timeout_ms(5_000);
        proof {
            reveal_strlit("APCA-API-KEY-ID");
            reveal_strlit("APCA-API-SECRET-KEY");
            reveal_strlit("apca-api-key-id");
            reveal_strlit("apca-api-secret-key");
            assert(ascii_lower("APCA-API-KEY-ID"@) =~= "apca-api-key-id"@);
            assert(ascii_lower("APCA-API-SECRET-KEY"@) =~= "apca-api-secret-key"@);
        }
        r
    }
}

/// The days a bars request reaches back for `limit` bars: two per bar.
pub open spec fn lookback_days(limit: nat) -> nat {
    2 * limit
}

/// The days a bars request reaches back for `limit` bars.
pub fn bars_lookback_days(limit: usize) -> (d: u128)
    ensures
        d == lookback_days(limit as nat),
{
    limit as u128 * 2
}

/// `parts` joined with `sep` between neighbours.
pub open spec fn joined(parts: Seq<Seq<char>>, sep: Seq<char>) -> Seq<char>
    decreases parts.len(),
{
    if parts.len() == 0 {
        Seq::empty()
    } else if parts.len() == 1 {
        parts[0]
    } else {
        joined(parts.drop_last(), sep) + sep + parts.last()
    }
}

/// The strings of `parts` joined with `sep` (as `[String]::join`).
pub fn join_strings(parts: &Vec<String>, sep: &str) -> (r: String)
    ensures
        r@ == joined(views(parts@), sep@),
{
    let mut out = String::new();
    let n = parts.len();
    let mut i: usize = 0;
    while i < n
        invariant
            n == parts.len(),
            i <= n,
            out@ == joined(views(parts@.take(i as int)), sep@),
        decreases n - i,
    {
        assert(views(parts@.take(i + 1)).drop_last() =~= views(parts@.take(i as int)));
        if i > 0 {
            out.append(sep);
        }
        out.append(parts[i].as_str());
        proof {
            if i == 0 {
                assert(out@ =~= views(parts@.take(1))[0]);
            }
        }
        i = i + 1;
    }
    assert(parts@.take(n as int) =~= parts@);
    out
}

} // verus!

verus! {

/// Polygon adapter.
#[derive(Clone)]
pub struct PolygonAdapter<C> {
    health: AdapterHealth,
    http_client: C,
    auth: HttpAuth,
}

/// Polygon's aggregate timespan for an interval.
pub open spec fn polygon_timespan(i: Interval) -> Seq<char> {
    match i {
        Interval::OneMinute | Interval::FiveMinutes | Interval::FifteenMinutes => "minute"@,
        Interval::OneHour => "hour"@,
        Interval::OneDay => "day"@,
    }
}

/// Polygon's aggregate multiplier for an interval.
pub open spec fn polygon_multiplier(i: Interval) -> nat {
    match i {
        Interval::FiveMinutes => 5,
        Interval::FifteenMinutes => 15,
        _ => 1,
    }
}

impl<C> PolygonAdapter<C> {
    pub closed spec fn configured(&self) -> AdapterHealth {
        self.health
    }

    pub closed spec fn client(&self) -> C {
        self.http_client
    }

    pub closed spec fn authentication(&self) -> HttpAuth {
        self.auth
    }

    /// An adapter that calls out through `http_client` with `auth`.
    pub fn with_http_client(http_client: C, auth: HttpAuth) -> (a: Self)
        ensures
            a.configured() == fresh_health(ProviderId::Polygon),
            a.client() == http_client,
            a.authentication() == auth,
    {
        PolygonAdapter {
            health: AdapterHealth { health_state: HealthState::Healthy, rate_available: true, score: 90 },
            http_client,
            auth,
        }
    }

    /// An adapter with a given configured health.
    pub fn with_health(health_state: HealthState, rate_available: bool, http_client: C, auth: HttpAuth) -> (a: Self)
        ensures
            a.configured() == (AdapterHealth { health_state, rate_available, score: 90 }),
            a.client() == http_client,
            a.authentication() == auth,
    {
        PolygonAdapter { health: AdapterHealth { health_state, rate_available, score: 90 }, http_client, auth }
    }

    pub fn id(&self) -> (p: ProviderId)
        ensures
            p == ProviderId::Polygon,
    {
        ProviderId::Polygon
    }

    pub fn capabilities(&self) -> (c: CapabilitySet)
        ensures
            c == provider_capabilities(ProviderId::Polygon),
    {
        capabilities_for(ProviderId::Polygon)
    }

    /// The health the adapter reports while its circuit breaker is in `circuit`.
    pub fn health(&self, circuit: CircuitState) -> (h: HealthStatus)
        ensures
            h == health_under(
                self.configured().health_state,
                self.configured().rate_available,
                self.configured().score,
                circuit,
            ),
    {
        health_with_circuit(self.health.health_state, self.health.rate_available, self.health.score, circuit)
    }

    pub fn http_client(&self) -> (c: &C)
        ensures
            *c == self.client(),
    {
        &self.http_client
    }

    pub fn check_quote(&self, req: &QuoteRequest) -> (r: Result<(), SourceError>)
        ensures
            outcome_is(r, quote_refusal(ProviderId::Polygon, req.symbols@.len())),
    {
        check_quote(ProviderId::Polygon, req)
    }

    pub fn check_bars(&self, req: &BarsRequest) -> (r: Result<(), SourceError>)
        ensures
            outcome_is(r, bars_refusal(ProviderId::Polygon, req.interval, req.limit as nat)),
    {
        check_bars(ProviderId::Polygon, req)
    }

    pub fn check_fundamentals(&self, req: &FundamentalsRequest) -> (r: Result<(), SourceError>)
        ensures
            outcome_is(r, fundamentals_refusal(ProviderId::Polygon, req.symbols@.len())),
    {
        check_fundamentals(ProviderId::Polygon, req)
    }

    pub fn check_search(&self, req: &SearchRequest) -> (r: Result<(), SourceError>)
        ensures
            outcome_is(r, search_refusal(ProviderId::Polygon, req.query@, req.limit as nat)),
    {
        check_search(ProviderId::Polygon, req)
    }

    /// The previous-close request for the first symbol of `req`.
    pub fn quote_request(&self, req: &QuoteRequest) -> (r: HttpRequest)
        requires
            req.symbols@.len() > 0,
        ensures
            r.method == HttpMethod::Get,
            r.url@ == "https://api.polygon.io/v2/aggs/ticker/"@ + req.symbols@[0]@
                + "/prev?adjusted=true"@,
            after_auth(Seq::empty(), r.headers@, self.authentication()),
            r.body is None,
            r.timeout_ms == 5000,
            r.wf(),
    {
        let mut url = String::from_str("https://api.polygon.io/v2/aggs/ticker/");
        url.append(req.symbols[0].as_str());
        url.append("/prev?adjusted=true");
        HttpRequest::get(url.as_str()).with_auth(&self.auth).with_timeout_ms(5_000)
    }

    /// The ticker search request for `req`.
    pub fn search_request(&self, req: &SearchRequest) -> (r: HttpRequest)
        ensures
            r.method == HttpMethod::Get,
            r.url@ == "https://api.polygon.io/v3/reference/tickers?search="@ + crate::http_client::url_encoded(
                req.query@,
            ) + "&limit="@ + decimal(req.limit as nat) + "&active=true"@,
            after_auth(Seq::empty(), r.headers@, self.authentication()),
            r.body is None,
            r.timeout_ms == 5000,
            r.wf(),
    {
        let mut url = String::from_str("https://api.polygon.io/v3/reference/tickers?search=");
        url.append(crate::http_client::url_encode(req.query.as_str()).as_str());
        url.append("&limit=");
        url.append(decimal_string(req.limit as u64).as_str());
        url.append("&active=true");
        HttpRequest::get(url.as_str()).with_auth(&self.auth).with_timeout_ms(5_000)
    }

    /// The aggregates request for `req` over the dates `from` to `to`
    /// (`YYYY-MM-DD`, which the caller takes from the clock).
    pub fn bars_request(&self, req: &BarsRequest, from: &str, to: &str) -> (r: HttpRequest)
        ensures
            r.method == HttpMethod::Get,
            r.url@ == "https://api.polygon.io/v2/aggs/ticker/"@ + req.symbol@ + "/range/"@ + decimal(
                polygon_multiplier(req.interval),
            ) + "/"@ + polygon_timespan(req.interval) + "/"@ + from@ + "/"@ + to@
                + "?adjusted=true&sort=desc&limit="@ + decimal(req.limit as nat),
            after_auth(Seq::empty(), r.headers@, self.authentication()),
            r.body is None,
            r.timeout_ms == 5000,
            r.wf(),
    {
        let mut url = String::from_str("https://api.polygon.io/v2/aggs/ticker/");
        url.append(req.symbol.as_str());
        url.append("/range/");
        url.append(decimal_string(Self::multiplier(req.interval) as u64).as_str());
        url.append("/");
        url.append(Self::timespan(req.interval));
        url.append("/");
        url.append(from);
        url.append("/");
        url.append(to);
        url.append("?adjusted=true&sort=desc&limit=");
        url.append(decimal_string(req.limit as u64).as_str());
        HttpRequest::get(url.as_str()).with_auth(&self.auth).with_timeout_ms(5_000)
    }

    /// Polygon's aggregate timespan for `interval`.
    pub fn timespan(interval: Interval) -> (s: &'static str)
        ensures
            s@ == polygon_timespan(interval),
    {
        match interval {
            Interval::OneMinute | Interval::FiveMinutes | Interval::FifteenMinutes => "minute",
            Interval::OneHour => "hour",
            Interval::OneDay => "day",
        }
    }

    /// Polygon's aggregate multiplier for `interval`.
    pub fn multiplier(interval: Interval) -> (m: u8)
        ensures
            m as nat == polygon_multiplier(interval),
    {
        match interval {
            Interval::FiveMinutes => 5,
            Interval::FifteenMinutes => 15,
            _ => 1,
        }
    }
}

/// Alpha Vantage adapter.
#[derive(Clone)]
pub struct AlphaVantageAdapter<C> {
    health: AdapterHealth,
    http_client: C,
    api_key: String,
}

/// Alpha Vantage's name of an interval.
pub open spec fn alphavantage_interval(i: Interval) -> Seq<char> {
    match i {
        Interval::OneMinute => "1min"@,
        Interval::FiveMinutes => "5min"@,
        Interval::FifteenMinutes => "15min"@,
        Interval::OneHour => "60min"@,
        Interval::OneDay => "daily"@,
    }
}

impl<C> AlphaVantageAdapter<C> {
    pub closed spec fn configured(&self) -> AdapterHealth {
        self.health
    }

    pub closed spec fn client(&self) -> C {
        self.http_client
    }

    pub closed spec fn key(&self) -> Seq<char> {
        self.api_key@
    }

    /// An adapter that calls out through `http_client` with `api_key`.
    pub fn with_http_client(http_client: C, api_key: &str) -> (a: Self)
        ensures
            a.configured() == fresh_health(ProviderId::Alphavantage),
            a.client() == http_client,
            a.key() == api_key@,
    {
        AlphaVantageAdapter {
            health: AdapterHealth { health_state: HealthState::Healthy, rate_available: true, score: 70 },
            http_client,
            api_key: String::from_str(api_key),
        }
    }

    pub fn id(&self) -> (p: ProviderId)
        ensures
            p == ProviderId::Alphavantage,
    {
        ProviderId::Alphavantage
    }

    pub fn capabilities(&self) -> (c: CapabilitySet)
        ensures
            c == provider_capabilities(ProviderId::Alphavantage),
    {
        capabilities_for(ProviderId::Alphavantage)
    }

    /// The health the adapter reports while its circuit breaker is in `circuit`.
    pub fn health(&self, circuit: CircuitState) -> (h: HealthStatus)
        ensures
            h == health_under(
                self.configured().health_state,
                self.configured().rate_available,
                self.configured().score,
                circuit,
            ),
    {
        health_with_circuit(self.health.health_state, self.health.rate_available, self.health.score, circuit)
    }

    pub fn http_client(&self) -> (c: &C)
        ensures
            *c == self.client(),
    {
        &self.http_client
    }

    pub fn check_quote(&self, req: &QuoteRequest) -> (r: Result<(), SourceError>)
        ensures
            outcome_is(r, quote_refusal(ProviderId::Alphavantage, req.symbols@.len())),
    {
        check_quote(ProviderId::Alphavantage, req)
    }

    pub fn check_bars(&self, req: &BarsRequest) -> (r: Result<(), SourceError>)
        ensures
            outcome_is(r, bars_refusal(ProviderId::Alphavantage, req.interval, req.limit as nat)),
    {
        check_bars(ProviderId::Alphavantage, req)
    }

    pub fn check_fundamentals(&self, req: &FundamentalsRequest) -> (r: Result<(), SourceError>)
        ensures
            outcome_is(r, fundamentals_refusal(ProviderId::Alphavantage, req.symbols@.len())),
    {
        check_fundamentals(ProviderId::Alphavantage, req)
    }

    pub fn check_search(&self, req: &SearchRequest) -> (r: Result<(), SourceError>)
        ensures
            outcome_is(r, search_refusal(ProviderId::Alphavantage, req.query@, req.limit as nat)),
    {
        check_search(ProviderId::Alphavantage, req)
    }

    /// The GLOBAL_QUOTE request for the first symbol of `req`.
    pub fn quote_request(&self, req: &QuoteRequest) -> (r: HttpRequest)
        requires
            req.symbols@.len() > 0,
        ensures
            r.method == HttpMethod::Get,
            r.url@ == "https://www.alphavantage.co/query?function=GLOBAL_QUOTE&symbol="@
                + req.symbols@[0]@ + "&apikey="@ + self.key(),
            r.headers@.len() == 0,
            r.body is None,
            r.timeout_ms == 5000,
    {
        let mut url = String::from_str("https://www.alphavantage.co/query?function=GLOBAL_QUOTE&symbol=");
        url.append(req.symbols[0].as_str());
        url.append("&apikey=");
        url.append(self.api_key.as_str());
        HttpRequest::get(url.as_str()).with_timeout_ms(5_000)
    }

    /// The intraday series request for `req`.
    pub fn bars_request(&self, req: &BarsRequest) -> (r: HttpRequest)
        ensures
            r.method == HttpMethod::Get,
            r.url@ == "https://www.alphavantage.co/query?function=TIME_SERIES_INTRADAY&symbol="@
                + req.symbol@ + "&interval="@ + alphavantage_interval(req.interval) + "&apikey="@
                + self.key(),
            r.headers@.len() == 0,
            r.body is None,
            r.timeout_ms == 5000,
    {
        let mut url = String::from_str(
            "https://www.alphavantage.co/query?function=TIME_SERIES_INTRADAY&symbol=",
        );
        url.append(req.symbol.as_str());
        url.append("&interval=");
        url.append(Self::interval_name(req.interval));
        url.append("&apikey=");
        url.append(self.api_key.as_str());
        HttpRequest::get(url.as_str()).with_timeout_ms(5_000)
    }

    /// The symbol search request for `req`.
    pub fn search_request(&self, req: &SearchRequest) -> (r: HttpRequest)
        ensures
            r.method == HttpMethod::Get,
            r.url@ == "https://www.alphavantage.co/query?function=SYMBOL_SEARCH&keywords="@
                + crate::http_client::url_encoded(req.query@) + "&apikey="@ + self.key(),
            r.headers@.len() == 0,
            r.body is None,
            r.timeout_ms == 5000,
    {
        let mut url = String::from_str(
            "https://www.alphavantage.co/query?function=SYMBOL_SEARCH&keywords=",
        );
        url.append(crate::http_client::url_encode(req.query.as_str()).as_str());
        url.append("&apikey=");
        url.append(self.api_key.as_str());
        HttpRequest::get(url.as_str()).with_timeout_ms(5_000)
    }

    /// Alpha Vantage's name for `interval`.
    pub fn interval_name(interval: Interval) -> (s: &'static str)
        ensures
            s@ == alphavantage_interval(interval),
    {
        match interval {
            Interval::OneMinute => "1min",
            Interval::FiveMinutes => "5min",
            Interval::FifteenMinutes => "15min",
            Interval::OneHour => "60min",
            Interval::OneDay => "daily",
        }
    }
}

/// Alpaca's name of a bar timeframe.
pub open spec fn alpaca_timeframe(i: Interval) -> Seq<char> {
    match i {
        Interval::OneMinute => "1Min"@,
        Interval::FiveMinutes => "5Min"@,
        Interval::FifteenMinutes => "15Min"@,
        Interval::OneHour => "1Hour"@,
        Interval::OneDay => "1Day"@,
    }
}

/// Alpaca's name for the timeframe of `interval`.
pub fn alpaca_timeframe_name(interval: Interval) -> (s: &'static str)
    ensures
        s@ == alpaca_timeframe(interval),
{
    match interval {
        Interval::OneMinute => "1Min",
        Interval::FiveMinutes => "5Min",
        Interval::FifteenMinutes => "15Min",
        Interval::OneHour => "1Hour",
        Interval::OneDay => "1Day",
    }
}

} // verus!

verus! {

/// Kind of instrument.
#[derive(Debug, Clone, Copy, PartialEq, Eq, Structural)]
pub enum AssetClass {
    Equity,
    Etf,
    Index,
    Crypto,
    Forex,
    Fund,
    Other,
}

/// Polygon's market name to asset class.
pub open spec fn polygon_class(market: Option<Seq<char>>) -> AssetClass {
    match market {
        Some(m) => if m == "stocks"@ {
            AssetClass::Equity
        } else if m == "crypto"@ {
            AssetClass::Crypto
        } else if m == "fx"@ {
            AssetClass::Forex
        } else {
            AssetClass::Other
        },
        None => AssetClass::Other,
    }
}

/// The asset class of a Polygon ticker from its market.
pub fn polygon_asset_class(market: Option<&str>) -> (c: AssetClass)
    ensures
        c == polygon_class(
            match market {
                Some(m) => Some(m@),
                None => None,
            },
        ),
{
    match market {
        Some(m) => if str_eq(m, "stocks") {
            AssetClass::Equity
        } else if str_eq(m, "crypto") {
            AssetClass::Crypto
        } else if str_eq(m, "fx") {
            AssetClass::Forex
        } else {
            AssetClass::Other
        },
        None => AssetClass::Other,
    }
}

/// Alpha Vantage's match type to asset class.
pub open spec fn alphavantage_class(t: Seq<char>) -> AssetClass {
    if t == "Equity"@ || t == "Common Stock"@ {
        AssetClass::Equity
    } else if t == "ETF"@ || t == "Exchange Traded Fund"@ {
        AssetClass::Etf
    } else if t == "Fund"@ {
        AssetClass::Fund
    } else if t == "Index"@ {
        AssetClass::Index
    } else if t == "Crypto"@ {
        AssetClass::Crypto
    } else if t == "Currency"@ || t == "Forex"@ {
        AssetClass::Forex
    } else {
        AssetClass::Other
    }
}

/// The asset class of an Alpha Vantage search match from its type.
pub fn alphavantage_asset_class(match_type: &str) -> (c: AssetClass)
    ensures
        c == alphavantage_class(match_type@),
{
    if str_eq(match_type, "Equity") || str_eq(match_type, "Common Stock") {
        AssetClass::Equity
    } else if str_eq(match_type, "ETF") || str_eq(match_type, "Exchange Traded Fund") {
        AssetClass::Etf
    } else if str_eq(match_type, "Fund") {
        AssetClass::Fund
    } else if str_eq(match_type, "Index") {
        AssetClass::Index
    } else if str_eq(match_type, "Crypto") {
        AssetClass::Crypto
    } else if str_eq(match_type, "Currency") || str_eq(match_type, "Forex") {
        AssetClass::Forex
    } else {
        AssetClass::Other
    }
}

/// Yahoo's quote type to asset class; unknown types count as equity.
pub open spec fn yahoo_class(t: Seq<char>) -> AssetClass {
    if t == "EQUITY"@ {
        AssetClass::Equity
    } else if t == "ETF"@ {
        AssetClass::Etf
    } else if t == "INDEX"@ {
        AssetClass::Index
    } else if t == "FUTURE"@ || t == "OPTION"@ {
        AssetClass::Other
    } else {
        AssetClass::Equity
    }
}

/// The asset class of a Yahoo search quote from its quote type.
pub fn yahoo_asset_class(quote_type: &str) -> (c: AssetClass)
    ensures
        c == yahoo_class(quote_type@),
{
    if str_eq(quote_type, "EQUITY") {
        AssetClass::Equity
    } else if str_eq(quote_type, "ETF") {
        AssetClass::Etf
    } else if str_eq(quote_type, "INDEX") {
        AssetClass::Index
    } else if str_eq(quote_type, "FUTURE") || str_eq(quote_type, "OPTION") {
        AssetClass::Other
    } else {
        AssetClass::Equity
    }
}

} // verus!

verus! {

/// The message of a non-2xx response from provider `p`.
pub open spec fn status_message(p: ProviderId, status: u16) -> Seq<char> {
    provider_name(p) + " returned status "@ + decimal(status as nat)
}

/// Judges the status of a provider's response: a 2xx status is accepted;
/// any other fails as unavailable, naming the status.
pub fn check_status(p: ProviderId, status: u16) -> (r: Result<(), SourceError>)
    ensures
        (200 <= status <= 299) ==> r is Ok,
        !(200 <= status <= 299) ==> (r matches Err(e) && e.kind == SourceErrorKind::Unavailable
            && e.message@ == status_message(p, status)),
{
    if 200 <= status && status <= 299 {
        return Ok(());
    }
    let mut m = String::from_str(p.as_str());
    m.append(" returned status ");
    m.append(decimal_string(status as u64).as_str());
    Err(SourceError::unavailable(m.as_str()))
}

/// The failure of a call to provider `p` that got no response.
pub fn transport_error(p: ProviderId, message: &str) -> (e: SourceError)
    ensures
        e.kind == SourceErrorKind::Unavailable,
        e.message@ == provider_name(p) + " transport error: "@ + message@,
{
    let mut m = String::from_str(p.as_str());
    m.append(" transport error: ");
    m.append(message);
    SourceError::unavailable(m.as_str())
}

/// Judges the `status` field of a Polygon previous-close response: `OK`
/// and `DELAYED` are accepted, anything else fails as unavailable.
pub fn check_polygon_api_status(status: &str) -> (r: Result<(), SourceError>)
    ensures
        (status@ == "OK"@ || status@ == "DELAYED"@) ==> r is Ok,
        !(status@ == "OK"@ || status@ == "DELAYED"@) ==> (r matches Err(e) && e.kind
            == SourceErrorKind::Unavailable && e.message@ == "polygon API error: "@ + status@),
{
    if str_eq(status, "OK") || str_eq(status, "DELAYED") {
        return Ok(());
    }
    let mut m = String::from_str("polygon API error: ");
    m.append(status);
    Err(SourceError::unavailable(m.as_str()))
}

/// A quoted currency, or `USD` when the provider names none.
pub fn currency_or_usd(currency: Option<&str>) -> (c: String)
    ensures
        currency matches Some(x) ==> c@ == x@,
        currency is None ==> c@ == "USD"@,
{
    match currency {
        Some(x) => x.to_string(),
        None => String::from_str("USD"),
    }
}

/// Turns a provider's reply into its body: a transport failure and a
/// non-2xx status both fail as unavailable, naming the provider.
pub fn accept_reply(p: ProviderId, reply: Result<HttpResponse, HttpError>) -> (r: Result<
    String,
    SourceError,
>)
    ensures
        match reply {
            Err(e) => r matches Err(x) && x.kind == SourceErrorKind::Unavailable && x.message@
                == provider_name(p) + " transport error: "@ + e.message_view(),
            Ok(resp) => if 200 <= resp.status <= 299 {
                r matches Ok(b) && b@ == resp.body@
            } else {
                r matches Err(x) && x.kind == SourceErrorKind::Unavailable && x.message@
                    == status_message(p, resp.status)
            },
        },
{
    match reply {
        Err(e) => Err(transport_error(p, e.message())),
        Ok(resp) => match check_status(p, resp.status) {
            Ok(()) => Ok(resp.body),
            Err(x) => Err(x),
        },
    }
}

/// One search hit as a provider reports it. `accepted` is the domain
/// model's verdict on the hit: whether its symbol parses and an instrument
/// can be built from it.
#[derive(Debug, Clone)]
pub struct SearchHit {
    pub symbol: String,
    pub name: Option<String>,
    pub exchange: Option<String>,
    pub kind: Option<String>,
    pub currency: Option<String>,
    pub active: Option<bool>,
    pub accepted: bool,
}

/// An instrument found by a search.
#[derive(Debug, Clone)]
pub struct InstrumentRow {
    pub symbol: String,
    pub name: String,
    pub exchange: Option<String>,
    pub currency: String,
    pub asset_class: AssetClass,
    pub active: bool,
}

/// The view of an optional text.
pub open spec fn opt_text(o: Option<String>) -> Option<Seq<char>> {
    match o {
        Some(s) => Some(s@),
        None => None,
    }
}

/// The asset class provider `p` reports for a hit of kind `kind`: Polygon
/// by market, Alpha Vantage by match type, Yahoo by quote type.
pub open spec fn search_class(p: ProviderId, kind: Option<Seq<char>>) -> AssetClass {
    let k = match kind {
        Some(k) => k,
        None => Seq::empty(),
    };
    match p {
        ProviderId::Polygon => polygon_class(kind),
        ProviderId::Alphavantage => alphavantage_class(k),
        ProviderId::Yahoo => yahoo_class(k),
        ProviderId::Alpaca => AssetClass::Other,
    }
}

/// The row provider `p` makes of a hit: its name (or, without one, its
/// symbol), its currency (or `USD`), its asset class, and active unless it
/// says otherwise.
pub open spec fn row_of(p: ProviderId, h: SearchHit, r: InstrumentRow) -> bool {
    &&& r.symbol@ == h.symbol@
    &&& r.name@ == (match h.name {
        Some(n) => n@,
        None => h.symbol@,
    })
    &&& opt_text(r.exchange) == opt_text(h.exchange)
    &&& r.currency@ == (match h.currency {
        Some(c) => c@,
        None => "USD"@,
    })
    &&& r.asset_class == search_class(p, opt_text(h.kind))
    &&& r.active == (match h.active {
        Some(a) => a,
        None => true,
    })
}

/// The positions, in order, of the accepted hits among the first `n`.
pub open spec fn accepted_positions(hits: Seq<SearchHit>, n: int) -> Seq<int>
    decreases n,
{
    if n <= 0 {
        Seq::empty()
    } else if hits[n - 1].accepted {
        accepted_positions(hits, n - 1).push(n - 1)
    } else {
        accepted_positions(hits, n - 1)
    }
}

proof fn lemma_accepted_prefix(hits: Seq<SearchHit>, i: int, n: int)
    requires
        0 <= i <= n,
    ensures
        accepted_positions(hits, i).len() <= accepted_positions(hits, n).len(),
        forall|j: int|
            0 <= j < accepted_positions(hits, i).len() ==> #[trigger] accepted_positions(hits, n)[j]
                == accepted_positions(hits, i)[j],
    decreases n - i,
{
    if i < n {
        lemma_accepted_prefix(hits, i, n - 1);
    }
}

fn copy_text(o: &Option<String>) -> (r: Option<String>)
    ensures
        opt_text(r) == opt_text(*o),
{
    match o {
        Some(s) => Some(s.clone()),
        None => None,
    }
}

/// The instruments a search by provider `p` reports: the accepted hits, in
/// order, each made a row, the first `limit` of them.
pub fn search_rows(p: ProviderId, hits: &[SearchHit], limit: usize) -> (r: Vec<InstrumentRow>)
    ensures
        r@.len() == (if accepted_positions(hits@, hits@.len() as int).len() < limit {
            accepted_positions(hits@, hits@.len() as int).len() as int
        } else {
            limit as int
        }),
        forall|j: int|
            0 <= j < r@.len() ==> row_of(
                p,
                hits@[accepted_positions(hits@, hits@.len() as int)[j]],
                #[trigger] r@[j],
            ),
{
    let mut rows: Vec<InstrumentRow> = Vec::new();
    let n = hits.len();
    let mut i: usize = 0;
    while i < n && rows.len() < limit
        invariant
            n == hits@.len(),
            i <= n,
            rows@.len() <= limit,
            rows@.len() == accepted_positions(hits@, i as int).len(),
            forall|j: int|
                0 <= j < rows@.len() ==> row_of(
                    p,
                    hits@[accepted_positions(hits@, i as int)[j]],
                    #[trigger] rows@[j],
                ),
        decreases n - i,
    {
        let h = &hits[i];
        let ghost before = rows@;
        if h.accepted {
            let name = match &h.name {
                Some(nm) => nm.clone(),
                None => h.symbol.clone(),
            };
            let currency = match &h.currency {
                Some(c) => c.clone(),
                None => String::from_str("USD"),
            };
            proof {
                reveal_strlit("USD");
            }
            let asset_class = match p {
                ProviderId::Polygon => match &h.kind {
                    Some(k) => polygon_asset_class(Some(k.as_str())),
                    None => polygon_asset_class(None),
                },
                ProviderId::Alphavantage => match &h.kind {
                    Some(k) => alphavantage_asset_class(k.as_str()),
                    None => alphavantage_asset_class(""),
                },
                ProviderId::Yahoo => match &h.kind {
                    Some(k) => yahoo_asset_class(k.as_str()),
                    None => yahoo_asset_class(""),
                },
                ProviderId::Alpaca => AssetClass::Other,
            };
            proof {
                reveal_strlit("");
                assert(""@ =~= Seq::<char>::empty());
            }
            let active = match h.active {
                Some(a) => a,
                None => true,
            };
            let row = InstrumentRow {
                symbol: h.symbol.clone(),
                name,
                exchange: copy_text(&h.exchange),
                currency,
                asset_class,
                active,
            };
            assert(row.symbol@ == h.symbol@);
            assert(row.asset_class == search_class(p, opt_text(h.kind)));
            assert(row.currency@ == (match h.currency {
                Some(c) => c@,
                None => "USD"@,
            }));
            assert(row_of(p, hits@[i as int], row));
            rows.push(row);
            assert forall|j: int|
                0 <= j < rows@.len() implies row_of(
                p,
                hits@[accepted_positions(hits@, i + 1)[j]],
                #[trigger] rows@[j],
            ) by {
                if j < before.len() {
                    assert(rows@[j] == before[j]);
                }
            }
        }
        i = i + 1;
    }
    proof {
        lemma_accepted_prefix(hits@, i as int, n as int);
    }
    rows
}

} // verus!

verus! {

/// What `time::OffsetDateTime::parse` with the default ISO 8601 format gives
/// for a text: the instant in seconds since the Unix epoch and its UTC
/// offset in seconds; `None` where the text is refused.
pub uninterp spec fn iso8601_instant(s: Seq<char>) -> Option<(i64, i32)>;

/// The message of the error `time::OffsetDateTime::parse` gives for a text
/// under the format description `[year]-[month]-[day] [hour]:[minute]:[second]`.
pub uninterp spec fn plain_datetime_error(s: Seq<char>) -> Seq<char>;

/// Parses an ISO 8601 timestamp with `time::OffsetDateTime::parse` and
/// `Iso8601::DEFAULT`.
///
/// Trusted: the result is the crate's reading of the text, named
/// `iso8601_instant`; nothing more is claimed of it.
#[verifier::external_body]
fn parse_iso8601_instant(s: &str) -> (r: Option<(i64, i32)>)
    ensures
        r == iso8601_instant(s@),
{
    match time::OffsetDateTime::parse(s, &time::format_description::well_known::Iso8601::DEFAULT) {
        Ok(t) => Some((t.unix_timestamp(), t.offset().whole_seconds())),
        Err(_) => None,
    }
}

/// Parses a text with `time::OffsetDateTime::parse` under the format
/// description `[year]-[month]-[day] [hour]:[minute]:[second]` and gives
/// the message of its error.
///
/// Trusted: that description names neither a UTC offset nor a timestamp, and
/// `time` builds an `OffsetDateTime` only with an offset (its
/// `utc_offset_try_from_parsed` with the offset required answers
/// `InsufficientInformation`), so the parse never yields a value and the
/// result is always the error's message, named `plain_datetime_error`.
#[verifier::external_body]
fn plain_datetime_parse_error(s: &str) -> (r: Option<String>)
    ensures
        r is Some,
        match r {
            Some(m) => m@ == plain_datetime_error(s@),
            None => true,
        },
{
    match time::format_description::parse("[year]-[month]-[day] [hour]:[minute]:[second]") {
        Err(e) => Some(e.to_string()),
        Ok(items) => match time::OffsetDateTime::parse(s, &items) {
            Ok(_) => None,
            Err(e) => Some(e.to_string()),
        },
    }
}

/// How many of `len` series entries a request for `limit` bars reads.
pub open spec fn bars_read(len: int, limit: int) -> int {
    if limit < len {
        limit
    } else {
        len
    }
}

/// Whether the first `m` timestamps all name an instant.
pub open spec fn all_instants(stamps: Seq<String>, m: int) -> bool {
    forall|i: int| 0 <= i < m ==> (#[trigger] iso8601_instant(stamps[i]@)) is Some
}

/// The times of Alpha Vantage bars. The series lists its timestamps in
/// `stamps`; the first `limit` of them are read, each as ISO 8601 and else as
/// `YYYY-MM-DD hh:mm:ss` (a form that names no offset, so it never yields a
/// time). The first timestamp that yields none fails the whole series as an
/// internal "invalid timestamp" error carrying the second parse's message.
/// Otherwise the times come back newest last read first: the series is read
/// oldest first and handed out newest first reversed, so entry `j` is the
/// time of timestamp `m - 1 - j`, each as (Unix seconds, offset seconds).
pub fn alphavantage_bar_times(stamps: &Vec<String>, limit: usize) -> (r: Result<
    Vec<(i64, i32)>,
    SourceError,
>)
    ensures
        r is Ok <==> all_instants(stamps@, bars_read(stamps@.len() as int, limit as int)),
        r matches Ok(v) ==> {
            let m = bars_read(stamps@.len() as int, limit as int);
            &&& v@.len() == m
            &&& forall|j: int|
                0 <= j < m ==> Some(#[trigger] v@[j]) == iso8601_instant(stamps@[m - 1 - j]@)
        },
        r matches Err(e) ==> exists|i: int|
            {
                &&& 0 <= i < bars_read(stamps@.len() as int, limit as int)
                &&& all_instants(stamps@, i)
                &&& (#[trigger] iso8601_instant(stamps@[i]@)) is None
                &&& e.kind == SourceErrorKind::Internal
                &&& e.message@ == "invalid timestamp: "@ + plain_datetime_error(stamps@[i]@)
            },
{
    let m = if limit < stamps.len() {
        limit
    } else {
        stamps.len()
    };
    let mut times: Vec<(i64, i32)> = Vec::new();
    let mut i: usize = 0;
    while i < m
        invariant
            m == bars_read(stamps@.len() as int, limit as int),
            m <= stamps@.len(),
            i <= m,
            times@.len() == i,
            all_instants(stamps@, i as int),
            forall|k: int| 0 <= k < i ==> Some(#[trigger] times@[k]) == iso8601_instant(stamps@[k]@),
        decreases m - i,
    {
        match parse_iso8601_instant(stamps[i].as_str()) {
            Some(t) => {
                times.push(t);
            },
            None => {
                let detail = plain_datetime_parse_error(stamps[i].as_str());
                let mut msg = String::from_str("invalid timestamp: ");
                proof {
                    reveal_strlit("invalid timestamp: ");
                }
                match detail {
                    Some(d) => msg.append(d.as_str()),
                    None => {},
                }
                let e = SourceError::internal(msg.as_str());
                assert(iso8601_instant(stamps@[i as int]@) is None);
                return Err(e);
            },
        }
        i = i + 1;
    }
    let mut out: Vec<(i64, i32)> = Vec::new();
    let mut j: usize = 0;
    while j < m
        invariant
            m == times@.len(),
            j <= m,
            out@.len() == j,
            forall|k: int| 0 <= k < j ==> #[trigger] out@[k] == times@[m - 1 - k],
        decreases m - j,
    {
        out.push(times[m - 1 - j]);
        j = j + 1;
    }
    assert forall|k: int| 0 <= k < m implies Some(#[trigger] out@[k]) == iso8601_instant(
        stamps@[m - 1 - k]@,
    ) by {
        assert(out@[k] == times@[m - 1 - k]);
    }
    Ok(out)
}

} // verus!

verus! {

/// Search hits are classed by each provider's own vocabulary: every row made
/// from a Polygon hit whose market is `stocks`, `crypto` or `fx` is an
/// equity, crypto or forex instrument (any other market, or none, is
/// other); an Alpha Vantage match type of `Equity`/`Common Stock`, `ETF`/
/// `Exchange Traded Fund`, `Fund`, `Index`, `Crypto`, `Currency`/`Forex`
/// gives equity, ETF, fund, index, crypto and forex; a Yahoo quote type of
/// `EQUITY`, `ETF`, `INDEX` gives equity, ETF and index, and `FUTURE`/
/// `OPTION` gives other.
pub proof fn law_search_asset_classes(h: SearchHit, r: InstrumentRow)
    ensures
        row_of(ProviderId::Polygon, h, r) ==> {
            &&& opt_text(h.kind) == Some("stocks"@) ==> r.asset_class == AssetClass::Equity
            &&& opt_text(h.kind) == Some("crypto"@) ==> r.asset_class == AssetClass::Crypto
            &&& opt_text(h.kind) == Some("fx"@) ==> r.asset_class == AssetClass::Forex
            &&& h.kind is None ==> r.asset_class == AssetClass::Other
        },
        row_of(ProviderId::Alphavantage, h, r) ==> {
            &&& (opt_text(h.kind) == Some("Equity"@) || opt_text(h.kind) == Some("Common Stock"@))
                ==> r.asset_class == AssetClass::Equity
            &&& (opt_text(h.kind) == Some("ETF"@) || opt_text(h.kind) == Some(
                "Exchange Traded Fund"@,
            )) ==> r.asset_class == AssetClass::Etf
            &&& opt_text(h.kind) == Some("Fund"@) ==> r.asset_class == AssetClass::Fund
            &&& opt_text(h.kind) == Some("Index"@) ==> r.asset_class == AssetClass::Index
            &&& opt_text(h.kind) == Some("Crypto"@) ==> r.asset_class == AssetClass::Crypto
            &&& (opt_text(h.kind) == Some("Currency"@) || opt_text(h.kind) == Some("Forex"@))
                ==> r.asset_class == AssetClass::Forex
        },
        row_of(ProviderId::Yahoo, h, r) ==> {
            &&& opt_text(h.kind) == Some("EQUITY"@) ==> r.asset_class == AssetClass::Equity
            &&& opt_text(h.kind) == Some("ETF"@) ==> r.asset_class == AssetClass::Etf
            &&& opt_text(h.kind) == Some("INDEX"@) ==> r.asset_class == AssetClass::Index
            &&& (opt_text(h.kind) == Some("FUTURE"@) || opt_text(h.kind) == Some("OPTION"@))
                ==> r.asset_class == AssetClass::Other
        },
        row_of(ProviderId::Alpaca, h, r) ==> r.asset_class == AssetClass::Other,
{
    reveal_strlit("stocks");
    reveal_strlit("crypto");
    reveal_strlit("fx");
    reveal_strlit("Equity");
    reveal_strlit("Common Stock");
    reveal_strlit("ETF");
    reveal_strlit("Exchange Traded Fund");
    reveal_strlit("Fund");
    reveal_strlit("Index");
    reveal_strlit("Crypto");
    reveal_strlit("Currency");
    reveal_strlit("Forex");
    reveal_strlit("EQUITY");
    reveal_strlit("INDEX");
    reveal_strlit("FUTURE");
    reveal_strlit("OPTION");
    assert("crypto"@ != "stocks"@) by {
        assert("crypto"@[0] != "stocks"@[0]);
    }
    assert("fx"@ != "stocks"@) by {
        assert("fx"@.len() != "stocks"@.len());
    }
    assert("fx"@ != "crypto"@) by {
        assert("fx"@.len() != "crypto"@.len());
    }
    assert("Common Stock"@ != "Equity"@) by {
        assert("Common Stock"@.len() != "Equity"@.len());
    }
    assert("ETF"@ != "Equity"@) by {
        assert("ETF"@.len() != "Equity"@.len());
    }
    assert("ETF"@ != "Common Stock"@) by {
        assert("ETF"@.len() != "Common Stock"@.len());
    }
    assert("Exchange Traded Fund"@ != "Equity"@) by {
        assert("Exchange Traded Fund"@.len() != "Equity"@.len());
    }
    assert("Exchange Traded Fund"@ != "Common Stock"@) by {
        assert("Exchange Traded Fund"@.len() != "Common Stock"@.len());
    }
    assert("Exchange Traded Fund"@ != "ETF"@) by {
        assert("Exchange Traded Fund"@.len() != "ETF"@.len());
    }
    assert("Fund"@ != "Equity"@) by {
        assert("Fund"@.len() != "Equity"@.len());
    }
    assert("Fund"@ != "Common Stock"@) by {
        assert("Fund"@.len() != "Common Stock"@.len());
    }
    assert("Fund"@ != "ETF"@) by {
        assert("Fund"@.len() != "ETF"@.len());
    }
    assert("Fund"@ != "Exchange Traded Fund"@) by {
        assert("Fund"@.len() != "Exchange Traded Fund"@.len());
    }
    assert("Index"@ != "Equity"@) by {
        assert("Index"@.len() != "Equity"@.len());
    }
    assert("Index"@ != "Common Stock"@) by {
        assert("Index"@.len() != "Common Stock"@.len());
    }
    assert("Index"@ != "ETF"@) by {
        assert("Index"@.len() != "ETF"@.len());
    }
    assert("Index"@ != "Exchange Traded Fund"@) by {
        assert("Index"@.len() != "Exchange Traded Fund"@.len());
    }
    assert("Index"@ != "Fund"@) by {
        assert("Index"@.len() != "Fund"@.len());
    }
    assert("Crypto"@ != "Equity"@) by {
        assert("Crypto"@[0] != "Equity"@[0]);
    }
    assert("Crypto"@ != "Common Stock"@) by {
        assert("Crypto"@.len() != "Common Stock"@.len());
    }
    assert("Crypto"@ != "ETF"@) by {
        assert("Crypto"@.len() != "ETF"@.len());
    }
    assert("Crypto"@ != "Exchange Traded Fund"@) by {
        assert("Crypto"@.len() != "Exchange Traded Fund"@.len());
    }
    assert("Crypto"@ != "Fund"@) by {
        assert("Crypto"@.len() != "Fund"@.len());
    }
    assert("Crypto"@ != "Index"@) by {
        assert("Crypto"@.len() != "Index"@.len());
    }
    assert("Currency"@ != "Equity"@) by {
        assert("Currency"@.len() != "Equity"@.len());
    }
    assert("Currency"@ != "Common Stock"@) by {
        assert("Currency"@.len() != "Common Stock"@.len());
    }
    assert("Currency"@ != "ETF"@) by {
        assert("Currency"@.len() != "ETF"@.len());
    }
    assert("Currency"@ != "Exchange Traded Fund"@) by {
        assert("Currency"@.len() != "Exchange Traded Fund"@.len());
    }
    assert("Currency"@ != "Fund"@) by {
        assert("Currency"@.len() != "Fund"@.len());
    }
    assert("Currency"@ != "Index"@) by {
        assert("Currency"@.len() != "Index"@.len());
    }
    assert("Currency"@ != "Crypto"@) by {
        assert("Currency"@.len() != "Crypto"@.len());
    }
    assert("Forex"@ != "Equity"@) by {
        assert("Forex"@.len() != "Equity"@.len());
    }
    assert("Forex"@ != "Common Stock"@) by {
        assert("Forex"@.len() != "Common Stock"@.len());
    }
    assert("Forex"@ != "ETF"@) by {
        assert("Forex"@.len() != "ETF"@.len());
    }
    assert("Forex"@ != "Exchange Traded Fund"@) by {
        assert("Forex"@.len() != "Exchange Traded Fund"@.len());
    }
    assert("Forex"@ != "Fund"@) by {
        assert("Forex"@.len() != "Fund"@.len());
    }
    assert("Forex"@ != "Index"@) by {
        assert("Forex"@[0] != "Index"@[0]);
    }
    assert("Forex"@ != "Crypto"@) by {
        assert("Forex"@.len() != "Crypto"@.len());
    }
    assert("Forex"@ != "Currency"@) by {
        assert("Forex"@.len() != "Currency"@.len());
    }
    assert("ETF"@ != "EQUITY"@) by {
        assert("ETF"@.len() != "EQUITY"@.len());
    }
    assert("INDEX"@ != "EQUITY"@) by {
        assert("INDEX"@.len() != "EQUITY"@.len());
    }
    assert("INDEX"@ != "ETF"@) by {
        assert("INDEX"@.len() != "ETF"@.len());
    }
    assert("FUTURE"@ != "EQUITY"@) by {
        assert("FUTURE"@[0] != "EQUITY"@[0]);
    }
    assert("FUTURE"@ != "ETF"@) by {
        assert("FUTURE"@.len() != "ETF"@.len());
    }
    assert("FUTURE"@ != "INDEX"@) by {
        assert("FUTURE"@.len() != "INDEX"@.len());
    }
    assert("OPTION"@ != "EQUITY"@) by {
        assert("OPTION"@[0] != "EQUITY"@[0]);
    }
    assert("OPTION"@ != "ETF"@) by {
        assert("OPTION"@.len() != "ETF"@.len());
    }
    assert("OPTION"@ != "INDEX"@) by {
        assert("OPTION"@.len() != "INDEX"@.len());
    }
    assert("OPTION"@ != "FUTURE"@) by {
        assert("OPTION"@[0] != "FUTURE"@[0]);
    }
}

/// A Polygon market of `stocks`, `crypto` or `fx` names an equity, crypto or
/// forex ticker, whatever text carries it; every other market is other.
pub proof fn law_polygon_markets(m: Seq<char>)
    ensures
        m == "stocks"@ ==> polygon_class(Some(m)) == AssetClass::Equity,
        m == "crypto"@ ==> polygon_class(Some(m)) == AssetClass::Crypto,
        m == "fx"@ ==> polygon_class(Some(m)) == AssetClass::Forex,
        m != "stocks"@ && m != "crypto"@ && m != "fx"@ ==> polygon_class(Some(m)) == AssetClass::Other,
        polygon_class(None) == AssetClass::Other,
{
    reveal_strlit("stocks");
    reveal_strlit("crypto");
    reveal_strlit("fx");
    assert("crypto"@ != "stocks"@) by {
        assert("crypto"@[0] != "stocks"@[0]);
    }
    assert("fx"@ != "stocks"@) by {
        assert("fx"@.len() != "stocks"@.len());
    }
    assert("fx"@ != "crypto"@) by {
        assert("fx"@.len() != "crypto"@.len());
    }
}

} // verus!
