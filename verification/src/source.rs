//! Provider identifiers, endpoints, capability sets, health reports and the
//! structured errors that sources and the router exchange.
use vstd::prelude::*;
use vstd::string::*;

verus! {

/// A market-data provider.
#[derive(Debug, Clone, Copy, PartialEq, Eq, Structural, Hash)]
pub enum ProviderId {
    Polygon,
    Alpaca,
    Alphavantage,
    Yahoo,
}

/// The provider's name as it appears in messages and orderings.
pub open spec fn provider_name(p: ProviderId) -> Seq<char> {
    match p {
        ProviderId::Polygon => "polygon"@,
        ProviderId::Alpaca => "alpaca"@,
        ProviderId::Alphavantage => "alphavantage"@,
        ProviderId::Yahoo => "yahoo"@,
    }
}

/// Position of the provider when providers are ordered by name.
pub open spec fn name_rank(p: ProviderId) -> int {
    match p {
        ProviderId::Alpaca => 0,
        ProviderId::Alphavantage => 1,
        ProviderId::Polygon => 2,
        ProviderId::Yahoo => 3,
    }
}

/// Strict lexicographic order on character sequences.
pub open spec fn lex_lt(a: Seq<char>, b: Seq<char>) -> bool
    decreases a.len(),
{
    if a.len() == 0 {
        b.len() > 0
    } else if b.len() == 0 {
        false
    } else if a[0] != b[0] {
        (a[0] as u32) < (b[0] as u32)
    } else {
        lex_lt(a.drop_first(), b.drop_first())
    }
}

/// Ordering providers by `name_rank` is ordering them by name.
pub proof fn lemma_name_rank_is_name_order(p: ProviderId, q: ProviderId)
    ensures
        name_rank(p) < name_rank(q) <==> lex_lt(provider_name(p), provider_name(q)),
        name_rank(p) == name_rank(q) <==> p == q,
{
    reveal_strlit("polygon");
    reveal_strlit("alpaca");
    reveal_strlit("alphavantage");
    reveal_strlit("yahoo");
    reveal_with_fuel(lex_lt, 5);
    let a = "alpaca"@;
    let b = "alphavantage"@;
    assert(a.drop_first() =~= seq!['l', 'p', 'a', 'c', 'a']);
    assert(b.drop_first() =~= seq!['l', 'p', 'h', 'a', 'v', 'a', 'n', 't', 'a', 'g', 'e']);
    assert(a.drop_first().drop_first() =~= seq!['p', 'a', 'c', 'a']);
    assert(b.drop_first().drop_first() =~= seq!['p', 'h', 'a', 'v', 'a', 'n', 't', 'a', 'g', 'e']);
    assert(a.drop_first().drop_first().drop_first() =~= seq!['a', 'c', 'a']);
    assert(b.drop_first().drop_first().drop_first() =~= seq!['h', 'a', 'v', 'a', 'n', 't', 'a', 'g', 'e']);
    assert(lex_lt(a, b));
    assert(!lex_lt(b, a));
    assert(!lex_lt(a, a)) by { lemma_lex_lt_irreflexive(a); }
    assert(!lex_lt(b, b)) by { lemma_lex_lt_irreflexive(b); }
    assert(!lex_lt("polygon"@, "polygon"@)) by { lemma_lex_lt_irreflexive("polygon"@); }
    assert(!lex_lt("yahoo"@, "yahoo"@)) by { lemma_lex_lt_irreflexive("yahoo"@); }
}

/// No sequence precedes itself.
pub proof fn lemma_lex_lt_irreflexive(a: Seq<char>)
    ensures
        !lex_lt(a, a),
    decreases a.len(),
{
    if a.len() > 0 {
        lemma_lex_lt_irreflexive(a.drop_first());
    }
}

impl ProviderId {
    /// The provider's name.
    pub fn as_str(&self) -> (s: &'static str)
        ensures
            s@ == provider_name(*self),
    {
        match self {
            ProviderId::Polygon => "polygon",
            ProviderId::Alpaca => "alpaca",
            ProviderId::Alphavantage => "alphavantage",
            ProviderId::Yahoo => "yahoo",
        }
    }

    /// The provider's position in name order.
    pub fn rank(&self) -> (r: u8)
        ensures
            r as int == name_rank(*self),
    {
        match self {
            ProviderId::Alpaca => 0,
            ProviderId::Alphavantage => 1,
            ProviderId::Polygon => 2,
            ProviderId::Yahoo => 3,
        }
    }
}

/// A kind of data request.
#[derive(Debug, Clone, Copy, PartialEq, Eq, Structural, Hash)]
pub enum Endpoint {
    Quote,
    Bars,
    Fundamentals,
    Search,
    Financials,
    Earnings,
}

/// The endpoint's name as it appears in messages.
pub open spec fn endpoint_name(e: Endpoint) -> Seq<char> {
    match e {
        Endpoint::Quote => "quote"@,
        Endpoint::Bars => "bars"@,
        Endpoint::Fundamentals => "fundamentals"@,
        Endpoint::Search => "search"@,
        Endpoint::Financials => "financials"@,
        Endpoint::Earnings => "earnings"@,
    }
}

impl Endpoint {
    /// The endpoint's name.
    pub fn as_str(&self) -> (s: &'static str)
        ensures
            s@ == endpoint_name(*self),
    {
        match self {
            Endpoint::Quote => "quote",
            Endpoint::Bars => "bars",
            Endpoint::Fundamentals => "fundamentals",
            Endpoint::Search => "search",
            Endpoint::Financials => "financials",
            Endpoint::Earnings => "earnings",
        }
    }
}

/// The endpoints a source serves.
#[derive(Debug, Clone, Copy, PartialEq, Eq, Structural)]
pub struct CapabilitySet {
    pub quote: bool,
    pub bars: bool,
    pub fundamentals: bool,
    pub search: bool,
    pub financials: bool,
    pub earnings: bool,
}

/// Whether a capability set covers an endpoint.
pub open spec fn covers(c: CapabilitySet, e: Endpoint) -> bool {
    match e {
        Endpoint::Quote => c.quote,
        Endpoint::Bars => c.bars,
        Endpoint::Fundamentals => c.fundamentals,
        Endpoint::Search => c.search,
        Endpoint::Financials => c.financials,
        Endpoint::Earnings => c.earnings,
    }
}

impl CapabilitySet {
    /// A capability set from one flag per endpoint, in endpoint order.
    pub fn new(
        quote: bool,
        bars: bool,
        fundamentals: bool,
        search: bool,
        financials: bool,
        earnings: bool,
    ) -> (c: Self)
        ensures
            c == (CapabilitySet { quote, bars, fundamentals, search, financials, earnings }),
    {
        CapabilitySet { quote, bars, fundamentals, search, financials, earnings }
    }

    /// Every endpoint.
    pub fn full() -> (c: Self)
        ensures
            c == (CapabilitySet {
                quote: true,
                bars: true,
                fundamentals: true,
                search: true,
                financials: true,
                earnings: true,
            }),
            forall|e: Endpoint| covers(c, e),
    {
        CapabilitySet {
            quote: true,
            bars: true,
            fundamentals: true,
            search: true,
            financials: true,
            earnings: true,
        }
    }

    /// Whether the set covers `endpoint`.
    pub fn supports(&self, endpoint: Endpoint) -> (r: bool)
        ensures
            r == covers(*self, endpoint),
    {
        match endpoint {
            Endpoint::Quote => self.quote,
            Endpoint::Bars => self.bars,
            Endpoint::Fundamentals => self.fundamentals,
            Endpoint::Search => self.search,
            Endpoint::Financials => self.financials,
            Endpoint::Earnings => self.earnings,
        }
    }
}

/// Coarse health of a source.
#[derive(Debug, Clone, Copy, PartialEq, Eq, Structural)]
pub enum HealthState {
    Healthy,
    Degraded,
    Unhealthy,
}

/// A source's health report: its state, whether it has rate budget left, and
/// its preference score.
#[derive(Debug, Clone, Copy, PartialEq, Eq, Structural)]
pub struct HealthStatus {
    pub state: HealthState,
    pub rate_available: bool,
    pub score: u16,
}

impl HealthStatus {
    pub fn new(state: HealthState, rate_available: bool, score: u16) -> (h: Self)
        ensures
            h == (HealthStatus { state, rate_available, score }),
    {
        HealthStatus { state, rate_available, score }
    }
}

/// State of a circuit breaker guarding a source.
#[derive(Debug, Clone, Copy, PartialEq, Eq, Structural)]
pub enum CircuitState {
    Closed,
    Open,
    HalfOpen,
}

/// Classification of a source failure.
#[derive(Debug, Clone, Copy, PartialEq, Eq, Structural)]
pub enum SourceErrorKind {
    InvalidRequest,
    Unavailable,
    RateLimited,
    UnsupportedEndpoint,
    Internal,
}

/// The error code that goes with a kind.
pub open spec fn kind_code(k: SourceErrorKind) -> Seq<char> {
    match k {
        SourceErrorKind::InvalidRequest => "source.invalid_request"@,
        SourceErrorKind::Unavailable => "source.unavailable"@,
        SourceErrorKind::RateLimited => "source.rate_limited"@,
        SourceErrorKind::UnsupportedEndpoint => "source.unsupported_endpoint"@,
        SourceErrorKind::Internal => "source.internal"@,
    }
}

/// Whether a failure of this kind may succeed when tried again.
pub open spec fn kind_retryable(k: SourceErrorKind) -> bool {
    k == SourceErrorKind::Unavailable || k == SourceErrorKind::RateLimited
}

/// A failure reported by a source.
#[derive(Debug, Clone)]
pub struct SourceError {
    pub kind: SourceErrorKind,
    pub message: String,
}

impl SourceError {
    pub fn new(kind: SourceErrorKind, message: &str) -> (e: Self)
        ensures
            e.kind == kind,
            e.message@ == message@,
    {
        SourceError { kind, message: String::from_str(message) }
    }

    pub fn invalid_request(message: &str) -> (e: Self)
        ensures
            e.kind == SourceErrorKind::InvalidRequest,
            e.message@ == message@,
    {
        Self::new(SourceErrorKind::InvalidRequest, message)
    }

    pub fn unavailable(message: &str) -> (e: Self)
        ensures
            e.kind == SourceErrorKind::Unavailable,
            e.message@ == message@,
    {
        Self::new(SourceErrorKind::Unavailable, message)
    }

    pub fn rate_limited(message: &str) -> (e: Self)
        ensures
            e.kind == SourceErrorKind::RateLimited,
            e.message@ == message@,
    {
        Self::new(SourceErrorKind::RateLimited, message)
    }

    pub fn internal(message: &str) -> (e: Self)
        ensures
            e.kind == SourceErrorKind::Internal,
            e.message@ == message@,
    {
        Self::new(SourceErrorKind::Internal, message)
    }

    /// The error for an endpoint that a source does not serve.
    pub fn unsupported_endpoint(endpoint: Endpoint) -> (e: Self)
        ensures
            e.kind == SourceErrorKind::UnsupportedEndpoint,
            e.message@ == "endpoint '"@ + endpoint_name(endpoint) + "' is not supported by this source"@,
    {
        let mut m = String::from_str("endpoint '");
        m.append(endpoint.as_str());
        m.append("' is not supported by this source");
        SourceError { kind: SourceErrorKind::UnsupportedEndpoint, message: m }
    }

    /// The error for a provider that no adapter was registered for.
    pub fn adapter_not_registered(provider: ProviderId) -> (e: Self)
        ensures
            e.kind == SourceErrorKind::Unavailable,
            e.message@ == "no adapter is registered for source '"@ + provider_name(provider) + "'"@,
    {
        let mut m = String::from_str("no adapter is registered for source '");
        m.append(provider.as_str());
        m.append("'");
        SourceError { kind: SourceErrorKind::Unavailable, message: m }
    }

    pub fn kind(&self) -> (k: SourceErrorKind)
        ensures
            k == self.kind,
    {
        self.kind
    }

    /// The error's code.
    pub fn code(&self) -> (s: &'static str)
        ensures
            s@ == kind_code(self.kind),
    {
        match self.kind {
            SourceErrorKind::InvalidRequest => "source.invalid_request",
            SourceErrorKind::Unavailable => "source.unavailable",
            SourceErrorKind::RateLimited => "source.rate_limited",
            SourceErrorKind::UnsupportedEndpoint => "source.unsupported_endpoint",
            SourceErrorKind::Internal => "source.internal",
        }
    }

    /// Whether trying again may succeed.
    pub fn retryable(&self) -> (r: bool)
        ensures
            r == kind_retryable(self.kind),
    {
        match self.kind {
            SourceErrorKind::Unavailable | SourceErrorKind::RateLimited => true,
            _ => false,
        }
    }
}

/// A structured error as it is reported to callers, with the source it came
/// from when there is one.
#[derive(Debug, Clone)]
pub struct EnvelopeError {
    pub code: String,
    pub message: String,
    pub source: Option<ProviderId>,
    pub retryable: bool,
}

impl EnvelopeError {
    /// The reported form of a source's failure, tagged with that source.
    pub fn from_source(provider: ProviderId, error: &SourceError) -> (e: Self)
        ensures
            e.code@ == kind_code(error.kind),
            e.message@ == error.message@,
            e.source == Some(provider),
            e.retryable == kind_retryable(error.kind),
    {
        EnvelopeError {
            code: String::from_str(error.code()),
            message: error.message.clone(),
            source: Some(provider),
            retryable: error.retryable(),
        }
    }
}

} // verus!
