//! Data requests and the checks each provider applies before it calls out.
use vstd::prelude::*;
use vstd::string::*;
use crate::source::{
    endpoint_name, provider_name, Endpoint, ProviderId, SourceError, SourceErrorKind,
};
use crate::text::{trim, trim_str};

verus! {

/// Bar interval.
#[derive(Debug, Clone, Copy, PartialEq, Eq, Structural)]
pub enum Interval {
    OneMinute,
    FiveMinutes,
    FifteenMinutes,
    OneHour,
    OneDay,
}

/// Kind of financial statement.
#[derive(Debug, Clone, Copy, PartialEq, Eq, Structural)]
pub enum StatementType {
    Income,
    Balance,
    CashFlow,
}

/// Reporting period of financial statements.
#[derive(Debug, Clone, Copy, PartialEq, Eq, Structural)]
pub enum FinancialPeriod {
    Annual,
    Quarterly,
}

/// Latest quotes for a list of symbols.
#[derive(Debug, Clone)]
pub struct QuoteRequest {
    pub symbols: Vec<String>,
}

/// Recent bars of one symbol.
#[derive(Debug, Clone)]
pub struct BarsRequest {
    pub symbol: String,
    pub interval: Interval,
    pub limit: usize,
}

/// Fundamentals for a list of symbols.
#[derive(Debug, Clone)]
pub struct FundamentalsRequest {
    pub symbols: Vec<String>,
}

/// Instrument search.
#[derive(Debug, Clone)]
pub struct SearchRequest {
    pub query: String,
    pub limit: usize,
}

/// Financial statements of one symbol.
#[derive(Debug, Clone)]
pub struct FinancialsRequest {
    pub symbol: String,
    pub statement_type: StatementType,
    pub period: FinancialPeriod,
    pub limit: usize,
}

/// Earnings reports of one symbol.
#[derive(Debug, Clone)]
pub struct EarningsRequest {
    pub symbol: String,
    pub limit: usize,
}

/// A refusal: the error kind and message a provider answers with.
pub type Refusal = (SourceErrorKind, Seq<char>);

/// The refusal for an endpoint a provider does not implement.
pub open spec fn unsupported(endpoint: Endpoint) -> Option<Refusal> {
    Some(
        (
            SourceErrorKind::UnsupportedEndpoint,
            "endpoint '"@ + endpoint_name(endpoint) + "' is not supported by this source"@,
        ),
    )
}

/// Whether `r` is the outcome that `refusal` describes.
pub open spec fn outcome_is(r: Result<(), SourceError>, refusal: Option<Refusal>) -> bool {
    match refusal {
        None => r is Ok,
        Some((kind, message)) => r matches Err(e) && e.kind == kind && e.message@ == message,
    }
}

/// How `p` answers a quote request for `n` symbols before any call: every
/// provider needs a symbol; Polygon takes at most three.
pub open spec fn quote_refusal(p: ProviderId, n: nat) -> Option<Refusal> {
    if n == 0 {
        Some(
            (
                SourceErrorKind::InvalidRequest,
                provider_name(p) + " quote request requires at least one symbol"@,
            ),
        )
    } else if p == ProviderId::Polygon && n > 3 {
        Some((SourceErrorKind::RateLimited, "polygon quote batch limit exceeded (max 3 symbols)"@))
    } else {
        None
    }
}

/// How `p` answers a bars request before any call: the limit must be
/// positive; Polygon serves at most 120 minute bars.
pub open spec fn bars_refusal(p: ProviderId, interval: Interval, limit: nat) -> Option<Refusal> {
    if limit == 0 {
        Some(
            (
                SourceErrorKind::InvalidRequest,
                provider_name(p) + " bars request limit must be greater than zero"@,
            ),
        )
    } else if p == ProviderId::Polygon && interval == Interval::OneMinute && limit > 120 {
        Some(
            (SourceErrorKind::RateLimited, "polygon free-tier minute bars limit exceeded (max 120)"@),
        )
    } else {
        None
    }
}

/// How `p` answers a fundamentals request for `n` symbols before any call:
/// Alpaca has no fundamentals; the others need a symbol; Polygon takes at
/// most two.
pub open spec fn fundamentals_refusal(p: ProviderId, n: nat) -> Option<Refusal> {
    if p == ProviderId::Alpaca {
        unsupported(Endpoint::Fundamentals)
    } else if n == 0 {
        Some(
            (
                SourceErrorKind::InvalidRequest,
                provider_name(p) + " fundamentals request requires at least one symbol"@,
            ),
        )
    } else if p == ProviderId::Polygon && n > 2 {
        Some(
            (
                SourceErrorKind::RateLimited,
                "polygon ticker metadata batch limit exceeded (max 2 symbols)"@,
            ),
        )
    } else {
        None
    }
}

/// How `p` answers a search before any call: Alpaca has no search; the
/// others need a query that is not blank and a positive limit.
pub open spec fn search_refusal(p: ProviderId, query: Seq<char>, limit: nat) -> Option<Refusal> {
    if p == ProviderId::Alpaca {
        unsupported(Endpoint::Search)
    } else if trim(query).len() == 0 {
        Some(
            (
                SourceErrorKind::InvalidRequest,
                provider_name(p) + " search query must not be empty"@,
            ),
        )
    } else if limit == 0 {
        Some(
            (
                SourceErrorKind::InvalidRequest,
                provider_name(p) + " search limit must be greater than zero"@,
            ),
        )
    } else {
        None
    }
}

/// How `p` answers a financials request before any call: only Yahoo serves
/// them, with a positive limit.
pub open spec fn financials_refusal(p: ProviderId, limit: nat) -> Option<Refusal> {
    if p != ProviderId::Yahoo {
        unsupported(Endpoint::Financials)
    } else if limit == 0 {
        Some((SourceErrorKind::InvalidRequest, "yahoo financials limit must be greater than zero"@))
    } else {
        None
    }
}

/// How `p` answers an earnings request before any call: only Yahoo serves
/// them, with a positive limit.
pub open spec fn earnings_refusal(p: ProviderId, limit: nat) -> Option<Refusal> {
    if p != ProviderId::Yahoo {
        unsupported(Endpoint::Earnings)
    } else if limit == 0 {
        Some((SourceErrorKind::InvalidRequest, "yahoo earnings limit must be greater than zero"@))
    } else {
        None
    }
}

fn refuse(kind: SourceErrorKind, p: ProviderId, tail: &str) -> (e: SourceError)
    ensures
        e.kind == kind,
        e.message@ == provider_name(p) + tail@,
{
    let mut m = String::from_str(p.as_str());
    m.append(tail);
    SourceError { kind, message: m }
}

/// Checks a quote request as provider `p` does before calling out.
pub fn check_quote(p: ProviderId, req: &QuoteRequest) -> (r: Result<(), SourceError>)
    ensures
        outcome_is(r, quote_refusal(p, req.symbols@.len())),
{
    let n = req.symbols.len();
    if n == 0 {
        Err(refuse(SourceErrorKind::InvalidRequest, p, " quote request requires at least one symbol"))
    } else if p == ProviderId::Polygon && n > 3 {
        Err(SourceError::rate_limited("polygon quote batch limit exceeded (max 3 symbols)"))
    } else {
        Ok(())
    }
}

/// Checks a bars request as provider `p` does before calling out.
pub fn check_bars(p: ProviderId, req: &BarsRequest) -> (r: Result<(), SourceError>)
    ensures
        outcome_is(r, bars_refusal(p, req.interval, req.limit as nat)),
{
    if req.limit == 0 {
        Err(refuse(SourceErrorKind::InvalidRequest, p, " bars request limit must be greater than zero"))
    } else if p == ProviderId::Polygon && req.interval == Interval::OneMinute && req.limit > 120 {
        Err(SourceError::rate_limited("polygon free-tier minute bars limit exceeded (max 120)"))
    } else {
        Ok(())
    }
}

/// Checks a fundamentals request as provider `p` does before calling out.
pub fn check_fundamentals(p: ProviderId, req: &FundamentalsRequest) -> (r: Result<(), SourceError>)
    ensures
        outcome_is(r, fundamentals_refusal(p, req.symbols@.len())),
{
    let n = req.symbols.len();
    if p == ProviderId::Alpaca {
        Err(SourceError::unsupported_endpoint(Endpoint::Fundamentals))
    } else if n == 0 {
        Err(refuse(SourceErrorKind::InvalidRequest, p, " fundamentals request requires at least one symbol"))
    } else if p == ProviderId::Polygon && n > 2 {
        Err(SourceError::rate_limited("polygon ticker metadata batch limit exceeded (max 2 symbols)"))
    } else {
        Ok(())
    }
}

/// Checks a search request as provider `p` does before calling out.
pub fn check_search(p: ProviderId, req: &SearchRequest) -> (r: Result<(), SourceError>)
    ensures
        outcome_is(r, search_refusal(p, req.query@, req.limit as nat)),
{
    if p == ProviderId::Alpaca {
        return Err(SourceError::unsupported_endpoint(Endpoint::Search));
    }
    let q = trim_str(req.query.as_str());
    if q.unicode_len() == 0 {
        Err(refuse(SourceErrorKind::InvalidRequest, p, " search query must not be empty"))
    } else if req.limit == 0 {
        Err(refuse(SourceErrorKind::InvalidRequest, p, " search limit must be greater than zero"))
    } else {
        Ok(())
    }
}

/// Checks a financials request as provider `p` does before calling out.
pub fn check_financials(p: ProviderId, req: &FinancialsRequest) -> (r: Result<(), SourceError>)
    ensures
        outcome_is(r, financials_refusal(p, req.limit as nat)),
{
    if p != ProviderId::Yahoo {
        Err(SourceError::unsupported_endpoint(Endpoint::Financials))
    } else if req.limit == 0 {
        Err(SourceError::invalid_request("yahoo financials limit must be greater than zero"))
    } else {
        Ok(())
    }
}

/// Checks an earnings request as provider `p` does before calling out.
pub fn check_earnings(p: ProviderId, req: &EarningsRequest) -> (r: Result<(), SourceError>)
    ensures
        outcome_is(r, earnings_refusal(p, req.limit as nat)),
{
    if p != ProviderId::Yahoo {
        Err(SourceError::unsupported_endpoint(Endpoint::Earnings))
    } else if req.limit == 0 {
        Err(SourceError::invalid_request("yahoo earnings limit must be greater than zero"))
    } else {
        Ok(())
    }
}

} // verus!

verus! {

/// The short name of an interval.
pub open spec fn interval_name(i: Interval) -> Seq<char> {
    match i {
        Interval::OneMinute => "1m"@,
        Interval::FiveMinutes => "5m"@,
        Interval::FifteenMinutes => "15m"@,
        Interval::OneHour => "1h"@,
        Interval::OneDay => "1d"@,
    }
}

impl Interval {
    /// The short name of the interval.
    pub fn as_str(&self) -> (s: &'static str)
        ensures
            s@ == interval_name(*self),
    {
        match self {
            Interval::OneMinute => "1m",
            Interval::FiveMinutes => "5m",
            Interval::FifteenMinutes => "15m",
            Interval::OneHour => "1h",
            Interval::OneDay => "1d",
        }
    }
}

} // verus!
