//! Asset-class vocabulary, and reading an option's expiry date.
use vstd::prelude::*;

verus! {

/// Crypto exchanges a pair can trade on.
#[derive(Debug, Clone, Copy, PartialEq, Eq, Structural)]
pub enum CryptoExchange {
    Binance,
    Coinbase,
    Kraken,
    FTX,
}

/// The right an option contract grants.
#[derive(Debug, Clone, Copy, PartialEq, Eq, Structural)]
pub enum OptionType {
    Call,
    Put,
}

/// The trading symbol of a crypto pair, `BASE/QUOTE`.
pub fn pair_symbol(base: &str, quote: &str) -> (s: String)
    ensures
        s@ == base@ + "/"@ + quote@,
{
    let mut s = base.to_string();
    s.append("/");
    s.append(quote);
    proof {
        reveal_strlit("/");
    }
    s
}

/// What `time::OffsetDateTime::parse` with the RFC 3339 format gives for a
/// text, as seconds since the Unix epoch; `None` where it refuses the text.
pub uninterp spec fn rfc3339_unix_seconds(s: Seq<char>) -> Option<i64>;

/// What `time::Date::parse` with the format description `format` gives for
/// a text, taken at midnight UTC, as seconds since the Unix epoch; `None`
/// where the format or the text is refused.
pub uninterp spec fn date_unix_seconds(s: Seq<char>, format: Seq<char>) -> Option<i64>;

/// Parses an RFC 3339 timestamp with `time::OffsetDateTime::parse`.
///
/// Trusted: the result is the crate's reading of the text, named
/// `rfc3339_unix_seconds`; nothing more is claimed of it.
#[verifier::external_body]
fn parse_rfc3339(s: &str) -> (r: Option<i64>)
    ensures
        r == rfc3339_unix_seconds(s@),
{
    match time::OffsetDateTime::parse(s, &time::format_description::well_known::Rfc3339) {
        Ok(t) => Some(t.unix_timestamp()),
        Err(_) => None,
    }
}

/// Parses a calendar date with `time::Date::parse` under the format
/// description `format` (itself parsed by `time::format_description::parse`),
/// and takes its midnight in UTC.
///
/// Trusted: the result is the crate's reading of the text, named
/// `date_unix_seconds`; nothing more is claimed of it.
#[verifier::external_body]
fn parse_date_midnight(s: &str, format: &str) -> (r: Option<i64>)
    ensures
        r == date_unix_seconds(s@, format@),
{
    let items = match time::format_description::parse(format) {
        Ok(items) => items,
        Err(_) => return None,
    };
    match time::Date::parse(s, &items) {
        Ok(d) => Some(d.midnight().assume_utc().unix_timestamp()),
        Err(_) => None,
    }
}

/// The expiry an option names: an RFC 3339 timestamp, or else a
/// `YYYY-MM-DD` date at midnight UTC.
pub open spec fn expiry_seconds(s: Seq<char>) -> Option<i64> {
    match rfc3339_unix_seconds(s) {
        Some(t) => Some(t),
        None => date_unix_seconds(s, "[year]-[month]-[day]"@),
    }
}

/// Reads an option's expiry as seconds since the Unix epoch: first as an
/// RFC 3339 timestamp, then as a `YYYY-MM-DD` date at midnight UTC.
pub fn parse_expiry(expiry: &str) -> (r: Option<i64>)
    ensures
        r == expiry_seconds(expiry@),
{
    match parse_rfc3339(expiry) {
        Some(t) => Some(t),
        None => parse_date_midnight(expiry, "[year]-[month]-[day]"),
    }
}

} // verus!
