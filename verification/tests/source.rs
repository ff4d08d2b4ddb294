use ferrotick::requests::{check_fundamentals, check_quote, check_search, FundamentalsRequest, QuoteRequest, SearchRequest};
use ferrotick::source::{EnvelopeError, Endpoint, ProviderId, SourceError, SourceErrorKind};

#[test]
fn error_kinds_codes_and_retryability() {
    let cases = [
        (SourceError::invalid_request("x"), "source.invalid_request", false),
        (SourceError::unavailable("x"), "source.unavailable", true),
        (SourceError::rate_limited("x"), "source.rate_limited", true),
        (SourceError::internal("x"), "source.internal", false),
        (SourceError::unsupported_endpoint(Endpoint::Search), "source.unsupported_endpoint", false),
    ];
    for (e, code, retryable) in cases {
        assert_eq!(e.code(), code);
        assert_eq!(e.retryable(), retryable);
    }
    let e = SourceError::unsupported_endpoint(Endpoint::Fundamentals);
    assert_eq!(e.kind(), SourceErrorKind::UnsupportedEndpoint);
    assert_eq!(e.message, "endpoint 'fundamentals' is not supported by this source");
}

#[test]
fn envelope_error_names_its_source() {
    let e = EnvelopeError::from_source(ProviderId::Yahoo, &SourceError::rate_limited("slow down"));
    assert_eq!(e.code, "source.rate_limited");
    assert_eq!(e.message, "slow down");
    assert_eq!(e.source, Some(ProviderId::Yahoo));
    assert!(e.retryable);
}

#[test]
fn request_checks_refuse_with_messages() {
    let empty = QuoteRequest { symbols: vec![] };
    let e = check_quote(ProviderId::Alpaca, &empty).unwrap_err();
    assert_eq!(e.kind, SourceErrorKind::InvalidRequest);
    assert_eq!(e.message, "alpaca quote request requires at least one symbol");
    let f = FundamentalsRequest { symbols: vec!["A".to_string()] };
    let e = check_fundamentals(ProviderId::Alpaca, &f).unwrap_err();
    assert_eq!(e.kind, SourceErrorKind::UnsupportedEndpoint);
    let three = FundamentalsRequest { symbols: vec!["A".into(), "B".into(), "C".into()] };
    let e = check_fundamentals(ProviderId::Polygon, &three).unwrap_err();
    assert_eq!(e.message, "polygon ticker metadata batch limit exceeded (max 2 symbols)");
    let blank = SearchRequest { query: "  ".to_string(), limit: 3 };
    let e = check_search(ProviderId::Yahoo, &blank).unwrap_err();
    assert_eq!(e.message, "yahoo search query must not be empty");
    assert!(check_search(ProviderId::Yahoo, &SearchRequest { query: "x".into(), limit: 1 }).is_ok());
}
