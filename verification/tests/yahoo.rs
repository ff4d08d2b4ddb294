use ferrotick::requests::{BarsRequest, FinancialPeriod, FinancialsRequest, Interval, QuoteRequest, SearchRequest, StatementType};
use ferrotick::yahoo::{
    check_api_error, missing_result, uses_annual_history,
    judge_crumb_response, judge_first_status, judge_retried_status, resign_endpoint,
    transport_failure, CrumbVerdict, StatusVerdict, YahooAdapter, YahooAuthManager,
};

#[test]
fn auth_manager_caches_crumb_for_its_lifetime() {
    let mut m = YahooAuthManager::new();
    assert!(!m.is_auth_valid(0));
    assert_eq!(m.cached_crumb(0), None);
    m.store_auth("session", "abc", 1_000);
    assert_eq!(m.crumb().as_deref(), Some("abc"));
    assert!(m.is_auth_valid(1_000));
    assert_eq!(m.cached_crumb(1_000).as_deref(), Some("abc"));
    assert_eq!(m.cached_crumb(3_600_999).as_deref(), Some("abc"));
    assert_eq!(m.cached_crumb(3_601_000), None);
    m.invalidate();
    assert_eq!(m.crumb(), None);
    assert_eq!(m.cached_crumb(1_000), None);
}

#[test]
fn crumb_responses_are_judged() {
    assert!(matches!(judge_crumb_response(false, "abc"), CrumbVerdict::TryNext));
    assert!(matches!(judge_crumb_response(true, ""), CrumbVerdict::TryNext));
    assert!(matches!(judge_crumb_response(true, "<html>x</html>"), CrumbVerdict::TryNext));
    assert!(matches!(judge_crumb_response(true, "Too Many Requests"), CrumbVerdict::RateLimited));
    match judge_crumb_response(true, "  abc123 \n") {
        CrumbVerdict::Accept(c) => assert_eq!(c, "abc123"),
        _ => panic!("crumb expected"),
    }
    assert!(matches!(judge_crumb_response(true, "has space"), CrumbVerdict::TryNext));
}

#[test]
fn endpoints_are_resigned_with_new_crumb() {
    assert_eq!(
        resign_endpoint("https://q.test/x?symbols=A&crumb=old", "n/w"),
        "https://q.test/x?symbols=A&crumb=n%2Fw"
    );
    assert_eq!(resign_endpoint("https://q.test/x?symbols=A", "c"), "https://q.test/x?symbols=A&crumb=c");
}

#[test]
fn yahoo_urls_and_keys() {
    let q = QuoteRequest { symbols: vec!["AAPL".to_string(), "MSFT".to_string()] };
    assert_eq!(
        YahooAdapter::<()>::quote_url(&q, "c r"),
        "https://query1.finance.yahoo.com/v7/finance/quote?symbols=AAPL%2CMSFT&fields=regularMarketPrice,regularMarketBid,regularMarketAsk,regularMarketVolume,currency&crumb=c%20r"
    );
    let b = BarsRequest { symbol: "AAPL".to_string(), interval: Interval::OneDay, limit: 500 };
    assert_eq!(
        YahooAdapter::<()>::chart_url(&b, "c"),
        "https://query1.finance.yahoo.com/v8/finance/chart/AAPL?range=1mo&interval=1d&crumb=c"
    );
    let s = SearchRequest { query: "apple".to_string(), limit: 3 };
    assert_eq!(
        YahooAdapter::<()>::search_url(&s, "c"),
        "https://query2.finance.yahoo.com/v1/finance/search?q=apple&quotesCount=3&crumb=c"
    );
    let f = FinancialsRequest {
        symbol: "AAPL".to_string(),
        statement_type: StatementType::Balance,
        period: FinancialPeriod::Annual,
        limit: 4,
    };
    assert_eq!(
        YahooAdapter::<()>::financials_url(&f, "c"),
        "https://query1.finance.yahoo.com/v10/finance/quoteSummary/AAPL?modules=balanceSheetHistory,balanceSheetHistoryQuarterly&crumb=c"
    );
    assert_eq!(YahooAdapter::<()>::quote_cache_key("AAPL"), "quote:AAPL");
    assert_eq!(YahooAdapter::<()>::bars_cache_key("AAPL", Interval::FiveMinutes, 30), "bars:AAPL:5m:30");
    assert_eq!(YahooAdapter::<()>::chart_range(100), "1d");
    assert_eq!(YahooAdapter::<()>::chart_range(1001), "1y");
    let r = YahooAdapter::<()>::get_request("https://q.test/");
    assert_eq!(r.header("referer").as_deref(), Some("https://finance.yahoo.com/"));
    assert_eq!(r.timeout_ms, 10_000);
}

#[test]
fn data_statuses_are_judged() {
    assert!(matches!(judge_first_status(200), StatusVerdict::Accept));
    assert!(matches!(judge_first_status(401), StatusVerdict::RefreshAndRetry));
    assert!(matches!(judge_first_status(429), StatusVerdict::RefreshAndRetry));
    match judge_first_status(503) {
        StatusVerdict::Refuse(e) => assert_eq!(e.message, "yahoo returned status 503"),
        _ => panic!("refusal expected"),
    }
    match judge_retried_status(401, true) {
        StatusVerdict::Refuse(e) => assert_eq!(e.message, "yahoo returned status 401 after auth refresh"),
        _ => panic!("refusal expected"),
    }
    match judge_retried_status(404, false) {
        StatusVerdict::Refuse(e) => assert_eq!(e.message, "yahoo returned status 404"),
        _ => panic!("refusal expected"),
    }
    assert!(matches!(judge_retried_status(204, true), StatusVerdict::Accept));
    assert_eq!(transport_failure("boom", true).message, "yahoo transport error on retry: boom");
}

#[test]
fn yahoo_response_checks() {
    assert!(check_api_error("yahoo chart", None).is_ok());
    assert!(check_api_error("yahoo chart", Some("")).is_ok());
    assert_eq!(
        check_api_error("yahoo chart", Some("Not Found")).unwrap_err().message,
        "yahoo chart API error: Not Found"
    );
    let e = missing_result("financials");
    assert_eq!(e.message, "no result in financials response");
    assert!(uses_annual_history(FinancialPeriod::Annual));
    assert!(!uses_annual_history(FinancialPeriod::Quarterly));
}
