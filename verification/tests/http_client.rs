use ferrotick::http_client::{
    decode_or_raw, extract_between, parse_symbols, query_param, mock_route, HttpAuth, HttpError, HttpMethod,
    HttpRequest, HttpResponse, MockRoute,
};

#[test]
fn bearer_auth_populates_authorization_header() {
    let request = HttpRequest::get("https://example.test/quote")
        .with_auth(&HttpAuth::BearerToken(String::from("token-123")));

    assert_eq!(
        request.header("authorization").as_deref(),
        Some("Bearer token-123")
    );
}

#[test]
fn custom_header_auth_preserves_name_and_value() {
    let request = HttpRequest::get("https://example.test/quote").with_auth(&HttpAuth::Header {
        name: String::from("X-API-Key"),
        value: String::from("demo"),
    });

    assert_eq!(request.header("x-api-key").as_deref(), Some("demo"));
}

#[test]
fn cookie_auth_sets_cookie_header() {
    let request = HttpRequest::get("https://example.test/")
        .with_auth(&HttpAuth::Cookie(String::from("B=session")));
    assert_eq!(request.header("cookie").as_deref(), Some("B=session"));
}

#[test]
fn no_auth_leaves_headers_alone() {
    let request = HttpRequest::get("https://example.test/").with_auth(&HttpAuth::NoAuth);
    assert_eq!(request.headers.len(), 0);
}

#[test]
fn header_names_are_stored_lower_case_and_last_write_wins() {
    let request = HttpRequest::get("https://example.test/")
        .with_header("X-Trace", "one")
        .with_header("x-trace", "two");
    assert_eq!(request.header("x-trace").as_deref(), Some("two"));
    assert_eq!(request.header("X-Trace"), None);
    assert_eq!(request.headers.len(), 1);
    assert_eq!(request.header("missing"), None);
}

#[test]
fn request_builders_set_fields() {
    let request = HttpRequest::new(HttpMethod::Post, "https://example.test/p")
        .with_body("{}")
        .with_timeout_ms(1234);
    assert_eq!(request.method, HttpMethod::Post);
    assert_eq!(request.url, "https://example.test/p");
    assert_eq!(request.body.as_deref(), Some("{}"));
    assert_eq!(request.timeout_ms, 1234);
    let get = HttpRequest::get("https://example.test/g");
    assert_eq!(get.method, HttpMethod::Get);
    assert_eq!(get.timeout_ms, 3_000);
}

#[test]
fn response_success_range() {
    assert!(HttpResponse::ok_json("{}").is_success());
    assert_eq!(HttpResponse::ok_json("{}").status, 200);
    let r = HttpResponse { status: 299, body: String::new() };
    assert!(r.is_success());
    let r = HttpResponse { status: 300, body: String::new() };
    assert!(!r.is_success());
    let r = HttpResponse { status: 199, body: String::new() };
    assert!(!r.is_success());
}

#[test]
fn http_error_retryability() {
    let e = HttpError::new("boom");
    assert_eq!(e.message(), "boom");
    assert!(e.retryable());
    let e = HttpError::non_retryable("bad");
    assert_eq!(e.message(), "bad");
    assert!(!e.retryable());
}

#[test]
fn query_param_decodes_and_ignores_case() {
    let url = "https://x.test/path?Search=hello%20world&limit=5";
    assert_eq!(query_param(url, "search").as_deref(), Some("hello world"));
    assert_eq!(query_param(url, "LIMIT").as_deref(), Some("5"));
    assert_eq!(query_param(url, "missing"), None);
    assert_eq!(query_param("https://x.test/path", "limit"), None);
    assert_eq!(query_param("https://x.test/?flag", "flag").as_deref(), Some(""));
}

#[test]
fn query_param_keeps_undecodable_value() {
    assert_eq!(query_param("https://x.test/?v=%FF", "v").as_deref(), Some("%FF"));
}

#[test]
fn parse_symbols_splits_trims_and_defaults() {
    assert_eq!(
        parse_symbols("https://x.test/?symbols=AAPL,%20MSFT,,NVDA"),
        vec!["AAPL".to_string(), "MSFT".to_string(), "NVDA".to_string()]
    );
    assert_eq!(parse_symbols("https://x.test/"), vec!["AAPL".to_string()]);
}

#[test]
fn extract_between_takes_first_segment() {
    let url = "https://api.polygon.io/v2/aggs/ticker/MSFT/prev?apiKey=x";
    assert_eq!(extract_between(url, "/ticker/", "/"), Some("MSFT"));
    assert_eq!(extract_between(url, "/missing/", "/"), None);
    assert_eq!(extract_between("a/ticker/XYZ", "/ticker/", "/"), Some("XYZ"));
}

#[test]
fn mock_route_reads_polygon_urls() {
    match mock_route("https://api.polygon.io/v2/aggs/ticker/MSFT/prev?adjusted=true") {
        MockRoute::PolygonPrevious { symbol } => assert_eq!(symbol, "MSFT"),
        other => panic!("unexpected {:?}", other),
    }
    match mock_route("https://api.polygon.io/v2/aggs/ticker/AAPL/range/1/day/a/b?limit=7") {
        MockRoute::PolygonRange { limit } => assert_eq!(limit, 7),
        other => panic!("unexpected {:?}", other),
    }
    match mock_route("https://api.polygon.io/v2/aggs/ticker/AAPL/range/1/day/a/b?limit=x") {
        MockRoute::PolygonRange { limit } => assert_eq!(limit, 30),
        other => panic!("unexpected {:?}", other),
    }
    match mock_route("https://api.polygon.io/v3/reference/tickers?search=tesla") {
        MockRoute::PolygonSearch { query } => assert_eq!(query, "tesla"),
        other => panic!("unexpected {:?}", other),
    }
    match mock_route("https://api.polygon.io/v3/reference/tickers") {
        MockRoute::PolygonSearch { query } => assert_eq!(query, "apple"),
        other => panic!("unexpected {:?}", other),
    }
}

#[test]
fn mock_route_reads_other_providers() {
    match mock_route("https://data.alpaca.markets/v2/stocks/quotes/latest?symbols=AAPL,MSFT") {
        MockRoute::AlpacaQuotes { symbols } => assert_eq!(symbols, vec!["AAPL", "MSFT"]),
        other => panic!("unexpected {:?}", other),
    }
    match mock_route("https://data.alpaca.markets/v2/stocks/AAPL/bars?timeframe=1Day&limit=+12") {
        MockRoute::AlpacaBars { limit } => assert_eq!(limit, 12),
        other => panic!("unexpected {:?}", other),
    }
    assert!(matches!(
        mock_route("https://www.alphavantage.co/query?function=GLOBAL_QUOTE&symbol=AAPL"),
        MockRoute::AlphaVantageQuote
    ));
    assert!(matches!(
        mock_route("https://www.alphavantage.co/query?function=TIME_SERIES_INTRADAY"),
        MockRoute::AlphaVantageSeries
    ));
    assert!(matches!(
        mock_route("https://www.alphavantage.co/query?function=SYMBOL_SEARCH"),
        MockRoute::AlphaVantageSearch
    ));
    assert!(matches!(
        mock_route("https://www.alphavantage.co/query?function=OTHER"),
        MockRoute::Fallback
    ));
    assert!(matches!(mock_route("https://fc.yahoo.com"), MockRoute::YahooCookie));
    assert!(matches!(
        mock_route("https://query2.finance.yahoo.com/v1/test/getcrumb"),
        MockRoute::YahooCrumb
    ));
    match mock_route("https://query1.finance.yahoo.com/v7/finance/quote?symbols=NVDA") {
        MockRoute::YahooQuotes { symbols } => assert_eq!(symbols, vec!["NVDA"]),
        other => panic!("unexpected {:?}", other),
    }
    assert!(matches!(
        mock_route("https://query1.finance.yahoo.com/v8/finance/chart/AAPL?range=1d"),
        MockRoute::YahooChart
    ));
    assert!(matches!(
        mock_route("https://query2.finance.yahoo.com/v1/finance/search?q=apple"),
        MockRoute::YahooSearch
    ));
    assert!(matches!(
        mock_route("https://query1.finance.yahoo.com/v10/finance/quoteSummary/AAPL?modules=earnings"),
        MockRoute::YahooEarnings
    ));
    assert!(matches!(
        mock_route(
            "https://query1.finance.yahoo.com/v10/finance/quoteSummary/AAPL?modules=balanceSheetHistory"
        ),
        MockRoute::YahooFinancials
    ));
    assert!(matches!(
        mock_route("https://query1.finance.yahoo.com/v10/finance/quoteSummary/AAPL?modules=price"),
        MockRoute::YahooFundamentals
    ));
    assert!(matches!(mock_route("https://example.test/"), MockRoute::Fallback));
}

#[test]
fn percent_escapes_decode_to_their_bytes() {
    assert_eq!(query_param("https://x.test/?symbols=AAPL%2CMSFT", "symbols").as_deref(), Some("AAPL,MSFT"));
    assert_eq!(query_param("https://x.test/?q=a%2cb", "q").as_deref(), Some("a,b"));
    assert_eq!(decode_or_raw("caf%C3%A9"), "caf\u{e9}");
    assert_eq!(decode_or_raw("a+b"), "a+b");
    assert_eq!(decode_or_raw("100%"), "100%");
    assert_eq!(decode_or_raw("%2"), "%2");
    assert_eq!(decode_or_raw("%zz%41"), "%zzA");
    assert_eq!(decode_or_raw("%%41"), "%A");
    assert_eq!(
        parse_symbols("https://x.test/?symbols=AAPL%2C%20MSFT"),
        vec!["AAPL".to_string(), "MSFT".to_string()]
    );
}
