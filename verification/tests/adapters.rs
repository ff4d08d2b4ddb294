use ferrotick::adapters::{
    alphavantage_bar_times,
    accept_reply, check_polygon_api_status, check_status, currency_or_usd, transport_error,
    alpaca_timeframe_name, bars_lookback_days, capabilities_for, alphavantage_asset_class, join_strings, polygon_asset_class,
    yahoo_asset_class, search_rows, AlpacaAdapter, AlphaVantageAdapter, AssetClass, InstrumentRow, PolygonAdapter, SearchHit,
};
use ferrotick::http_client::{query_param, HttpAuth};
use ferrotick::requests::{BarsRequest, Interval, QuoteRequest, SearchRequest};
use ferrotick::source::{CircuitState, Endpoint, HealthState, ProviderId, SourceErrorKind};

fn quote(symbols: &[&str]) -> QuoteRequest {
    QuoteRequest { symbols: symbols.iter().map(|s| s.to_string()).collect() }
}

#[test]
fn polygon_search_request_encodes_query() {
    let adapter = PolygonAdapter::with_http_client((), HttpAuth::Header {
        name: String::from("X-API-Key"),
        value: String::from("demo"),
    });
    let r = adapter.search_request(&SearchRequest { query: String::from("apple inc"), limit: 5 });
    assert_eq!(
        r.url,
        "https://api.polygon.io/v3/reference/tickers?search=apple%20inc&limit=5&active=true"
    );
    assert_eq!(r.header("x-api-key").as_deref(), Some("demo"));
    assert_eq!(r.timeout_ms, 5_000);
}

#[test]
fn polygon_quote_request_names_first_symbol() {
    let adapter = PolygonAdapter::with_http_client((), HttpAuth::NoAuth);
    let r = adapter.quote_request(&quote(&["MSFT", "AAPL"]));
    assert_eq!(r.url, "https://api.polygon.io/v2/aggs/ticker/MSFT/prev?adjusted=true");
}

#[test]
fn polygon_rejects_more_than_three_quotes() {
    let adapter = PolygonAdapter::with_http_client((), HttpAuth::NoAuth);
    assert!(adapter.check_quote(&quote(&["A", "B", "C"])).is_ok());
    let e = adapter.check_quote(&quote(&["A", "B", "C", "D"])).unwrap_err();
    assert_eq!(e.kind(), SourceErrorKind::RateLimited);
}

#[test]
fn alpaca_quotes_request_joins_symbols_and_keys() {
    let adapter = AlpacaAdapter::with_http_client((), "demo-key", "demo-secret");
    let r = adapter.quotes_request(&quote(&["AAPL", "MSFT"]));
    assert_eq!(r.url, "https://data.alpaca.markets/v2/stocks/quotes/latest?symbols=AAPL,MSFT");
    assert_eq!(r.header("apca-api-key-id").as_deref(), Some("demo-key"));
    assert_eq!(r.header("apca-api-secret-key").as_deref(), Some("demo-secret"));
    assert_eq!(adapter.id(), ProviderId::Alpaca);
}

#[test]
fn open_circuit_marks_adapters_unhealthy() {
    let adapter = AlphaVantageAdapter::with_http_client((), "demo-key");
    let health = adapter.health(CircuitState::Open);
    assert_eq!(health.state, HealthState::Unhealthy);
    assert!(!health.rate_available);
    let health = adapter.health(CircuitState::Closed);
    assert_eq!(health.state, HealthState::Healthy);
}

#[test]
fn capabilities_by_provider() {
    let alpaca = AlpacaAdapter::with_http_client((), "k", "s");
    assert!(alpaca.capabilities().supports(Endpoint::Quote));
    assert!(!alpaca.capabilities().supports(Endpoint::Fundamentals));
    let polygon = PolygonAdapter::with_http_client((), HttpAuth::NoAuth);
    assert!(polygon.capabilities().supports(Endpoint::Fundamentals));
}

#[test]
fn interval_names() {
    assert_eq!(alpaca_timeframe_name(Interval::OneMinute), "1Min");
    assert_eq!(alpaca_timeframe_name(Interval::OneDay), "1Day");
    assert_eq!(PolygonAdapter::<()>::timespan(Interval::OneHour), "hour");
    assert_eq!(PolygonAdapter::<()>::multiplier(Interval::FifteenMinutes), 15);
}

#[test]
fn asset_classes() {
    assert_eq!(polygon_asset_class(Some("crypto")), AssetClass::Crypto);
    assert_eq!(polygon_asset_class(None), AssetClass::Other);
    assert_eq!(alphavantage_asset_class("ETF"), AssetClass::Etf);
    assert_eq!(yahoo_asset_class("CRYPTOCURRENCY"), AssetClass::Equity);
    assert_eq!(yahoo_asset_class("ETF"), AssetClass::Etf);
}

#[test]
fn join_strings_with_separator() {
    let parts = vec!["a".to_string(), "b".to_string(), "c".to_string()];
    assert_eq!(join_strings(&parts, ","), "a,b,c");
    assert_eq!(join_strings(&Vec::new(), ","), "");
}

#[test]
fn capability_matrix_matches_documentation() {
    let table = [
        (ProviderId::Polygon, [true, true, true, false, false, true]),
        (ProviderId::Alpaca, [true, true, false, false, false, false]),
        (ProviderId::Yahoo, [true, true, true, true, true, true]),
        (ProviderId::Alphavantage, [true, true, true, false, false, true]),
    ];
    let endpoints = [
        Endpoint::Quote,
        Endpoint::Bars,
        Endpoint::Fundamentals,
        Endpoint::Financials,
        Endpoint::Earnings,
        Endpoint::Search,
    ];
    for (provider, row) in table {
        let caps = capabilities_for(provider);
        for (endpoint, expected) in endpoints.iter().zip(row) {
            assert_eq!(caps.supports(*endpoint), expected, "{:?} {:?}", provider, endpoint);
        }
    }
}

#[test]
fn priority_scores_match_documentation() {
    let polygon = PolygonAdapter::with_http_client((), HttpAuth::NoAuth);
    let alpaca = AlpacaAdapter::with_http_client((), "k", "s");
    let alphavantage = AlphaVantageAdapter::with_http_client((), "k");
    let yahoo = ferrotick::yahoo::YahooAdapter::with_http_client((), HttpAuth::NoAuth, None);
    assert_eq!(polygon.health(CircuitState::Closed).score, 90);
    assert_eq!(alpaca.health(CircuitState::Closed).score, 85);
    assert_eq!(yahoo.health(CircuitState::Closed).score, 78);
    assert_eq!(alphavantage.health(CircuitState::Closed).score, 70);
}

#[test]
fn bars_requests_by_provider() {
    let bars = BarsRequest { symbol: "AAPL".to_string(), interval: Interval::FiveMinutes, limit: 50 };
    let polygon = PolygonAdapter::with_http_client((), HttpAuth::NoAuth);
    assert_eq!(
        polygon.bars_request(&bars, "2024-01-01", "2024-03-01").url,
        "https://api.polygon.io/v2/aggs/ticker/AAPL/range/5/minute/2024-01-01/2024-03-01?adjusted=true&sort=desc&limit=50"
    );
    let alpaca = AlpacaAdapter::with_http_client((), "k", "s");
    let r = alpaca.bars_request(&bars, "2024-01-01T00:00:00Z");
    assert_eq!(
        r.url,
        "https://data.alpaca.markets/v2/stocks/AAPL/bars?timeframe=5Min&start=2024-01-01T00:00:00Z&limit=50"
    );
    assert_eq!(r.header("apca-api-key-id").as_deref(), Some("k"));
    let av = AlphaVantageAdapter::with_http_client((), "key");
    assert_eq!(
        av.bars_request(&bars).url,
        "https://www.alphavantage.co/query?function=TIME_SERIES_INTRADAY&symbol=AAPL&interval=5min&apikey=key"
    );
    assert_eq!(
        av.search_request(&SearchRequest { query: "a b".to_string(), limit: 1 }).url,
        "https://www.alphavantage.co/query?function=SYMBOL_SEARCH&keywords=a%20b&apikey=key"
    );
    assert_eq!(bars_lookback_days(50), 100);
}

#[test]
fn replies_are_accepted_or_refused() {
    use_reply_helpers();
}

fn use_reply_helpers() {
    assert!(check_status(ProviderId::Alpaca, 204).is_ok());
    let e = check_status(ProviderId::Alpaca, 503).unwrap_err();
    assert_eq!(e.kind, SourceErrorKind::Unavailable);
    assert_eq!(e.message, "alpaca returned status 503");
    let e = transport_error(ProviderId::Polygon, "timeout");
    assert_eq!(e.message, "polygon transport error: timeout");
    let ok = accept_reply(
        ProviderId::Alphavantage,
        Ok(ferrotick::http_client::HttpResponse { status: 200, body: "{}".to_string() }),
    );
    assert_eq!(ok.unwrap(), "{}");
    let bad = accept_reply(
        ProviderId::Alphavantage,
        Ok(ferrotick::http_client::HttpResponse { status: 404, body: String::new() }),
    );
    assert_eq!(bad.unwrap_err().message, "alphavantage returned status 404");
    let down = accept_reply(ProviderId::Alpaca, Err(ferrotick::http_client::HttpError::new("refused")));
    let e = down.unwrap_err();
    assert_eq!(e.kind, SourceErrorKind::Unavailable);
    assert_eq!(e.message, "alpaca transport error: refused");
    assert!(check_polygon_api_status("OK").is_ok());
    assert!(check_polygon_api_status("DELAYED").is_ok());
    assert_eq!(check_polygon_api_status("ERROR").unwrap_err().message, "polygon API error: ERROR");
    assert_eq!(currency_or_usd(None), "USD");
    assert_eq!(currency_or_usd(Some("EUR")), "EUR");
}

fn hit(symbol: &str, name: Option<&str>, kind: Option<&str>, currency: Option<&str>, accepted: bool) -> SearchHit {
    SearchHit {
        symbol: symbol.to_string(),
        name: name.map(|s| s.to_string()),
        exchange: None,
        kind: kind.map(|s| s.to_string()),
        currency: currency.map(|s| s.to_string()),
        active: None,
        accepted,
    }
}

fn summary(rows: &[InstrumentRow]) -> Vec<(String, String, String, AssetClass, bool)> {
    rows.iter()
        .map(|r| (r.symbol.clone(), r.name.clone(), r.currency.clone(), r.asset_class, r.active))
        .collect()
}

#[test]
fn search_rows_skip_rejected_hits_and_default_currency() {
    let hits = vec![
        hit("AAPL", Some("Apple Inc"), Some("Equity"), None, true),
        hit("bad symbol", Some("Bad"), Some("Equity"), None, false),
        hit("SPY", Some("SPDR S&P 500"), Some("ETF"), Some("USD"), true),
        hit("EURUSD", Some("Euro"), Some("Forex"), Some("EUR"), true),
    ];
    let rows = search_rows(ProviderId::Alphavantage, &hits, 10);
    assert_eq!(
        summary(&rows),
        vec![
            ("AAPL".to_string(), "Apple Inc".to_string(), "USD".to_string(), AssetClass::Equity, true),
            ("SPY".to_string(), "SPDR S&P 500".to_string(), "USD".to_string(), AssetClass::Etf, true),
            ("EURUSD".to_string(), "Euro".to_string(), "EUR".to_string(), AssetClass::Forex, true),
        ]
    );
    let cut = search_rows(ProviderId::Alphavantage, &hits, 2);
    assert_eq!(cut.len(), 2);
    assert_eq!(cut[1].symbol, "SPY");
    assert!(search_rows(ProviderId::Alphavantage, &hits, 0).is_empty());
}

#[test]
fn search_rows_class_and_name_by_provider() {
    let mut etf = hit("VOO", None, Some("MUTUALFUND"), None, true);
    etf.exchange = Some("PCX".to_string());
    let rows = search_rows(ProviderId::Yahoo, &[etf], 5);
    assert_eq!(rows[0].name, "VOO");
    assert_eq!(rows[0].asset_class, AssetClass::Equity);
    assert_eq!(rows[0].exchange.as_deref(), Some("PCX"));

    let mut btc = hit("X:BTCUSD", Some("Bitcoin"), Some("crypto"), None, true);
    btc.active = Some(false);
    let none = hit("ABC", Some("Abc"), None, None, true);
    let rows = search_rows(ProviderId::Polygon, &[btc, none], 5);
    assert_eq!(rows[0].asset_class, AssetClass::Crypto);
    assert!(!rows[0].active);
    assert_eq!(rows[1].asset_class, AssetClass::Other);
    assert!(rows[1].active);
}

#[test]
fn search_queries_are_percent_encoded_per_byte() {
    let adapter = PolygonAdapter::with_http_client((), HttpAuth::Header {
        name: String::from("X-API-Key"),
        value: String::from("demo"),
    });
    let r = adapter.search_request(&SearchRequest { query: String::from("a,b caf\u{e9}"), limit: 1 });
    assert_eq!(
        r.url,
        "https://api.polygon.io/v3/reference/tickers?search=a%2Cb%20caf%C3%A9&limit=1&active=true"
    );
    let r = adapter.search_request(&SearchRequest { query: String::from("A-z_0.9~"), limit: 1 });
    assert_eq!(
        r.url,
        "https://api.polygon.io/v3/reference/tickers?search=A-z_0.9~&limit=1&active=true"
    );
}

#[test]
fn encoded_search_query_decodes_back() {
    let adapter = PolygonAdapter::with_http_client((), HttpAuth::NoAuth);
    for q in ["a,b caf\u{e9}", "100% & more", "x+y=z?", ""] {
        let r = adapter.search_request(&SearchRequest { query: q.to_string(), limit: 3 });
        assert_eq!(query_param(&r.url, "search").as_deref(), Some(q));
    }
}

#[test]
fn alphavantage_bar_times_read_limit_and_reverse() {
    let stamps: Vec<String> = ["2025-01-14T16:00:00Z", "2025-01-15T16:00:00Z", "2025-01-16T16:00:00Z"]
        .iter()
        .map(|s| s.to_string())
        .collect();
    let times = alphavantage_bar_times(&stamps, 2).unwrap();
    assert_eq!(times, vec![(1736956800, 0), (1736870400, 0)]);
    assert_eq!(alphavantage_bar_times(&stamps, 10).unwrap().len(), 3);
    assert!(alphavantage_bar_times(&stamps, 0).unwrap().is_empty());
}

#[test]
fn alphavantage_bar_times_fail_on_first_bad_stamp() {
    let stamps: Vec<String> = ["2025-01-14T16:00:00Z", "2025-01-14 16:00:00", "garbage"]
        .iter()
        .map(|s| s.to_string())
        .collect();
    let e = alphavantage_bar_times(&stamps, 3).unwrap_err();
    assert_eq!(e.kind, SourceErrorKind::Internal);
    assert!(e.message.starts_with("invalid timestamp: "));
    assert!(e.message.len() > "invalid timestamp: ".len());
    assert!(alphavantage_bar_times(&stamps, 1).is_ok());
}
