use ferrotick::builder::default_router;
use ferrotick::requests::{check_quote, QuoteRequest};
use ferrotick::routing::{RouteFailure, RouteSession, RouteSuccess, SourceRouter, SourceStrategy};
use ferrotick::source::{Endpoint, HealthState, HealthStatus, ProviderId};

fn healthy_all() -> Vec<(ProviderId, HealthStatus)> {
    vec![
        (ProviderId::Polygon, HealthStatus::new(HealthState::Healthy, true, 90)),
        (ProviderId::Alpaca, HealthStatus::new(HealthState::Healthy, true, 85)),
        (ProviderId::Alphavantage, HealthStatus::new(HealthState::Healthy, true, 70)),
        (ProviderId::Yahoo, HealthStatus::new(HealthState::Healthy, true, 78)),
    ]
}

fn health_of(health: &[(ProviderId, HealthStatus)], p: ProviderId) -> HealthStatus {
    health.iter().find(|(q, _)| *q == p).map(|(_, h)| *h).unwrap()
}

/// Drives a quote call through a routing session, with each provider's
/// request rules standing in for the offline adapters.
fn route_quote(
    router: &SourceRouter,
    request: &QuoteRequest,
    strategy: SourceStrategy,
    health: &Vec<(ProviderId, HealthStatus)>,
) -> Result<RouteSuccess<()>, RouteFailure> {
    let mut session = RouteSession::start(router, Endpoint::Quote, &strategy, health);
    loop {
        match session.next_candidate(router) {
            None => return Err(session.fail(router, &strategy, health, 0)),
            Some(p) => {
                if !session.check_health(health_of(health, p)) {
                    continue;
                }
                match check_quote(p, request) {
                    Ok(()) => return Ok(session.succeed((), 0)),
                    Err(e) => session.record_failure(&e),
                }
            }
        }
    }
}

fn quote_request(symbols: &[&str]) -> QuoteRequest {
    QuoteRequest { symbols: symbols.iter().map(|s| s.to_string()).collect() }
}

#[test]
fn auto_prefers_polygon_for_quote_when_available() {
    let router = default_router();
    let request = quote_request(&["AAPL"]);

    let result = route_quote(&router, &request, SourceStrategy::Auto, &healthy_all())
        .expect("route should succeed");

    assert_eq!(result.selected_source, ProviderId::Polygon);
    assert_eq!(result.source_chain, vec![ProviderId::Polygon]);
}

#[test]
fn auto_falls_back_to_alpaca_after_polygon_rate_limit() {
    let router = default_router();
    let request = quote_request(&["AAPL", "MSFT", "NVDA", "TSLA"]);

    let result = route_quote(&router, &request, SourceStrategy::Auto, &healthy_all())
        .expect("route should succeed with fallback");

    assert_eq!(result.selected_source, ProviderId::Alpaca);
    assert_eq!(result.source_chain, vec![ProviderId::Polygon, ProviderId::Alpaca]);
    assert_eq!(result.errors.len(), 1);
    assert_eq!(result.errors[0].source, Some(ProviderId::Polygon));
}

#[test]
fn auto_chain_for_fundamentals_excludes_alpaca() {
    let router = default_router();

    let chain =
        router.source_chain_for_strategy(Endpoint::Fundamentals, &SourceStrategy::Auto, &healthy_all());

    assert!(!chain.contains(&ProviderId::Alpaca));
}

#[test]
fn strict_source_does_not_fallback() {
    let router = default_router();
    let request = quote_request(&["AAPL", "MSFT", "NVDA", "TSLA"]);

    let result = route_quote(
        &router,
        &request,
        SourceStrategy::Strict(ProviderId::Polygon),
        &healthy_all(),
    );

    let failure = result.expect_err("strict route should fail");
    assert_eq!(failure.source_chain, vec![ProviderId::Polygon]);
    assert_eq!(failure.errors.len(), 1);
    assert_eq!(failure.errors[0].source, Some(ProviderId::Polygon));
}

#[test]
fn fallback_success_carries_warning() {
    let router = default_router();
    let request = quote_request(&["AAPL", "MSFT", "NVDA", "TSLA"]);
    let result = route_quote(&router, &request, SourceStrategy::Auto, &healthy_all()).unwrap();
    assert_eq!(
        result.warnings,
        vec!["source fallback succeeded with 'alpaca' after 1 failed attempt(s)".to_string()]
    );
    assert_eq!(result.errors[0].code, "source.rate_limited");
}

#[test]
fn unhealthy_provider_is_skipped_with_error() {
    let router = default_router();
    let request = quote_request(&["AAPL"]);
    let mut health = healthy_all();
    health[0].1 = HealthStatus::new(HealthState::Unhealthy, false, 90);
    let result = route_quote(&router, &request, SourceStrategy::Auto, &health).unwrap();
    assert_ne!(result.selected_source, ProviderId::Polygon);
}

#[test]
fn priority_strategy_dedupes_and_follows_order() {
    let router = default_router();
    let chain = router.source_chain_for_strategy(
        Endpoint::Quote,
        &SourceStrategy::Priority(vec![ProviderId::Yahoo, ProviderId::Alpaca, ProviderId::Yahoo]),
        &healthy_all(),
    );
    assert_eq!(chain, vec![ProviderId::Yahoo, ProviderId::Alpaca]);
}

#[test]
fn all_failing_reports_exhaustion() {
    let router = default_router();
    let request = quote_request(&["AAPL"]);
    let health: Vec<(ProviderId, HealthStatus)> = healthy_all()
        .into_iter()
        .map(|(p, _)| (p, HealthStatus::new(HealthState::Unhealthy, false, 0)))
        .collect();
    let failure = route_quote(&router, &request, SourceStrategy::Auto, &health).unwrap_err();
    assert_eq!(failure.warnings, vec!["all sources failed for endpoint 'quote'".to_string()]);
    assert_eq!(failure.errors.len(), failure.source_chain.len());
}

#[test]
fn auto_chain_for_financials_is_yahoo_only() {
    let router = default_router();
    let chain = router.source_chain_for_strategy(Endpoint::Financials, &SourceStrategy::Auto, &healthy_all());
    assert_eq!(chain, vec![ProviderId::Yahoo]);
}

#[test]
fn failure_with_nothing_tried_reports_registry_by_name() {
    let router = default_router();
    let request = quote_request(&["AAPL"]);
    let failure =
        route_quote(&router, &request, SourceStrategy::Priority(vec![]), &healthy_all()).unwrap_err();
    assert_eq!(
        failure.source_chain,
        vec![ProviderId::Alpaca, ProviderId::Alphavantage, ProviderId::Polygon, ProviderId::Yahoo]
    );
    assert_eq!(failure.errors.len(), 1);
    assert_eq!(failure.errors[0].code, "source.no_candidate");
    assert_eq!(failure.errors[0].message, "no source candidates available for endpoint 'quote'");
    assert_eq!(failure.errors[0].source, None);
}
