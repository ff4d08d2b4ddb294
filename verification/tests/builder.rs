use ferrotick::builder::{AdapterChoice, SourceRouterBuilder};
use ferrotick::source::ProviderId;

#[test]
fn builder_without_keys_uses_mock_adapters() {
    let choices = SourceRouterBuilder::new().build();
    assert_eq!(choices.len(), 4);
    assert!(matches!(choices[0], AdapterChoice::Mock(ProviderId::Polygon)));
    assert!(matches!(choices[1], AdapterChoice::Mock(ProviderId::Alpaca)));
}

#[test]
fn builder_with_keys_uses_real_clients() {
    let choices = SourceRouterBuilder::new()
        .with_polygon_key("pk")
        .with_alpaca_keys("ak", "as")
        .with_alphavantage_key("vk")
        .build();
    assert_eq!(choices.len(), 4);
    assert!(matches!(choices[0], AdapterChoice::Polygon(_)));
    match &choices[1] {
        AdapterChoice::Alpaca { api_key, secret_key } => {
            assert_eq!(api_key, "ak");
            assert_eq!(secret_key, "as");
        }
        _ => panic!("alpaca expected"),
    }
    match &choices[2] {
        AdapterChoice::Alphavantage(k) => assert_eq!(k, "vk"),
        _ => panic!("alphavantage expected"),
    }
}

#[test]
fn mock_mode_overrides_keys_and_disabled_providers_are_left_out() {
    let choices = SourceRouterBuilder::new()
        .with_polygon_key("pk")
        .with_mock_mode()
        .with_alpaca_enabled(false)
        .build();
    assert_eq!(choices.len(), 3);
    assert!(matches!(choices[0], AdapterChoice::Mock(ProviderId::Polygon)));
    assert!(matches!(choices[1], AdapterChoice::Mock(ProviderId::Alphavantage)));
}

#[test]
fn nothing_enabled_falls_back_to_all_mocks() {
    let choices = SourceRouterBuilder::new()
        .with_polygon_enabled(false)
        .with_alpaca_enabled(false)
        .with_alphavantage_enabled(false)
        .with_yahoo_enabled(false)
        .build();
    assert_eq!(choices.len(), 4);
}
