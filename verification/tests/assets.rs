use ferrotick::assets::{pair_symbol, parse_expiry, CryptoExchange, OptionType};

#[test]
fn expiry_reads_rfc3339_and_dates() {
    assert_eq!(parse_expiry("2025-01-01T00:00:00Z"), Some(1_735_689_600));
    assert_eq!(parse_expiry("2025-01-01T01:00:00+01:00"), Some(1_735_689_600));
    assert_eq!(parse_expiry("2025-01-01"), Some(1_735_689_600));
    assert_eq!(parse_expiry("not a date"), None);
}

#[test]
fn crypto_pair_symbol() {
    assert_eq!(pair_symbol("BTC", "USD"), "BTC/USD");
    assert_ne!(CryptoExchange::Binance, CryptoExchange::Kraken);
    assert_ne!(OptionType::Call, OptionType::Put);
}
