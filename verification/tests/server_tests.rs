use fincept_stream::server::{
    health_response, require_param, ws_provider_request, ws_subscription_request, ServerConfig,
};

#[test]
fn missing_provider_is_reported_by_name() {
    let r = ws_provider_request(None);
    assert_eq!(r.unwrap_err(), "Missing 'provider' parameter");
    let r = ws_provider_request(Some("binance".to_string()));
    assert_eq!(r.unwrap(), "binance");
}

#[test]
fn subscription_reports_the_first_missing_parameter() {
    let r = ws_subscription_request(None, Some("BTC/USD".to_string()), Some("ticker".to_string()));
    assert_eq!(r.unwrap_err(), "Missing 'provider' parameter");

    let r = ws_subscription_request(Some("binance".to_string()), None, Some("ticker".to_string()));
    assert_eq!(r.unwrap_err(), "Missing 'symbol' parameter");

    let r = ws_subscription_request(Some("binance".to_string()), Some("BTC/USD".to_string()), None);
    assert_eq!(r.unwrap_err(), "Missing 'channel' parameter");
}

#[test]
fn complete_subscription_builds_the_topic() {
    let t = ws_subscription_request(
        Some("binance".to_string()),
        Some("BTC/USD".to_string()),
        Some("ticker".to_string()),
    )
    .unwrap();
    assert_eq!(t.provider, "binance");
    assert_eq!(t.symbol, "BTC/USD");
    assert_eq!(t.channel, "ticker");
    assert_eq!(t.key_string(), "binance.ticker.BTC/USD");
}

#[test]
fn require_param_passes_values_through() {
    assert_eq!(require_param(Some("x".to_string()), "anything").unwrap(), "x");
    assert_eq!(require_param(None, "limit").unwrap_err(), "Missing 'limit' parameter");
}

#[test]
fn server_config_defaults() {
    let c = ServerConfig::default();
    assert_eq!(c.host, "0.0.0.0");
    assert_eq!(c.port, 3000);
    assert!(c.cors_enabled);
    assert_eq!(
        c.cors_origins,
        vec!["http://localhost:3000".to_string(), "http://127.0.0.1:3000".to_string()]
    );
}

#[test]
fn health_response_is_ok() {
    let h = health_response("1.2.3".to_string(), 42);
    assert_eq!(h.status, "ok");
    assert_eq!(h.version, "1.2.3");
    assert_eq!(h.uptime_seconds, 42);
}
