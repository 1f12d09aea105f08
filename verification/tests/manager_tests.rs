use fincept_stream::manager::{backoff_delay, ConnectionManager};
use fincept_stream::router::MessageRouter;
use fincept_stream::types::{ConnState, MarketMessage, ProviderConfig, TickerData, WsError};

fn config(name: &str) -> ProviderConfig {
    ProviderConfig {
        name: name.to_string(),
        endpoint: format!("wss://{}.example/stream", name),
        api_key: Some("demo-key".to_string()),
        api_secret: None,
        enabled: true,
        params: None,
    }
}

fn ticker(provider: &str, price: i64) -> MarketMessage {
    MarketMessage::Ticker(TickerData {
        provider: provider.to_string(),
        symbol: "BTCUSD".to_string(),
        price,
        volume: None,
        bid: None,
        ask: None,
        bid_size: None,
        ask_size: None,
        high: None,
        low: None,
        open: None,
        close: None,
        change: None,
        change_percent: None,
        timestamp: 0,
    })
}

fn last_status(router: &MessageRouter) -> (String, ConnState) {
    let mut rx = fincept_stream::broadcast::StreamReader { cursor: 0, skipped: 0 };
    let mut last = None;
    while let Some(m) = router.status.recv(&mut rx) {
        if let MarketMessage::Status(s) = m {
            last = Some((s.provider.clone(), s.state));
        }
    }
    last.expect("no status message was emitted")
}

#[test]
fn connect_without_config_fails_with_config_missing() {
    let mut mgr = ConnectionManager::new();
    let mut router = MessageRouter::new(16);
    match mgr.connect("acme", &mut router, 1) {
        Err(WsError::ConfigMissing) => {}
        _ => panic!("expected ConfigMissing"),
    }
    // after set_config the same connect succeeds
    mgr.set_config(config("acme"));
    assert!(mgr.connect("acme", &mut router, 2).is_ok());
    let m = mgr.get_metrics("acme").unwrap();
    assert!(m.connected);
    assert_eq!(last_status(&router).1, ConnState::Connected);
}

#[test]
fn connect_when_connected_is_a_no_op() {
    let mut mgr = ConnectionManager::new();
    let mut router = MessageRouter::new(16);
    mgr.set_config(config("acme"));
    mgr.connect("acme", &mut router, 1).unwrap();
    let before = router.status.head;
    assert!(mgr.connect("acme", &mut router, 2).is_ok());
    assert_eq!(router.status.head, before, "no new status on a no-op connect");
}

#[test]
fn set_config_does_not_touch_an_open_connection() {
    let mut mgr = ConnectionManager::new();
    let mut router = MessageRouter::new(16);
    mgr.set_config(config("acme"));
    mgr.connect("acme", &mut router, 1).unwrap();
    mgr.set_config(config("acme"));
    assert!(mgr.get_metrics("acme").unwrap().connected);
}

#[test]
fn subscribe_requires_an_open_connection() {
    let mut mgr = ConnectionManager::new();
    let mut router = MessageRouter::new(16);
    match mgr.subscribe("acme", "BTCUSD", "ticker") {
        Err(WsError::NotConnected) => {}
        _ => panic!("expected NotConnected"),
    }
    mgr.set_config(config("acme"));
    match mgr.subscribe("acme", "BTCUSD", "ticker") {
        Err(WsError::NotConnected) => {}
        _ => panic!("expected NotConnected before connect"),
    }
    mgr.connect("acme", &mut router, 1).unwrap();
    mgr.subscribe("acme", "BTCUSD", "ticker").unwrap();
    // subscribing the same feed twice keeps one subscription
    mgr.subscribe("acme", "BTCUSD", "ticker").unwrap();
    mgr.subscribe("acme", "ETHUSD", "ticker").unwrap();
    assert_eq!(mgr.get_metrics("acme").unwrap().subscribed_topics, 2);
    mgr.unsubscribe("acme", "BTCUSD", "ticker").unwrap();
    assert_eq!(mgr.get_metrics("acme").unwrap().subscribed_topics, 1);
    // unsubscribing a feed not held is a no-op
    mgr.unsubscribe("acme", "BTCUSD", "ticker").unwrap();
    assert_eq!(mgr.get_metrics("acme").unwrap().subscribed_topics, 1);
}

#[test]
fn disconnect_leaves_other_providers_alone() {
    let mut mgr = ConnectionManager::new();
    let mut router = MessageRouter::new(32);
    mgr.set_config(config("acme"));
    mgr.set_config(config("binance"));
    mgr.connect("acme", &mut router, 1).unwrap();
    mgr.connect("binance", &mut router, 2).unwrap();
    mgr.subscribe("binance", "BTCUSD", "ticker").unwrap();
    mgr.on_message("binance", ticker("binance", 5), &mut router, 3);
    let before = mgr.get_metrics("binance").unwrap();

    mgr.disconnect("acme", &mut router, 4).unwrap();

    let after = mgr.get_metrics("binance").unwrap();
    assert!(after.connected);
    assert_eq!(after.subscribed_topics, before.subscribed_topics);
    assert_eq!(after.messages_received, before.messages_received);
    assert_eq!(after.reconnect_count, before.reconnect_count);
    assert_eq!(after.error_count, before.error_count);
    assert!(!mgr.get_metrics("acme").unwrap().connected);
    let (who, state) = last_status(&router);
    assert_eq!(who, "acme");
    assert_eq!(state, ConnState::Disconnected);
}

#[test]
fn disconnect_when_not_connected_is_a_no_op() {
    let mut mgr = ConnectionManager::new();
    let mut router = MessageRouter::new(16);
    assert!(mgr.disconnect("ghost", &mut router, 1).is_ok());
    assert_eq!(router.status.head, 0);
}

#[test]
fn reconnect_advances_the_counter_and_reconnects() {
    let mut mgr = ConnectionManager::new();
    let mut router = MessageRouter::new(16);
    match mgr.reconnect("acme", &mut router, 1) {
        Err(WsError::ConfigMissing) => {}
        _ => panic!("expected ConfigMissing"),
    }
    mgr.set_config(config("acme"));
    mgr.connect("acme", &mut router, 2).unwrap();
    mgr.reconnect("acme", &mut router, 3).unwrap();
    let m = mgr.get_metrics("acme").unwrap();
    assert!(m.connected);
    assert_eq!(m.reconnect_count, 1);
    assert_eq!(last_status(&router).1, ConnState::Connected);
}

#[test]
fn transport_errors_stay_in_metrics_and_status() {
    let mut mgr = ConnectionManager::new();
    let mut router = MessageRouter::new(16);
    mgr.set_config(config("acme"));
    mgr.connect("acme", &mut router, 1).unwrap();
    mgr.on_transport_error("acme", Some("read timed out".to_string()), &mut router, 2);
    let m = mgr.get_metrics("acme").unwrap();
    assert!(!m.connected);
    assert_eq!(m.error_count, 1);
    assert_eq!(last_status(&router).1, ConnState::ConnectionLost);
    // the failure's detail travels in the status message
    let mut rx = fincept_stream::broadcast::StreamReader { cursor: 0, skipped: 0 };
    let mut detail = None;
    while let Some(MarketMessage::Status(s)) = router.status.recv(&mut rx) {
        detail = s.detail.clone();
    }
    assert_eq!(detail.as_deref(), Some("read timed out"));
}

#[test]
fn on_message_counts_and_routes() {
    let mut mgr = ConnectionManager::new();
    let mut router = MessageRouter::new(16);
    let mut rx = router.subscribe_ticker();
    mgr.set_config(config("acme"));
    mgr.connect("acme", &mut router, 1).unwrap();
    mgr.on_message("acme", ticker("acme", 42), &mut router, 5);
    let m = mgr.get_metrics("acme").unwrap();
    assert_eq!(m.messages_received, 1);
    assert_eq!(m.last_message_at, Some(5));
    assert!(router.ticker.recv(&mut rx).is_some());
}

#[test]
fn errors_describe_themselves() {
    assert_eq!(WsError::ConfigMissing.message(), "provider configuration missing");
    assert_eq!(WsError::NotConnected.message(), "provider not connected");
    assert_eq!(
        WsError::ConnectFailed("handshake refused".to_string()).message(),
        "connect failed: handshake refused"
    );
}

#[test]
fn metrics_for_an_unknown_provider_are_absent() {
    let mgr = ConnectionManager::new();
    assert!(mgr.get_metrics("ghost").is_none());
    assert!(mgr.get_all_metrics().is_empty());
}

#[test]
fn backoff_is_exponential_and_capped() {
    assert_eq!(backoff_delay(100, 2, 0, 3000), 100);
    assert_eq!(backoff_delay(100, 2, 1, 3000), 200);
    assert_eq!(backoff_delay(100, 2, 2, 3000), 400);
    assert_eq!(backoff_delay(100, 2, 3, 3000), 800);
    assert_eq!(backoff_delay(100, 2, 4, 3000), 1600);
    assert_eq!(backoff_delay(100, 2, 5, 3000), 3000);
    // the delay stays capped however long the provider stays unreachable
    assert_eq!(backoff_delay(100, 2, 64, 3000), 3000);
    assert_eq!(backoff_delay(5000, 2, 0, 3000), 3000);
    // other multipliers follow the same schedule
    assert_eq!(backoff_delay(100, 3, 2, 100_000), 900);
    assert_eq!(backoff_delay(100, 1, 9, 100_000), 100);
}
