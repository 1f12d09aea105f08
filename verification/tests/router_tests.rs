use fincept_stream::router::{MessageRouter, Topic};
use fincept_stream::types::{MarketMessage, TickerData, TradeData};

fn topic(provider: &str, channel: &str, symbol: &str) -> Topic {
    Topic {
        provider: provider.to_string(),
        channel: channel.to_string(),
        symbol: symbol.to_string(),
    }
}

fn ticker(price: i64) -> MarketMessage {
    MarketMessage::Ticker(TickerData {
        provider: "acme".to_string(),
        symbol: "BTCUSD".to_string(),
        price,
        volume: None,
        bid: None,
        ask: None,
        bid_size: None,
        ask_size: None,
        high: None,
        low: None,
        open: None,
        close: None,
        change: None,
        change_percent: None,
        timestamp: 0,
    })
}

fn trade(price: i64) -> MarketMessage {
    MarketMessage::Trade(TradeData {
        provider: "acme".to_string(),
        symbol: "BTCUSD".to_string(),
        price,
        quantity: 1,
        side: None,
        timestamp: 0,
    })
}

#[test]
fn route_dispatches_by_category() {
    let mut r = MessageRouter::new(16);
    let mut ticker_rx = r.subscribe_ticker();
    let mut trade_rx = r.subscribe_trade();
    r.route(ticker(100));
    r.route(trade(200));
    r.route(ticker(101));
    let got = r.ticker.recv(&mut ticker_rx).unwrap();
    match got {
        MarketMessage::Ticker(t) => assert_eq!(t.price, 100),
        _ => panic!("wrong category on the ticker stream"),
    }
    let got = r.ticker.recv(&mut ticker_rx).unwrap();
    match got {
        MarketMessage::Ticker(t) => assert_eq!(t.price, 101),
        _ => panic!("wrong category on the ticker stream"),
    }
    assert!(r.ticker.recv(&mut ticker_rx).is_none());
    let got = r.trade.recv(&mut trade_rx).unwrap();
    match got {
        MarketMessage::Trade(t) => assert_eq!(t.price, 200),
        _ => panic!("wrong category on the trade stream"),
    }
    assert!(r.trade.recv(&mut trade_rx).is_none());
}

#[test]
fn frontend_interest_counts_per_topic() {
    let mut r = MessageRouter::new(4);
    let t1 = topic("acme", "ticker", "BTCUSD");
    let t2 = topic("acme", "ticker", "ETHUSD");
    assert_eq!(r.frontend_interest(&t1), 0);
    r.subscribe_frontend(&t1);
    r.subscribe_frontend(&t1);
    r.subscribe_frontend(&t2);
    assert_eq!(r.frontend_interest(&t1), 2);
    assert_eq!(r.frontend_interest(&t2), 1);
    r.unsubscribe_frontend(&t1);
    assert_eq!(r.frontend_interest(&t1), 1);
    assert_eq!(r.frontend_interest(&t2), 1);
}

#[test]
fn unsubscribe_frontend_is_idempotent() {
    let mut r = MessageRouter::new(4);
    let t = topic("acme", "ticker", "BTCUSD");
    // removing interest never registered is a no-op, twice in a row too
    r.unsubscribe_frontend(&t);
    r.unsubscribe_frontend(&t);
    assert_eq!(r.frontend_interest(&t), 0);
    r.subscribe_frontend(&t);
    r.unsubscribe_frontend(&t);
    r.unsubscribe_frontend(&t);
    assert_eq!(r.frontend_interest(&t), 0);
}

#[test]
fn topic_uniqueness_is_on_the_triple() {
    let mut r = MessageRouter::new(4);
    // same joined string "a.b.c" could come from different triples
    let t1 = topic("a", "b.c", "d");
    let t2 = topic("a.b", "c", "d");
    r.subscribe_frontend(&t1);
    assert_eq!(r.frontend_interest(&t1), 1);
    assert_eq!(r.frontend_interest(&t2), 0);
}

#[test]
fn topic_key_string_joins_provider_channel_symbol() {
    let t = topic("acme", "ticker", "BTCUSD");
    assert_eq!(t.key_string(), "acme.ticker.BTCUSD");
}

#[test]
fn registry_does_not_gate_broadcast() {
    let mut r = MessageRouter::new(4);
    let mut rx = r.subscribe_ticker();
    // no frontend interest registered at all: the message still goes out
    r.route(ticker(7));
    assert!(r.ticker.recv(&mut rx).is_some());
}
