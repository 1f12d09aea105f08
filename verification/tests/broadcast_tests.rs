use fincept_stream::broadcast::Broadcast;
use fincept_stream::types::{MarketMessage, TickerData};

fn ticker(provider: &str, symbol: &str, price: i64) -> TickerData {
    TickerData {
        provider: provider.to_string(),
        symbol: symbol.to_string(),
        price,
        volume: None,
        bid: None,
        ask: None,
        bid_size: None,
        ask_size: None,
        high: None,
        low: None,
        open: None,
        close: None,
        change: None,
        change_percent: None,
        timestamp: 0,
    }
}

fn price_of(m: &MarketMessage) -> i64 {
    match m {
        MarketMessage::Ticker(t) => t.price,
        _ => panic!("expected a ticker"),
    }
}

#[test]
fn readers_see_publish_order() {
    let mut s = Broadcast::new(16);
    let mut r1 = s.reader_at_head();
    let mut r2 = s.reader_at_head();
    for p in [1i64, 2, 3] {
        s.publish(MarketMessage::Ticker(ticker("acme", "BTCUSD", p)));
    }
    let seen1: Vec<i64> = std::iter::from_fn(|| s.recv(&mut r1).map(price_of)).collect();
    assert_eq!(seen1, vec![1, 2, 3]);
    // an independently paced reader sees the same relative order
    assert_eq!(price_of(s.recv(&mut r2).unwrap()), 1);
    s.publish(MarketMessage::Ticker(ticker("acme", "BTCUSD", 4)));
    assert_eq!(price_of(s.recv(&mut r2).unwrap()), 2);
    assert_eq!(price_of(s.recv(&mut r2).unwrap()), 3);
    assert_eq!(price_of(s.recv(&mut r2).unwrap()), 4);
    assert_eq!(r2.skipped, 0);
}

#[test]
fn slow_reader_skips_forward_and_counts_losses() {
    let mut s = Broadcast::new(2);
    let mut r = s.reader_at_head();
    for p in [10i64, 20, 30, 40] {
        s.publish(MarketMessage::Ticker(ticker("acme", "BTCUSD", p)));
    }
    // only the last two are retained; the reader lost the first two
    assert_eq!(price_of(s.recv(&mut r).unwrap()), 30);
    assert_eq!(r.skipped, 2);
    assert_eq!(price_of(s.recv(&mut r).unwrap()), 40);
    assert_eq!(r.skipped, 2);
    assert!(s.recv(&mut r).is_none());
}

#[test]
fn late_reader_sees_only_from_attach_point() {
    let mut s = Broadcast::new(16);
    s.publish(MarketMessage::Ticker(ticker("acme", "BTCUSD", 1)));
    s.publish(MarketMessage::Ticker(ticker("acme", "BTCUSD", 2)));
    let mut r = s.reader_at_head();
    assert!(s.recv(&mut r).is_none());
    s.publish(MarketMessage::Ticker(ticker("acme", "BTCUSD", 3)));
    assert_eq!(price_of(s.recv(&mut r).unwrap()), 3);
    assert!(s.recv(&mut r).is_none());
}

#[test]
fn publisher_never_blocks_on_a_stalled_reader() {
    let mut s = Broadcast::new(1);
    let mut r = s.reader_at_head();
    for p in 0..100i64 {
        s.publish(MarketMessage::Ticker(ticker("acme", "BTCUSD", p)));
    }
    assert_eq!(price_of(s.recv(&mut r).unwrap()), 99);
    assert_eq!(r.skipped, 99);
}
