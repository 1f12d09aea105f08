use fincept_stream::broadcast::Broadcast;
use fincept_stream::gateway::{event_tag_str, forward_next, OutboundQueue};
use fincept_stream::types::{
    CandleData, MarketMessage, OrderBookData, StatusData, TickerData, TradeData, ConnState,
};

fn ticker(price: i64) -> MarketMessage {
    MarketMessage::Ticker(TickerData {
        provider: "acme".to_string(),
        symbol: "BTCUSD".to_string(),
        price,
        volume: None,
        bid: None,
        ask: None,
        bid_size: None,
        ask_size: None,
        high: None,
        low: None,
        open: None,
        close: None,
        change: None,
        change_percent: None,
        timestamp: 0,
    })
}

#[test]
fn event_tags_match_the_wire_protocol() {
    assert_eq!(event_tag_str(&ticker(1)), "ws_ticker");
    assert_eq!(
        event_tag_str(&MarketMessage::OrderBook(OrderBookData {
            provider: "acme".to_string(),
            symbol: "BTCUSD".to_string(),
            bids: vec![],
            asks: vec![],
            timestamp: 0,
        })),
        "ws_orderbook"
    );
    assert_eq!(
        event_tag_str(&MarketMessage::Trade(TradeData {
            provider: "acme".to_string(),
            symbol: "BTCUSD".to_string(),
            price: 1,
            quantity: 1,
            side: None,
            timestamp: 0,
        })),
        "ws_trade"
    );
    assert_eq!(
        event_tag_str(&MarketMessage::Candle(CandleData {
            provider: "acme".to_string(),
            symbol: "BTCUSD".to_string(),
            interval: "1m".to_string(),
            open: 1,
            high: 2,
            low: 0,
            close: 1,
            volume: 5,
            timestamp: 0,
        })),
        "ws_candle"
    );
    assert_eq!(
        event_tag_str(&MarketMessage::Status(StatusData {
            provider: "acme".to_string(),
            state: ConnState::Connected,
            detail: None,
            timestamp: 0,
        })),
        "ws_status"
    );
}

#[test]
fn full_queue_drops_and_counts_instead_of_blocking() {
    let mut q = OutboundQueue::new(2);
    assert!(q.offer(ticker(1)));
    assert!(q.offer(ticker(2)));
    assert!(!q.offer(ticker(3)));
    assert!(!q.offer(ticker(4)));
    assert_eq!(q.dropped, 2);
    assert_eq!(q.queued(), 2);
    match q.take_next().unwrap() {
        MarketMessage::Ticker(t) => assert_eq!(t.price, 1),
        _ => panic!("wrong message"),
    }
    assert!(q.offer(ticker(5)));
    match q.take_next().unwrap() {
        MarketMessage::Ticker(t) => assert_eq!(t.price, 2),
        _ => panic!("wrong message"),
    }
    match q.take_next().unwrap() {
        MarketMessage::Ticker(t) => assert_eq!(t.price, 5),
        _ => panic!("wrong message"),
    }
    assert!(q.take_next().is_none());
}

#[test]
fn forwarding_copies_the_stream_into_the_client_queue() {
    let mut s = Broadcast::new(8);
    let mut r = s.reader_at_head();
    let mut q = OutboundQueue::new(1);
    assert!(!forward_next(&s, &mut r, &mut q), "nothing published yet");
    s.publish(ticker(7));
    s.publish(ticker(8));
    assert!(forward_next(&s, &mut r, &mut q));
    // the client queue is full now: the second forward drops its copy
    assert!(forward_next(&s, &mut r, &mut q));
    assert_eq!(q.dropped, 1);
    match q.take_next().unwrap() {
        MarketMessage::Ticker(t) => assert_eq!(t.price, 7),
        _ => panic!("wrong message"),
    }
    // the reader still advanced past both: no replay
    assert!(!forward_next(&s, &mut r, &mut q));
}
