//! Normalized market-data model shared by the router, the connection
//! manager and the monitoring service.
//!
//! Prices, sizes and percentage changes are integer-scaled values (the
//! caller fixes the scale, e.g. ticks or basis points); timestamps are
//! wall-clock milliseconds supplied by the provider or by the caller at
//! ingestion time.

use vstd::prelude::*;

verus! {

/// Bound on every scaled price/size/percentage carried by a message.
/// Keeping all magnitudes strictly below this (a quarter of `i64::MAX`)
/// lets derived quantities such as the bid/ask spread be computed without
/// overflow.
pub const VALUE_LIMIT: i64 = 0x2000_0000_0000_0000;

/// A scaled numeric field is in range for the model.
pub open spec fn in_range(v: i64) -> bool {
    -VALUE_LIMIT < v < VALUE_LIMIT
}

/// An optional scaled numeric field is in range when present.
pub open spec fn opt_in_range(v: Option<i64>) -> bool {
    v matches Some(x) ==> in_range(x)
}

/// One ticker quote from a provider.
pub struct TickerData {
    pub provider: String,
    pub symbol: String,
    pub price: i64,
    pub volume: Option<i64>,
    pub bid: Option<i64>,
    pub ask: Option<i64>,
    pub bid_size: Option<i64>,
    pub ask_size: Option<i64>,
    pub high: Option<i64>,
    pub low: Option<i64>,
    pub open: Option<i64>,
    pub close: Option<i64>,
    pub change: Option<i64>,
    pub change_percent: Option<i64>,
    pub timestamp: u64,
}

impl TickerData {
    /// Every numeric field of the quote is in range and the identifying
    /// strings are present.
    pub open spec fn wf(self) -> bool {
        &&& self.provider@.len() > 0
        &&& self.symbol@.len() > 0
        &&& in_range(self.price)
        &&& opt_in_range(self.volume)
        &&& opt_in_range(self.bid)
        &&& opt_in_range(self.ask)
        &&& opt_in_range(self.bid_size)
        &&& opt_in_range(self.ask_size)
        &&& opt_in_range(self.high)
        &&& opt_in_range(self.low)
        &&& opt_in_range(self.open)
        &&& opt_in_range(self.close)
        &&& opt_in_range(self.change)
        &&& opt_in_range(self.change_percent)
    }

    /// Field-for-field copy.
    pub fn duplicate(&self) -> (r: TickerData)
        ensures
            r == *self,
    {
        TickerData {
            provider: self.provider.clone(),
            symbol: self.symbol.clone(),
            price: self.price,
            volume: self.volume,
            bid: self.bid,
            ask: self.ask,
            bid_size: self.bid_size,
            ask_size: self.ask_size,
            high: self.high,
            low: self.low,
            open: self.open,
            close: self.close,
            change: self.change,
            change_percent: self.change_percent,
            timestamp: self.timestamp,
        }
    }
}

/// One price level of an order book side.
#[derive(Clone, Copy, PartialEq, Eq, Structural, Debug)]
pub struct BookLevel {
    pub price: i64,
    pub size: i64,
}

/// An order-book snapshot.
pub struct OrderBookData {
    pub provider: String,
    pub symbol: String,
    pub bids: Vec<BookLevel>,
    pub asks: Vec<BookLevel>,
    pub timestamp: u64,
}

/// Equality of order-book snapshots, comparing the level vectors by their
/// contents.
pub open spec fn book_eq(a: OrderBookData, b: OrderBookData) -> bool {
    &&& a.provider == b.provider
    &&& a.symbol == b.symbol
    &&& a.bids@ == b.bids@
    &&& a.asks@ == b.asks@
    &&& a.timestamp == b.timestamp
}

/// Copy of a vector of levels.
pub fn clone_levels(v: &Vec<BookLevel>) -> (r: Vec<BookLevel>)
    ensures
        r@ == v@,
{
    let mut out: Vec<BookLevel> = Vec::new();
    let mut i: usize = 0;
    while i < v.len()
        invariant
            i <= v.len(),
            out@ =~= v@.take(i as int),
        decreases v.len() - i,
    {
        out.push(v[i]);
        i = i + 1;
    }
    proof {
        assert(out@ =~= v@);
    }
    out
}

impl OrderBookData {
    /// Field-for-field copy; the level vectors are rebuilt, so the copy is
    /// equal to the original up to their contents.
    pub fn duplicate(&self) -> (r: OrderBookData)
        ensures
            book_eq(r, *self),
    {
        OrderBookData {
            provider: self.provider.clone(),
            symbol: self.symbol.clone(),
            bids: clone_levels(&self.bids),
            asks: clone_levels(&self.asks),
            timestamp: self.timestamp,
        }
    }
}

/// Side of an executed trade.
#[derive(Clone, Copy, PartialEq, Eq, Structural, Debug)]
pub enum TradeSide {
    Buy,
    Sell,
}

/// One executed trade.
pub struct TradeData {
    pub provider: String,
    pub symbol: String,
    pub price: i64,
    pub quantity: i64,
    pub side: Option<TradeSide>,
    pub timestamp: u64,
}

impl TradeData {
    pub fn duplicate(&self) -> (r: TradeData)
        ensures
            r == *self,
    {
        TradeData {
            provider: self.provider.clone(),
            symbol: self.symbol.clone(),
            price: self.price,
            quantity: self.quantity,
            side: self.side,
            timestamp: self.timestamp,
        }
    }
}

/// One aggregated candle.
pub struct CandleData {
    pub provider: String,
    pub symbol: String,
    pub interval: String,
    pub open: i64,
    pub high: i64,
    pub low: i64,
    pub close: i64,
    pub volume: i64,
    pub timestamp: u64,
}

impl CandleData {
    pub fn duplicate(&self) -> (r: CandleData)
        ensures
            r == *self,
    {
        CandleData {
            provider: self.provider.clone(),
            symbol: self.symbol.clone(),
            interval: self.interval.clone(),
            open: self.open,
            high: self.high,
            low: self.low,
            close: self.close,
            volume: self.volume,
            timestamp: self.timestamp,
        }
    }
}

/// Lifecycle state of one provider connection.
#[derive(Clone, Copy, PartialEq, Eq, Structural, Debug)]
pub enum ConnState {
    Connecting,
    Connected,
    Disconnected,
    ConnectionLost,
    Reconnecting,
}

/// A connection lifecycle notification.
pub struct StatusData {
    pub provider: String,
    pub state: ConnState,
    pub detail: Option<String>,
    pub timestamp: u64,
}

impl StatusData {
    pub fn duplicate(&self) -> (r: StatusData)
        ensures
            r == *self,
    {
        let detail = match &self.detail {
            Some(d) => Some(d.clone()),
            None => None,
        };
        StatusData {
            provider: self.provider.clone(),
            state: self.state,
            detail,
            timestamp: self.timestamp,
        }
    }
}

/// A normalized message, tagged by category.
pub enum MarketMessage {
    Ticker(TickerData),
    OrderBook(OrderBookData),
    Trade(TradeData),
    Candle(CandleData),
    Status(StatusData),
}

/// Equality of normalized messages: exact on every variant, up to the
/// contents of the level vectors for order-book snapshots.
pub open spec fn msg_eq(a: MarketMessage, b: MarketMessage) -> bool {
    match a {
        MarketMessage::OrderBook(x) => b matches MarketMessage::OrderBook(y) && book_eq(x, y),
        _ => a == b,
    }
}

impl MarketMessage {
    /// Field-for-field copy, used when handing a buffered message to a
    /// reader while the stream keeps its own.
    pub fn duplicate(&self) -> (r: MarketMessage)
        ensures
            msg_eq(r, *self),
    {
        match self {
            MarketMessage::Ticker(t) => MarketMessage::Ticker(t.duplicate()),
            MarketMessage::OrderBook(b) => MarketMessage::OrderBook(b.duplicate()),
            MarketMessage::Trade(t) => MarketMessage::Trade(t.duplicate()),
            MarketMessage::Candle(c) => MarketMessage::Candle(c.duplicate()),
            MarketMessage::Status(s) => MarketMessage::Status(s.duplicate()),
        }
    }
}

/// Configuration for one provider, keyed by its unique name.
pub struct ProviderConfig {
    pub name: String,
    pub endpoint: String,
    pub api_key: Option<String>,
    pub api_secret: Option<String>,
    pub enabled: bool,
    /// Provider-specific parameters, carried opaquely (e.g. a JSON blob).
    pub params: Option<String>,
}

impl ProviderConfig {
    pub fn duplicate(&self) -> (r: ProviderConfig)
        ensures
            r == *self,
    {
        ProviderConfig {
            name: self.name.clone(),
            endpoint: self.endpoint.clone(),
            api_key: clone_opt_string(&self.api_key),
            api_secret: clone_opt_string(&self.api_secret),
            enabled: self.enabled,
            params: clone_opt_string(&self.params),
        }
    }
}

/// Field-for-field copy of an optional string.
pub fn clone_opt_string(s: &Option<String>) -> (r: Option<String>)
    ensures
        r == *s,
{
    match s {
        Some(v) => Some(v.clone()),
        None => None,
    }
}

/// Read-only per-provider counters, owned by the connection manager.
pub struct ConnectionMetrics {
    pub provider: String,
    pub connected: bool,
    pub subscribed_topics: u64,
    pub messages_received: u64,
    pub last_message_at: Option<u64>,
    pub reconnect_count: u64,
    pub error_count: u64,
}

impl ConnectionMetrics {
    pub fn duplicate(&self) -> (r: ConnectionMetrics)
        ensures
            r == *self,
    {
        ConnectionMetrics {
            provider: self.provider.clone(),
            connected: self.connected,
            subscribed_topics: self.subscribed_topics,
            messages_received: self.messages_received,
            last_message_at: self.last_message_at,
            reconnect_count: self.reconnect_count,
            error_count: self.error_count,
        }
    }
}

/// Saturating increment: counters only ever grow and never wrap.
pub open spec fn bumped(n: u64) -> u64 {
    if n < u64::MAX {
        (n + 1) as u64
    } else {
        n
    }
}

/// Saturating increment, used by the metrics counters.
pub fn bump(n: u64) -> (r: u64)
    ensures
        r == bumped(n),
{
    if n < u64::MAX {
        n + 1
    } else {
        n
    }
}

/// Error taxonomy of the core.
#[derive(Debug)]
pub enum WsError {
    ConfigMissing,
    NotConnected,
    ConnectFailed(String),
    SubscribeFailed(String),
    StoreUnavailable(String),
    InvalidCondition(String),
    SerializationFailed(String),
}

impl WsError {
    /// Human-readable description, used at the process boundary in place
    /// of a `Display` implementation.
    pub fn message(&self) -> (r: String)
        ensures
            *self is ConfigMissing ==> r@ == "provider configuration missing"@,
            *self is NotConnected ==> r@ == "provider not connected"@,
            *self matches WsError::ConnectFailed(d) ==> r@ == "connect failed: "@ + d@,
            *self matches WsError::SubscribeFailed(d) ==> r@ == "subscribe failed: "@ + d@,
            *self matches WsError::StoreUnavailable(d) ==> r@ == "store unavailable: "@ + d@,
            *self matches WsError::InvalidCondition(d) ==> r@ == "invalid condition: "@ + d@,
            *self matches WsError::SerializationFailed(d) ==> r@ == "serialization failed: "@
                + d@,
    {
        match self {
            WsError::ConfigMissing => String::from_str("provider configuration missing"),
            WsError::NotConnected => String::from_str("provider not connected"),
            WsError::ConnectFailed(d) => String::from_str("connect failed: ").concat(d.as_str()),
            WsError::SubscribeFailed(d) => String::from_str("subscribe failed: ").concat(
                d.as_str(),
            ),
            WsError::StoreUnavailable(d) => String::from_str("store unavailable: ").concat(
                d.as_str(),
            ),
            WsError::InvalidCondition(d) => String::from_str("invalid condition: ").concat(
                d.as_str(),
            ),
            WsError::SerializationFailed(d) => String::from_str("serialization failed: ").concat(
                d.as_str(),
            ),
        }
    }
}

} // verus!
