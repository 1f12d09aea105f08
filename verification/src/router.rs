//! Message router: the single ingestion point for normalized messages.
//!
//! `route` republishes each message on the broadcast stream of its
//! category; every category has independently-paced readers.  The router
//! also keeps the frontend interest registry: a reference count per
//! `(provider, channel, symbol)` topic, consulted by callers deciding
//! whether a provider subscription is still worth keeping.  The registry
//! never gates the broadcast itself.

use vstd::pervasive::VecAdditionalExecFns;
use vstd::prelude::*;

use crate::broadcast::{sat_add, Broadcast, StreamReader};
use crate::types::MarketMessage;

verus! {

/// A subscribable data feed, identified by the triple; uniqueness is on
/// the triple, never on any joined substring.
#[derive(Debug)]
pub struct Topic {
    pub provider: String,
    pub channel: String,
    pub symbol: String,
}

/// The spec-level identity of a topic.
pub type TopicKey = (Seq<char>, Seq<char>, Seq<char>);

/// Key of a topic: the views of its three components.
pub open spec fn topic_key(t: Topic) -> TopicKey {
    (t.provider@, t.channel@, t.symbol@)
}

impl Topic {
    /// Field-for-field copy.
    pub fn duplicate(&self) -> (r: Topic)
        ensures
            r == *self,
    {
        Topic {
            provider: self.provider.clone(),
            channel: self.channel.clone(),
            symbol: self.symbol.clone(),
        }
    }

    /// The derived key string `"{provider}.{channel}.{symbol}"`, as used
    /// on the wire towards clients.
    pub fn key_string(&self) -> (r: String)
        ensures
            r@ == self.provider@ + "."@ + self.channel@ + "."@ + self.symbol@,
    {
        let mut s = self.provider.clone();
        s.append(".");
        s.append(self.channel.as_str());
        s.append(".");
        s.append(self.symbol.as_str());
        s
    }
}

/// Two topics name the same feed.
pub fn topic_eq(a: &Topic, b: &Topic) -> (r: bool)
    ensures
        r == (topic_key(*a) == topic_key(*b)),
{
    let same = a.provider == b.provider && a.channel == b.channel && a.symbol == b.symbol;
    proof {
        if same {
            assert(topic_key(*a) == topic_key(*b));
        }
    }
    same
}

/// One registry entry: a topic and how many frontend subscribers
/// currently want it.
pub struct TopicEntry {
    pub topic: Topic,
    pub count: u64,
}

/// Some entry of the registry carries this key.
pub open spec fn has_topic(s: Seq<TopicEntry>, k: TopicKey) -> bool {
    exists|i: int| 0 <= i < s.len() && topic_key(s[i].topic) == k
}

/// Index of the entry carrying this key (meaningful under `has_topic`
/// and key uniqueness).
pub open spec fn index_of(s: Seq<TopicEntry>, k: TopicKey) -> int {
    choose|i: int| 0 <= i < s.len() && topic_key(s[i].topic) == k
}

/// Units of frontend interest registered for a key: the count of its
/// entry, zero when it has none.
pub open spec fn interest_in(s: Seq<TopicEntry>, k: TopicKey) -> u64 {
    if has_topic(s, k) {
        s[index_of(s, k)].count
    } else {
        0
    }
}

/// Registry invariant: one entry per key.
pub open spec fn registry_wf(s: Seq<TopicEntry>) -> bool {
    forall|i: int, j: int|
        0 <= i < s.len() && 0 <= j < s.len() && i != j ==> topic_key(s[i].topic) != topic_key(
            s[j].topic,
        )
}

/// One unit of interest removed: the count drops by one and stops at
/// zero, so removing interest that was never registered is a no-op.
pub open spec fn dec_interest(c: u64) -> u64 {
    if c > 0 {
        (c - 1) as u64
    } else {
        0
    }
}

/// Removing interest twice from a topic with at most one unit registered
/// ends at zero both times; in particular a second removal right after
/// the first changes nothing and is never an error.
pub proof fn lemma_unsubscribe_idempotent_at_zero(c: u64)
    requires
        c <= 1,
    ensures
        dec_interest(dec_interest(c)) == 0,
        dec_interest(0) == 0,
{
}

/// What one `route` call does: the stream of the message's category gets
/// the message appended to its history, and the other four streams are
/// left exactly as they were.
pub open spec fn routed(before: MessageRouter, after: MessageRouter, m: MarketMessage) -> bool {
    match m {
        MarketMessage::Ticker(_) => {
            &&& after.ticker.history() == before.ticker.history().push(m)
            &&& after.ticker.capacity == before.ticker.capacity
            &&& after.orderbook == before.orderbook
            &&& after.trade == before.trade
            &&& after.candle == before.candle
            &&& after.status == before.status
        },
        MarketMessage::OrderBook(_) => {
            &&& after.orderbook.history() == before.orderbook.history().push(m)
            &&& after.orderbook.capacity == before.orderbook.capacity
            &&& after.ticker == before.ticker
            &&& after.trade == before.trade
            &&& after.candle == before.candle
            &&& after.status == before.status
        },
        MarketMessage::Trade(_) => {
            &&& after.trade.history() == before.trade.history().push(m)
            &&& after.trade.capacity == before.trade.capacity
            &&& after.ticker == before.ticker
            &&& after.orderbook == before.orderbook
            &&& after.candle == before.candle
            &&& after.status == before.status
        },
        MarketMessage::Candle(_) => {
            &&& after.candle.history() == before.candle.history().push(m)
            &&& after.candle.capacity == before.candle.capacity
            &&& after.ticker == before.ticker
            &&& after.orderbook == before.orderbook
            &&& after.trade == before.trade
            &&& after.status == before.status
        },
        MarketMessage::Status(_) => {
            &&& after.status.history() == before.status.history().push(m)
            &&& after.status.capacity == before.status.capacity
            &&& after.ticker == before.ticker
            &&& after.orderbook == before.orderbook
            &&& after.trade == before.trade
            &&& after.candle == before.candle
        },
    }
}

/// The shared broadcast hub.
///
/// The fields are public so the specifications can speak about them;
/// callers must only mutate a router through its methods.
pub struct MessageRouter {
    pub ticker: Broadcast,
    pub orderbook: Broadcast,
    pub trade: Broadcast,
    pub candle: Broadcast,
    pub status: Broadcast,
    pub topics: Vec<TopicEntry>,
}

impl MessageRouter {
    pub open spec fn wf(self) -> bool {
        &&& self.ticker.wf()
        &&& self.orderbook.wf()
        &&& self.trade.wf()
        &&& self.candle.wf()
        &&& self.status.wf()
        &&& registry_wf(self.topics@)
    }

    /// Room for at least one more message on every stream.
    pub open spec fn can_publish(self) -> bool {
        &&& self.ticker.head < u64::MAX
        &&& self.orderbook.head < u64::MAX
        &&& self.trade.head < u64::MAX
        &&& self.candle.head < u64::MAX
        &&& self.status.head < u64::MAX
    }

    /// Room for one more message on the stream this message goes to.
    pub open spec fn room_for(self, m: MarketMessage) -> bool {
        match m {
            MarketMessage::Ticker(_) => self.ticker.head < u64::MAX,
            MarketMessage::OrderBook(_) => self.orderbook.head < u64::MAX,
            MarketMessage::Trade(_) => self.trade.head < u64::MAX,
            MarketMessage::Candle(_) => self.candle.head < u64::MAX,
            MarketMessage::Status(_) => self.status.head < u64::MAX,
        }
    }

    /// A fresh router whose five streams each retain up to `capacity`
    /// messages.
    pub fn new(capacity: usize) -> (r: MessageRouter)
        requires
            capacity >= 1,
        ensures
            r.wf(),
            r.ticker.history() == Seq::<MarketMessage>::empty(),
            r.orderbook.history() == Seq::<MarketMessage>::empty(),
            r.trade.history() == Seq::<MarketMessage>::empty(),
            r.candle.history() == Seq::<MarketMessage>::empty(),
            r.status.history() == Seq::<MarketMessage>::empty(),
            r.topics@.len() == 0,
    {
        MessageRouter {
            ticker: Broadcast::new(capacity),
            orderbook: Broadcast::new(capacity),
            trade: Broadcast::new(capacity),
            candle: Broadcast::new(capacity),
            status: Broadcast::new(capacity),
            topics: Vec::new(),
        }
    }

    /// Dispatch one message to the stream of its category.  The other
    /// streams and the registry are untouched, so no category can delay
    /// or reorder another.
    pub fn route(&mut self, m: MarketMessage)
        requires
            old(self).wf(),
            old(self).room_for(m),
        ensures
            final(self).wf(),
            final(self).topics == old(self).topics,
            routed(*old(self), *final(self), m),
    {
        match &m {
            MarketMessage::Ticker(_) => self.ticker.publish(m),
            MarketMessage::OrderBook(_) => self.orderbook.publish(m),
            MarketMessage::Trade(_) => self.trade.publish(m),
            MarketMessage::Candle(_) => self.candle.publish(m),
            MarketMessage::Status(_) => self.status.publish(m),
        }
    }

    /// A fresh, independently-paced reader over the ticker stream.
    pub fn subscribe_ticker(&self) -> (r: StreamReader)
        requires
            self.wf(),
        ensures
            r.cursor == self.ticker.history().len(),
            r.skipped == 0,
    {
        self.ticker.reader_at_head()
    }

    /// A fresh reader over the order-book stream.
    pub fn subscribe_orderbook(&self) -> (r: StreamReader)
        requires
            self.wf(),
        ensures
            r.cursor == self.orderbook.history().len(),
            r.skipped == 0,
    {
        self.orderbook.reader_at_head()
    }

    /// A fresh reader over the trade stream.
    pub fn subscribe_trade(&self) -> (r: StreamReader)
        requires
            self.wf(),
        ensures
            r.cursor == self.trade.history().len(),
            r.skipped == 0,
    {
        self.trade.reader_at_head()
    }

    /// A fresh reader over the candle stream.
    pub fn subscribe_candle(&self) -> (r: StreamReader)
        requires
            self.wf(),
        ensures
            r.cursor == self.candle.history().len(),
            r.skipped == 0,
    {
        self.candle.reader_at_head()
    }

    /// A fresh reader over the status stream.
    pub fn subscribe_status(&self) -> (r: StreamReader)
        requires
            self.wf(),
        ensures
            r.cursor == self.status.history().len(),
            r.skipped == 0,
    {
        self.status.reader_at_head()
    }

    /// Registered frontend interest in a topic.
    pub fn frontend_interest(&self, t: &Topic) -> (r: u64)
        requires
            self.wf(),
        ensures
            r == interest_in(self.topics@, topic_key(*t)),
    {
        let n = self.topics.len();
        let mut i: usize = 0;
        while i < n
            invariant
                self.wf(),
                n == self.topics@.len(),
                i <= n,
                forall|j: int| 0 <= j < i ==> topic_key(self.topics@[j].topic) != topic_key(*t),
            decreases n - i,
        {
            if topic_eq(&self.topics[i].topic, t) {
                proof {
                    let k = topic_key(*t);
                    assert(has_topic(self.topics@, k));
                    let w = index_of(self.topics@, k);
                    assert(0 <= w < self.topics@.len() && topic_key(self.topics@[w].topic) == k);
                    assert(w == i);
                }
                return self.topics[i].count;
            }
            i = i + 1;
        }
        proof {
            assert(!has_topic(self.topics@, topic_key(*t)));
        }
        0
    }

    /// Register one unit of frontend interest in a topic.
    pub fn subscribe_frontend(&mut self, t: &Topic)
        requires
            old(self).wf(),
        ensures
            final(self).wf(),
            interest_in(final(self).topics@, topic_key(*t)) == sat_add(
                interest_in(old(self).topics@, topic_key(*t)),
                1,
            ),
            forall|k2: TopicKey|
                k2 != topic_key(*t) ==> interest_in(final(self).topics@, k2) == interest_in(
                    old(self).topics@,
                    k2,
                ),
            final(self).ticker == old(self).ticker,
            final(self).orderbook == old(self).orderbook,
            final(self).trade == old(self).trade,
            final(self).candle == old(self).candle,
            final(self).status == old(self).status,
    {
        let ghost k = topic_key(*t);
        let ghost s0 = self.topics@;
        let n = self.topics.len();
        let mut i: usize = 0;
        while i < n
            invariant
                *self == *old(self),
                self.wf(),
                self.topics@ == s0,
                n == s0.len(),
                i <= n,
                forall|j: int| 0 <= j < i ==> topic_key(s0[j].topic) != k,
                k == topic_key(*t),
            decreases n - i,
        {
            if topic_eq(&self.topics[i].topic, t) {
                let c = self.topics[i].count;
                let newc: u64 = if c < u64::MAX {
                    c + 1
                } else {
                    c
                };
                let e = TopicEntry { topic: t.duplicate(), count: newc };
                self.topics.set(i, e);
                proof {
                    let s1 = self.topics@;
                    assert(topic_key(s1[i as int].topic) == k);
                    assert forall|p: int, q: int|
                        0 <= p < s1.len() && 0 <= q < s1.len() && p != q implies topic_key(
                        s1[p].topic,
                    ) != topic_key(s1[q].topic) by {
                        assert(topic_key(s1[p].topic) == topic_key(s0[p].topic));
                        assert(topic_key(s1[q].topic) == topic_key(s0[q].topic));
                    }
                    assert(has_topic(s0, k));
                    assert(index_of(s0, k) == i);
                    assert(has_topic(s1, k));
                    assert(index_of(s1, k) == i);
                    assert(interest_in(s1, k) == sat_add(interest_in(s0, k), 1));
                    assert forall|k2: TopicKey| k2 != k implies interest_in(s1, k2) == interest_in(
                        s0,
                        k2,
                    ) by {
                        if has_topic(s1, k2) {
                            let w1 = index_of(s1, k2);
                            assert(topic_key(s1[w1].topic) == k2);
                            assert(w1 != i);
                            assert(topic_key(s0[w1].topic) == k2);
                            assert(has_topic(s0, k2));
                            let w0 = index_of(s0, k2);
                            assert(topic_key(s0[w0].topic) == k2);
                            assert(w0 == w1);
                        } else {
                            if has_topic(s0, k2) {
                                let w0 = index_of(s0, k2);
                                assert(topic_key(s1[w0].topic) == k2);
                            }
                        }
                    }
                }
                return ;
            }
            i = i + 1;
        }
        let e = TopicEntry { topic: t.duplicate(), count: 1 };
        self.topics.push(e);
        proof {
            let s1 = self.topics@;
            assert(forall|j: int| 0 <= j < s0.len() ==> topic_key(s0[j].topic) != k);
            assert(!has_topic(s0, k));
            assert(topic_key(s1[s0.len() as int].topic) == k);
            assert forall|p: int, q: int|
                0 <= p < s1.len() && 0 <= q < s1.len() && p != q implies topic_key(s1[p].topic)
                != topic_key(s1[q].topic) by {
                if p < s0.len() && q < s0.len() {
                    assert(topic_key(s1[p].topic) == topic_key(s0[p].topic));
                    assert(topic_key(s1[q].topic) == topic_key(s0[q].topic));
                } else if p < s0.len() {
                    assert(topic_key(s0[p].topic) != k);
                } else {
                    assert(topic_key(s0[q].topic) != k);
                }
            }
            assert(has_topic(s1, k));
            assert(index_of(s1, k) == s0.len());
            assert(interest_in(s1, k) == 1);
            assert(interest_in(s0, k) == 0);
            assert forall|k2: TopicKey| k2 != k implies interest_in(s1, k2) == interest_in(
                s0,
                k2,
            ) by {
                if has_topic(s1, k2) {
                    let w1 = index_of(s1, k2);
                    assert(topic_key(s1[w1].topic) == k2);
                    assert(w1 != s0.len());
                    assert(topic_key(s0[w1].topic) == k2);
                    assert(has_topic(s0, k2));
                    let w0 = index_of(s0, k2);
                    assert(w0 == w1);
                } else {
                    if has_topic(s0, k2) {
                        let w0 = index_of(s0, k2);
                        assert(topic_key(s1[w0].topic) == k2);
                    }
                }
            }
        }
    }

    /// Remove one unit of frontend interest in a topic.
    ///
    /// Total and never failing: removing interest from a topic at zero,
    /// or from one never registered, changes nothing, so a second call
    /// right after a first is a harmless no-op.
    pub fn unsubscribe_frontend(&mut self, t: &Topic)
        requires
            old(self).wf(),
        ensures
            final(self).wf(),
            interest_in(final(self).topics@, topic_key(*t)) == dec_interest(
                interest_in(old(self).topics@, topic_key(*t)),
            ),
            forall|k2: TopicKey|
                k2 != topic_key(*t) ==> interest_in(final(self).topics@, k2) == interest_in(
                    old(self).topics@,
                    k2,
                ),
            final(self).ticker == old(self).ticker,
            final(self).orderbook == old(self).orderbook,
            final(self).trade == old(self).trade,
            final(self).candle == old(self).candle,
            final(self).status == old(self).status,
    {
        let ghost k = topic_key(*t);
        let ghost s0 = self.topics@;
        let n = self.topics.len();
        let mut i: usize = 0;
        while i < n
            invariant
                *self == *old(self),
                self.wf(),
                self.topics@ == s0,
                n == s0.len(),
                i <= n,
                forall|j: int| 0 <= j < i ==> topic_key(s0[j].topic) != k,
                k == topic_key(*t),
            decreases n - i,
        {
            if topic_eq(&self.topics[i].topic, t) {
                let c = self.topics[i].count;
                let newc: u64 = if c > 0 {
                    c - 1
                } else {
                    0
                };
                let e = TopicEntry { topic: t.duplicate(), count: newc };
                self.topics.set(i, e);
                proof {
                    let s1 = self.topics@;
                    assert(topic_key(s1[i as int].topic) == k);
                    assert forall|p: int, q: int|
                        0 <= p < s1.len() && 0 <= q < s1.len() && p != q implies topic_key(
                        s1[p].topic,
                    ) != topic_key(s1[q].topic) by {
                        assert(topic_key(s1[p].topic) == topic_key(s0[p].topic));
                        assert(topic_key(s1[q].topic) == topic_key(s0[q].topic));
                    }
                    assert(has_topic(s0, k));
                    assert(index_of(s0, k) == i);
                    assert(has_topic(s1, k));
                    assert(index_of(s1, k) == i);
                    assert(interest_in(s1, k) == dec_interest(interest_in(s0, k)));
                    assert forall|k2: TopicKey| k2 != k implies interest_in(s1, k2) == interest_in(
                        s0,
                        k2,
                    ) by {
                        if has_topic(s1, k2) {
                            let w1 = index_of(s1, k2);
                            assert(topic_key(s1[w1].topic) == k2);
                            assert(w1 != i);
                            assert(topic_key(s0[w1].topic) == k2);
                            assert(has_topic(s0, k2));
                            let w0 = index_of(s0, k2);
                            assert(w0 == w1);
                        } else {
                            if has_topic(s0, k2) {
                                let w0 = index_of(s0, k2);
                                assert(topic_key(s1[w0].topic) == k2);
                            }
                        }
                    }
                }
                return ;
            }
            i = i + 1;
        }
        proof {
            assert(!has_topic(s0, k));
            assert(interest_in(s0, k) == 0);
        }
    }
}

} // verus!
