//! Distribution gateway support: what a per-client forwarder needs from
//! this core — the wire event tag of each message category and the
//! bounded outbound queue whose send never blocks, dropping (and
//! counting) the message instead when the client is too slow.

use vstd::prelude::*;

use crate::broadcast::{Broadcast, StreamReader};
use crate::types::{bumped, msg_eq, MarketMessage};

verus! {

/// The `event` discriminator a client sees for a message category.
pub open spec fn event_tag(m: MarketMessage) -> Seq<char> {
    match m {
        MarketMessage::Ticker(_) => "ws_ticker"@,
        MarketMessage::OrderBook(_) => "ws_orderbook"@,
        MarketMessage::Trade(_) => "ws_trade"@,
        MarketMessage::Candle(_) => "ws_candle"@,
        MarketMessage::Status(_) => "ws_status"@,
    }
}

/// The wire event tag of a message.
pub fn event_tag_str(m: &MarketMessage) -> (r: &'static str)
    ensures
        r@ == event_tag(*m),
{
    match m {
        MarketMessage::Ticker(_) => "ws_ticker",
        MarketMessage::OrderBook(_) => "ws_orderbook",
        MarketMessage::Trade(_) => "ws_trade",
        MarketMessage::Candle(_) => "ws_candle",
        MarketMessage::Status(_) => "ws_status",
    }
}

/// One client's bounded outbound queue.
///
/// The fields are public so the specifications can speak about them;
/// callers must only mutate a queue through its methods.
pub struct OutboundQueue {
    /// Queued messages, oldest first.
    pub buf: Vec<MarketMessage>,
    /// Maximum queued messages, at least 1.
    pub capacity: usize,
    /// How many messages were dropped against a full queue.
    pub dropped: u64,
}

impl OutboundQueue {
    pub open spec fn wf(self) -> bool {
        &&& self.capacity >= 1
        &&& self.buf@.len() <= self.capacity
    }

    /// An empty queue for one client.
    pub fn new(capacity: usize) -> (q: OutboundQueue)
        requires
            capacity >= 1,
        ensures
            q.wf(),
            q.capacity == capacity,
            q.buf@.len() == 0,
            q.dropped == 0,
    {
        OutboundQueue { buf: Vec::new(), capacity, dropped: 0 }
    }

    /// Non-blocking send: enqueue the message, or — against a full
    /// queue — drop it and count the loss, protecting every other
    /// client from this one's backlog.
    pub fn offer(&mut self, m: MarketMessage) -> (accepted: bool)
        requires
            old(self).wf(),
        ensures
            final(self).wf(),
            final(self).capacity == old(self).capacity,
            accepted == (old(self).buf@.len() < old(self).capacity),
            accepted ==> final(self).buf@ == old(self).buf@.push(m) && final(self).dropped == old(self).dropped,
            !accepted ==> final(self).buf == old(self).buf && final(self).dropped == bumped(
                old(self).dropped,
            ),
    {
        if self.buf.len() < self.capacity {
            self.buf.push(m);
            true
        } else {
            self.dropped = crate::types::bump(self.dropped);
            false
        }
    }

    /// Take the oldest queued message.
    pub fn take_next(&mut self) -> (r: Option<MarketMessage>)
        requires
            old(self).wf(),
        ensures
            final(self).wf(),
            final(self).capacity == old(self).capacity,
            final(self).dropped == old(self).dropped,
            old(self).buf@.len() == 0 ==> r is None && final(self).buf == old(self).buf,
            old(self).buf@.len() > 0 ==> r == Some(old(self).buf@[0]) && final(self).buf@ == old(self).buf@.drop_first(),
    {
        if self.buf.len() == 0 {
            None
        } else {
            let m = self.buf.remove(0);
            proof {
                assert(final(self).buf@ =~= old(self).buf@.drop_first());
            }
            Some(m)
        }
    }

    /// How many queued messages are waiting.
    pub fn queued(&self) -> (r: usize)
        ensures
            r == self.buf@.len(),
    {
        self.buf.len()
    }
}

/// Forward one broadcast message towards a client: receive the next
/// message the reader is due, and offer a copy to the client's queue.
/// Returns whether a message was received; a full queue drops the copy
/// and counts it, never blocking the fan-out.
pub fn forward_next(
    stream: &Broadcast,
    r: &mut StreamReader,
    q: &mut OutboundQueue,
) -> (got: bool)
    requires
        stream.wf(),
        old(q).wf(),
    ensures
        final(q).wf(),
        got == (old(r).cursor < stream.history().len()),
        !got ==> *final(r) == *old(r) && *final(q) == *old(q),
        got ==> ({
            let i = stream.recv_index(old(r).cursor as int);
            &&& final(r).cursor == i + 1
            &&& (old(q).buf@.len() < old(q).capacity ==> final(q).buf@.len() == old(q).buf@.len() + 1 && msg_eq(final(q).buf@.last(), stream.history()[i]) && final(q).dropped == old(q).dropped)
            &&& (old(q).buf@.len() >= old(q).capacity ==> final(q).buf == old(q).buf && final(q).dropped == bumped(old(q).dropped))
        }),
{
    let next = stream.recv(r);
    match next {
        Some(m) => {
            let copy = m.duplicate();
            q.offer(copy);
            true
        },
        None => false,
    }
}

} // verus!
