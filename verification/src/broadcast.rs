//! Bounded-lag broadcast stream: one publisher, any number of readers,
//! each with its own cursor.
//!
//! The stream keeps the last `capacity` published messages.  A reader that
//! falls further behind than that skips forward to the oldest retained
//! message and counts how many it lost; the publisher never waits for a
//! reader.  The full publication history is kept as a ghost sequence so
//! the contracts can speak about exactly which message a reader receives.

use vstd::prelude::*;

use crate::types::MarketMessage;

verus! {

/// Saturating addition for the loss counter.
pub open spec fn sat_add(a: u64, b: u64) -> u64 {
    if a + b <= u64::MAX {
        (a + b) as u64
    } else {
        u64::MAX
    }
}

/// A broadcast stream over normalized messages.
///
/// The fields are public so the specifications can speak about them;
/// callers must only mutate a stream through its methods, which preserve
/// `wf`.
pub struct Broadcast {
    /// The retained tail of the history.
    pub buf: Vec<MarketMessage>,
    /// Total number of messages ever published.
    pub head: u64,
    /// Maximum number of retained messages, at least 1.
    pub capacity: usize,
    /// Every message ever published, in order.
    pub hist: Ghost<Seq<MarketMessage>>,
}

/// One reader's position on a stream.
pub struct StreamReader {
    /// Index into the stream history of the next message to receive.
    pub cursor: u64,
    /// How many messages this reader has lost by falling behind.
    pub skipped: u64,
}

impl Broadcast {
    /// The full publication history.
    pub open spec fn history(self) -> Seq<MarketMessage> {
        self.hist@
    }

    /// History index of the oldest retained message.
    pub open spec fn window_start(self) -> int {
        self.history().len() - self.buf@.len()
    }

    /// The history index a reader at `cursor` receives next: its own
    /// cursor, unless the stream has already dropped that message.
    pub open spec fn recv_index(self, cursor: int) -> int {
        if cursor < self.window_start() {
            self.window_start()
        } else {
            cursor
        }
    }

    /// Structural invariant: the buffer is exactly the last
    /// `min(head, capacity)` messages of the history.
    pub open spec fn wf(self) -> bool {
        &&& self.capacity >= 1
        &&& self.head == self.history().len()
        &&& self.buf@.len() == if self.head < self.capacity {
            self.head as int
        } else {
            self.capacity as int
        }
        &&& self.buf@ == self.history().subrange(self.window_start(), self.history().len() as int)
    }

    /// A fresh, empty stream.
    pub fn new(capacity: usize) -> (s: Broadcast)
        requires
            capacity >= 1,
        ensures
            s.wf(),
            s.capacity == capacity,
            s.history() == Seq::<MarketMessage>::empty(),
    {
        let s = Broadcast { buf: Vec::new(), head: 0, capacity, hist: Ghost(Seq::empty()) };
        proof {
            assert(s.buf@ =~= s.history().subrange(
                s.window_start(),
                s.history().len() as int,
            ));
        }
        s
    }

    /// Publish one message.  Never blocks on readers: the oldest retained
    /// message is discarded once the buffer is full.
    pub fn publish(&mut self, m: MarketMessage)
        requires
            old(self).wf(),
            old(self).head < u64::MAX,
        ensures
            final(self).wf(),
            final(self).capacity == old(self).capacity,
            final(self).history() == old(self).history().push(m),
    {
        proof {
            self.hist = Ghost(self.hist@.push(m));
        }
        self.buf.push(m);
        if self.buf.len() > self.capacity {
            self.buf.remove(0);
        }
        self.head = self.head + 1;
        proof {
            assert(self.buf@ =~= self.history().subrange(
                self.window_start(),
                self.history().len() as int,
            ));
        }
    }

    /// A reader attached at the current head: it sees only messages
    /// published from this point forward.
    pub fn reader_at_head(&self) -> (r: StreamReader)
        requires
            self.wf(),
        ensures
            r.cursor == self.history().len(),
            r.skipped == 0,
    {
        StreamReader { cursor: self.head, skipped: 0 }
    }

    /// Receive the next message for `r`, if any.
    ///
    /// Returns the message at `recv_index(r.cursor)` of the history and
    /// advances the cursor past it; a reader that had fallen out of the
    /// retained window skips forward and adds the number of messages lost
    /// to its `skipped` counter.  Returns `None`, changing nothing, when
    /// the reader is already at the head.
    pub fn recv<'a>(&'a self, r: &mut StreamReader) -> (res: Option<&'a MarketMessage>)
        requires
            self.wf(),
        ensures
            old(r).cursor >= self.history().len() ==> {
                &&& res is None
                &&& *final(r) == *old(r)
            },
            old(r).cursor < self.history().len() ==> {
                let i = self.recv_index(old(r).cursor as int);
                &&& res matches Some(m) && *m == self.history()[i]
                &&& final(r).cursor == i + 1
                &&& final(r).skipped == sat_add(old(r).skipped, (i - old(r).cursor) as u64)
            },
    {
        if r.cursor >= self.head {
            return None;
        }
        let low: u64 = self.head - (self.buf.len() as u64);
        let i: u64 = if r.cursor < low {
            let lost: u64 = low - r.cursor;
            r.skipped = if r.skipped <= u64::MAX - lost {
                r.skipped + lost
            } else {
                u64::MAX
            };
            low
        } else {
            r.cursor
        };
        let slot: usize = (i - low) as usize;
        r.cursor = i + 1;
        Some(&self.buf[slot])
    }
}

/// Readers never see messages out of order.
///
/// A first receive, taken with cursor `c1`, delivers the message at
/// history position `recv_index(c1)` and moves the cursor past it.  Any
/// later receive is taken with a cursor `c2` at least that large, on a
/// stream state whose history extends the first one.  The position it
/// delivers from is strictly greater, and the earlier position still
/// holds the same message: deliveries follow publish order, with gaps
/// only where the reader fell out of the window.  Since every reader
/// walks increasing positions of the one shared history, any two
/// attached readers also see the messages they both receive in the same
/// relative order.
pub proof fn lemma_delivery_in_order(s1: Broadcast, s2: Broadcast, c1: int, c2: int)
    requires
        s1.wf(),
        s2.wf(),
        s1.history().len() <= s2.history().len(),
        s1.history() == s2.history().subrange(0, s1.history().len() as int),
        0 <= c1 < s1.history().len(),
        c2 >= s1.recv_index(c1) + 1,
        c2 < s2.history().len(),
    ensures
        s2.recv_index(c2) > s1.recv_index(c1),
        s2.history()[s1.recv_index(c1)] == s1.history()[s1.recv_index(c1)],
{
    assert(s2.history()[s1.recv_index(c1)] == s2.history().subrange(
        0,
        s1.history().len() as int,
    )[s1.recv_index(c1)]);
}

/// Publishing never rewrites what was already published: the old history
/// is a prefix of the new one, so positions already delivered keep their
/// meaning.
pub proof fn lemma_publish_preserves_prefix(s1: Broadcast, s2: Broadcast, m: MarketMessage)
    requires
        s2.history() == s1.history().push(m),
    ensures
        s1.history() == s2.history().subrange(0, s1.history().len() as int),
{
    assert(s1.history() =~= s2.history().subrange(0, s1.history().len() as int));
}

} // verus!
