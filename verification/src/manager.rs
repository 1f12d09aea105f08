//! Provider connection manager: the per-provider lifecycle state
//! machine, its metrics, and its upstream subscription bookkeeping.
//!
//! The manager decides; the transport acts.  `connect` validates the
//! stored configuration and records the transition, emitting lifecycle
//! `Status` messages through the router; the caller that owns the actual
//! network connection opens and closes it around these calls and reports
//! transport failures through `on_transport_error`.  Failures inside a
//! receive loop therefore never surface as caller-visible errors — only
//! as metrics and `Status` messages.

use vstd::pervasive::VecAdditionalExecFns;
use vstd::prelude::*;

use crate::router::MessageRouter;
use crate::types::{
    ConnState, ConnectionMetrics, MarketMessage, ProviderConfig, StatusData,
    WsError,
};

verus! {

/// One upstream subscription of a provider connection.
pub struct SubKey {
    pub symbol: String,
    pub channel: String,
}

/// The spec-level identity of a subscription.
pub open spec fn sub_key(k: SubKey) -> (Seq<char>, Seq<char>) {
    (k.symbol@, k.channel@)
}

/// Some subscription of the list carries this key.
pub open spec fn has_sub(s: Seq<SubKey>, k: (Seq<char>, Seq<char>)) -> bool {
    exists|i: int| 0 <= i < s.len() && sub_key(s[i]) == k
}

/// Subscription lists hold one entry per key.
pub open spec fn subs_unique(s: Seq<SubKey>) -> bool {
    forall|i: int, j: int|
        0 <= i < s.len() && 0 <= j < s.len() && i != j ==> sub_key(s[i]) != sub_key(s[j])
}

impl SubKey {
    /// Field-for-field copy.
    pub fn duplicate(&self) -> (r: SubKey)
        ensures
            r == *self,
    {
        SubKey { symbol: self.symbol.clone(), channel: self.channel.clone() }
    }
}

/// Copy of a subscription list.
fn clone_subs(v: &Vec<SubKey>) -> (r: Vec<SubKey>)
    ensures
        r@ == v@,
{
    let mut out: Vec<SubKey> = Vec::new();
    let mut i: usize = 0;
    while i < v.len()
        invariant
            i <= v.len(),
            out@ =~= v@.take(i as int),
        decreases v.len() - i,
    {
        out.push(v[i].duplicate());
        i = i + 1;
    }
    proof {
        assert(out@ =~= v@);
    }
    out
}

/// Copy of an optional provider configuration.
fn clone_opt_config(c: &Option<ProviderConfig>) -> (r: Option<ProviderConfig>)
    ensures
        r == *c,
{
    match c {
        Some(v) => Some(v.duplicate()),
        None => None,
    }
}

/// Everything the manager holds about one provider.
pub struct ProviderEntry {
    /// Unique key.
    pub name: String,
    /// Last stored configuration; read at connect time.
    pub config: Option<ProviderConfig>,
    pub connected: bool,
    /// Active upstream subscriptions.
    pub subs: Vec<SubKey>,
    pub messages_received: u64,
    pub last_message_at: Option<u64>,
    pub reconnect_count: u64,
    pub error_count: u64,
}

/// The two entries agree on everything but the connection flag and the
/// subscription list.
pub open spec fn entry_like(a: ProviderEntry, b: ProviderEntry) -> bool {
    &&& a.name == b.name
    &&& a.config == b.config
    &&& a.messages_received == b.messages_received
    &&& a.last_message_at == b.last_message_at
    &&& a.reconnect_count == b.reconnect_count
    &&& a.error_count == b.error_count
}

/// Read-only snapshot of an entry's counters.
pub open spec fn metrics_of(e: ProviderEntry) -> ConnectionMetrics {
    ConnectionMetrics {
        provider: e.name,
        connected: e.connected,
        subscribed_topics: e.subs@.len() as u64,
        messages_received: e.messages_received,
        last_message_at: e.last_message_at,
        reconnect_count: e.reconnect_count,
        error_count: e.error_count,
    }
}

impl ProviderEntry {
    /// Snapshot this entry's metrics.
    fn metrics(&self) -> (r: ConnectionMetrics)
        ensures
            r == metrics_of(*self),
    {
        let n = self.subs.len();
        proof {
            assert(n <= usize::MAX);
        }
        ConnectionMetrics {
            provider: self.name.clone(),
            connected: self.connected,
            subscribed_topics: n as u64,
            messages_received: self.messages_received,
            last_message_at: self.last_message_at,
            reconnect_count: self.reconnect_count,
            error_count: self.error_count,
        }
    }
}

/// Some entry carries this provider name.
pub open spec fn has_provider(s: Seq<ProviderEntry>, name: Seq<char>) -> bool {
    exists|i: int| 0 <= i < s.len() && s[i].name@ == name
}

/// Index of the entry for this name (meaningful under `has_provider` and
/// name uniqueness).
pub open spec fn provider_index(s: Seq<ProviderEntry>, name: Seq<char>) -> int {
    choose|i: int| 0 <= i < s.len() && s[i].name@ == name
}

/// The entry for this name.
pub open spec fn provider_of(s: Seq<ProviderEntry>, name: Seq<char>) -> ProviderEntry {
    s[provider_index(s, name)]
}

/// One entry per provider name.
pub open spec fn names_unique(s: Seq<ProviderEntry>) -> bool {
    forall|i: int, j: int|
        0 <= i < s.len() && 0 <= j < s.len() && i != j ==> s[i].name@ != s[j].name@
}

/// Replacing the entry at `i` by one with the same name replaces exactly
/// that provider's entry.
proof fn lemma_provider_update(
    s0: Seq<ProviderEntry>,
    s1: Seq<ProviderEntry>,
    i: int,
    e: ProviderEntry,
)
    requires
        names_unique(s0),
        0 <= i < s0.len(),
        e.name@ == s0[i].name@,
        s1 == s0.update(i, e),
    ensures
        names_unique(s1),
        has_provider(s1, e.name@),
        provider_index(s1, e.name@) == i,
        provider_of(s1, e.name@) == e,
        forall|n: Seq<char>| n != e.name@ ==> has_provider(s1, n) == has_provider(s0, n),
        forall|n: Seq<char>|
            n != e.name@ && has_provider(s0, n) ==> provider_of(s1, n) == provider_of(s0, n),
{
    assert forall|p: int, q: int|
        0 <= p < s1.len() && 0 <= q < s1.len() && p != q implies s1[p].name@ != s1[q].name@ by {
        assert(s1[p].name@ == s0[p].name@);
        assert(s1[q].name@ == s0[q].name@);
    }
    assert(s1[i].name@ == e.name@);
    assert(has_provider(s1, e.name@));
    assert(provider_index(s1, e.name@) == i);
    assert forall|n: Seq<char>| n != e.name@ implies has_provider(s1, n) == has_provider(s0, n) by {
        if has_provider(s1, n) {
            let w = provider_index(s1, n);
            assert(0 <= w < s1.len() && s1[w].name@ == n);
            assert(w != i);
            assert(s0[w].name@ == n);
            assert(has_provider(s0, n));
        }
        if has_provider(s0, n) {
            let w = provider_index(s0, n);
            assert(0 <= w < s0.len() && s0[w].name@ == n);
            assert(w != i);
            assert(s1[w].name@ == n);
            assert(has_provider(s1, n));
        }
    }
    assert forall|n: Seq<char>|
        n != e.name@ && has_provider(s0, n) implies provider_of(s1, n) == provider_of(s0, n) by {
        let w1 = provider_index(s1, n);
        assert(0 <= w1 < s1.len() && s1[w1].name@ == n);
        assert(w1 != i);
        assert(s0[w1].name@ == n);
        let w0 = provider_index(s0, n);
        assert(w0 == w1);
    }
}

/// Appending an entry with a fresh name adds exactly that provider.
proof fn lemma_provider_push(s0: Seq<ProviderEntry>, s1: Seq<ProviderEntry>, e: ProviderEntry)
    requires
        names_unique(s0),
        forall|j: int| 0 <= j < s0.len() ==> s0[j].name@ != e.name@,
        s1 == s0.push(e),
    ensures
        names_unique(s1),
        has_provider(s1, e.name@),
        provider_index(s1, e.name@) == s0.len(),
        provider_of(s1, e.name@) == e,
        forall|n: Seq<char>| n != e.name@ ==> has_provider(s1, n) == has_provider(s0, n),
        forall|n: Seq<char>|
            n != e.name@ && has_provider(s0, n) ==> provider_of(s1, n) == provider_of(s0, n),
{
    assert forall|p: int, q: int|
        0 <= p < s1.len() && 0 <= q < s1.len() && p != q implies s1[p].name@ != s1[q].name@ by {
        if p < s0.len() && q < s0.len() {
            assert(s1[p].name@ == s0[p].name@);
            assert(s1[q].name@ == s0[q].name@);
        } else if p < s0.len() {
            assert(s0[p].name@ != e.name@);
        } else {
            assert(s0[q].name@ != e.name@);
        }
    }
    assert(s1[s0.len() as int].name@ == e.name@);
    assert(has_provider(s1, e.name@));
    assert(provider_index(s1, e.name@) == s0.len());
    assert forall|n: Seq<char>| n != e.name@ implies has_provider(s1, n) == has_provider(s0, n) by {
        if has_provider(s1, n) {
            let w = provider_index(s1, n);
            assert(0 <= w < s1.len() && s1[w].name@ == n);
            assert(w != s0.len());
            assert(s0[w].name@ == n);
            assert(has_provider(s0, n));
        }
        if has_provider(s0, n) {
            let w = provider_index(s0, n);
            assert(s1[w].name@ == s0[w].name@);
            assert(has_provider(s1, n));
        }
    }
    assert forall|n: Seq<char>|
        n != e.name@ && has_provider(s0, n) implies provider_of(s1, n) == provider_of(s0, n) by {
        let w1 = provider_index(s1, n);
        assert(0 <= w1 < s1.len() && s1[w1].name@ == n);
        assert(w1 != s0.len());
        assert(s0[w1].name@ == n);
        let w0 = provider_index(s0, n);
        assert(w0 == w1);
    }
}

/// Appending a subscription with a fresh key adds exactly that key.
proof fn lemma_sub_push(s0: Seq<SubKey>, s1: Seq<SubKey>, k: SubKey)
    requires
        subs_unique(s0),
        !has_sub(s0, sub_key(k)),
        s1 == s0.push(k),
    ensures
        subs_unique(s1),
        has_sub(s1, sub_key(k)),
        forall|k2: (Seq<char>, Seq<char>)|
            k2 != sub_key(k) ==> has_sub(s1, k2) == has_sub(s0, k2),
{
    assert forall|p: int, q: int|
        0 <= p < s1.len() && 0 <= q < s1.len() && p != q implies sub_key(s1[p]) != sub_key(
        s1[q],
    ) by {
        if p < s0.len() && q < s0.len() {
            assert(s1[p] == s0[p]);
            assert(s1[q] == s0[q]);
        } else if p < s0.len() {
            assert(s1[p] == s0[p]);
            assert(sub_key(s0[p]) != sub_key(k));
        } else {
            assert(s1[q] == s0[q]);
            assert(sub_key(s0[q]) != sub_key(k));
        }
    }
    assert(sub_key(s1[s0.len() as int]) == sub_key(k));
    assert(has_sub(s1, sub_key(k)));
    assert forall|k2: (Seq<char>, Seq<char>)|
        k2 != sub_key(k) implies has_sub(s1, k2) == has_sub(s0, k2) by {
        if has_sub(s1, k2) {
            let w = choose|w: int| 0 <= w < s1.len() && sub_key(s1[w]) == k2;
            assert(w != s0.len());
            assert(s1[w] == s0[w]);
            assert(has_sub(s0, k2));
        }
        if has_sub(s0, k2) {
            let w = choose|w: int| 0 <= w < s0.len() && sub_key(s0[w]) == k2;
            assert(s1[w] == s0[w]);
            assert(has_sub(s1, k2));
        }
    }
}

/// Removing the subscription at `j` removes exactly its key.
proof fn lemma_sub_remove(s0: Seq<SubKey>, s1: Seq<SubKey>, j: int)
    requires
        subs_unique(s0),
        0 <= j < s0.len(),
        s1 == s0.remove(j),
    ensures
        subs_unique(s1),
        !has_sub(s1, sub_key(s0[j])),
        forall|k2: (Seq<char>, Seq<char>)|
            k2 != sub_key(s0[j]) ==> has_sub(s1, k2) == has_sub(s0, k2),
        s1.len() == s0.len() - 1,
{
    assert(forall|p: int|
        0 <= p < s1.len() ==> s1[p] == (if p < j {
            s0[p]
        } else {
            s0[p + 1]
        }));
    assert forall|p: int, q: int|
        0 <= p < s1.len() && 0 <= q < s1.len() && p != q implies sub_key(s1[p]) != sub_key(
        s1[q],
    ) by {
        let p0: int = if p < j {
            p
        } else {
            p + 1
        };
        let q0: int = if q < j {
            q
        } else {
            q + 1
        };
        assert(s1[p] == s0[p0]);
        assert(s1[q] == s0[q0]);
    }
    assert forall|w: int| 0 <= w < s1.len() implies sub_key(s1[w]) != sub_key(s0[j]) by {
        let w0: int = if w < j {
            w
        } else {
            w + 1
        };
        assert(s1[w] == s0[w0]);
        assert(w0 != j);
    }
    assert forall|k2: (Seq<char>, Seq<char>)|
        k2 != sub_key(s0[j]) implies has_sub(s1, k2) == has_sub(s0, k2) by {
        if has_sub(s1, k2) {
            let w = choose|w: int| 0 <= w < s1.len() && sub_key(s1[w]) == k2;
            let w0: int = if w < j {
                w
            } else {
                w + 1
            };
            assert(s1[w] == s0[w0]);
            assert(has_sub(s0, k2));
        }
        if has_sub(s0, k2) {
            let w = choose|w: int| 0 <= w < s0.len() && sub_key(s0[w]) == k2;
            assert(w != j);
            let w1: int = if w < j {
                w
            } else {
                w - 1
            };
            assert(s1[w1] == s0[w]);
            assert(has_sub(s1, k2));
        }
    }
}

/// Index of the subscription with this symbol and channel.
fn find_sub(subs: &Vec<SubKey>, symbol: &str, channel: &str) -> (r: Option<usize>)
    requires
        subs_unique(subs@),
    ensures
        r matches Some(j) ==> 0 <= j < subs@.len() && sub_key(subs@[j as int]) == (
            symbol@,
            channel@,
        ),
        r is Some <==> has_sub(subs@, (symbol@, channel@)),
{
    let n = subs.len();
    let mut i: usize = 0;
    while i < n
        invariant
            subs_unique(subs@),
            n == subs@.len(),
            i <= n,
            forall|j: int| 0 <= j < i ==> sub_key(subs@[j]) != (symbol@, channel@),
        decreases n - i,
    {
        if crate::text::str_eq(subs[i].symbol.as_str(), symbol) && crate::text::str_eq(
            subs[i].channel.as_str(),
            channel,
        ) {
            proof {
                assert(sub_key(subs@[i as int]) == (symbol@, channel@));
                assert(has_sub(subs@, (symbol@, channel@)));
            }
            return Some(i);
        }
        i = i + 1;
    }
    proof {
        assert(!has_sub(subs@, (symbol@, channel@)));
    }
    None
}

/// The message is a lifecycle notification with these contents.
pub open spec fn is_status_msg(
    m: MarketMessage,
    provider: Seq<char>,
    st: ConnState,
    ts: u64,
) -> bool {
    m matches MarketMessage::Status(s) && s.provider@ == provider && s.state == st && s.detail
        is None && s.timestamp == ts
}

/// Emit one lifecycle notification on the status stream.
fn emit_status(router: &mut MessageRouter, provider: &str, st: ConnState, now: u64)
    requires
        old(router).wf(),
        old(router).status.head < u64::MAX,
    ensures
        final(router).wf(),
        final(router).status.history().len() == old(router).status.history().len() + 1,
        final(router).status.history().subrange(0, old(router).status.history().len() as int)
            == old(router).status.history(),
        is_status_msg(final(router).status.history().last(), provider@, st, now),
        final(router).status.capacity == old(router).status.capacity,
        final(router).ticker == old(router).ticker,
        final(router).orderbook == old(router).orderbook,
        final(router).trade == old(router).trade,
        final(router).candle == old(router).candle,
        final(router).topics == old(router).topics,
{
    let s = StatusData {
        provider: String::from_str(provider),
        state: st,
        detail: None,
        timestamp: now,
    };
    router.route(MarketMessage::Status(s));
    proof {
        assert(final(router).status.history().subrange(
            0,
            old(router).status.history().len() as int,
        ) =~= old(router).status.history());
    }
}

/// The connection manager: one entry per configured provider.
///
/// The field is public so the specifications can speak about it; callers
/// must only mutate a manager through its methods.
pub struct ConnectionManager {
    pub providers: Vec<ProviderEntry>,
}

impl ConnectionManager {
    pub open spec fn wf(self) -> bool {
        &&& names_unique(self.providers@)
        &&& forall|i: int|
            0 <= i < self.providers@.len() ==> subs_unique(#[trigger] self.providers@[i].subs@)
    }

    /// The entry for this provider, when configured or previously seen.
    pub open spec fn entry(self, name: Seq<char>) -> ProviderEntry {
        provider_of(self.providers@, name)
    }

    /// The provider is known to the manager.
    pub open spec fn knows(self, name: Seq<char>) -> bool {
        has_provider(self.providers@, name)
    }

    /// The provider can be connected: its configuration was stored.
    pub open spec fn configured(self, name: Seq<char>) -> bool {
        self.knows(name) && self.entry(name).config is Some
    }

    /// A manager with no providers.
    pub fn new() -> (r: ConnectionManager)
        ensures
            r.wf(),
            r.providers@.len() == 0,
    {
        ConnectionManager { providers: Vec::new() }
    }

    /// Index of the entry for a provider name.
    fn find(&self, name: &str) -> (r: Option<usize>)
        requires
            self.wf(),
        ensures
            r matches Some(i) ==> 0 <= i < self.providers@.len() && self.providers@[
                i as int
            ].name@ == name@ && provider_index(self.providers@, name@) == i,
            r is Some <==> self.knows(name@),
    {
        let n = self.providers.len();
        let mut i: usize = 0;
        while i < n
            invariant
                self.wf(),
                n == self.providers@.len(),
                i <= n,
                forall|j: int| 0 <= j < i ==> self.providers@[j].name@ != name@,
            decreases n - i,
        {
            if crate::text::str_eq(self.providers[i].name.as_str(), name) {
                proof {
                    assert(has_provider(self.providers@, name@));
                    let w = provider_index(self.providers@, name@);
                    assert(0 <= w < self.providers@.len() && self.providers@[w].name@ == name@);
                    assert(w == i);
                }
                return Some(i);
            }
            i = i + 1;
        }
        proof {
            assert(!has_provider(self.providers@, name@));
        }
        None
    }

    /// Store or replace a provider's configuration.
    ///
    /// Idempotent on repetition, and never touches an open connection:
    /// the new configuration is read at the next (re)connect.
    pub fn set_config(&mut self, config: ProviderConfig)
        requires
            old(self).wf(),
        ensures
            final(self).wf(),
            final(self).knows(config.name@),
            final(self).entry(config.name@).config == Some(config),
            final(self).entry(config.name@).name@ == config.name@,
            old(self).knows(config.name@) ==> {
                let e0 = old(self).entry(config.name@);
                let e1 = final(self).entry(config.name@);
                &&& e1.connected == e0.connected
                &&& e1.subs@ == e0.subs@
                &&& e1.messages_received == e0.messages_received
                &&& e1.last_message_at == e0.last_message_at
                &&& e1.reconnect_count == e0.reconnect_count
                &&& e1.error_count == e0.error_count
            },
            !old(self).knows(config.name@) ==> {
                let e1 = final(self).entry(config.name@);
                &&& !e1.connected
                &&& e1.subs@.len() == 0
                &&& e1.messages_received == 0
                &&& e1.reconnect_count == 0
                &&& e1.error_count == 0
            },
            forall|n: Seq<char>|
                n != config.name@ ==> final(self).knows(n) == old(self).knows(n),
            forall|n: Seq<char>|
                n != config.name@ && old(self).knows(n) ==> final(self).entry(n) == old(self).entry(n),
    {
        let ghost s0 = self.providers@;
        let found = self.find(config.name.as_str());
        match found {
            Some(i) => {
                let e = ProviderEntry {
                    name: self.providers[i].name.clone(),
                    config: Some(config),
                    connected: self.providers[i].connected,
                    subs: clone_subs(&self.providers[i].subs),
                    messages_received: self.providers[i].messages_received,
                    last_message_at: self.providers[i].last_message_at,
                    reconnect_count: self.providers[i].reconnect_count,
                    error_count: self.providers[i].error_count,
                };
                self.providers.set(i, e);
                proof {
                    lemma_provider_update(s0, self.providers@, i as int, e);
                }
            },
            None => {
                let e = ProviderEntry {
                    name: config.name.clone(),
                    config: Some(config),
                    connected: false,
                    subs: Vec::new(),
                    messages_received: 0,
                    last_message_at: None,
                    reconnect_count: 0,
                    error_count: 0,
                };
                self.providers.push(e);
                proof {
                    lemma_provider_push(s0, self.providers@, e);
                }
            },
        }
    }

    /// Open the connection for a provider.
    ///
    /// Fails with `ConfigMissing` exactly when no configuration was
    /// stored for the provider; succeeds as a no-op when the provider is
    /// already connected; otherwise records the connection and emits the
    /// `Connecting` and `Connected` lifecycle notifications.  The
    /// entries of every other provider are untouched.
    pub fn connect(&mut self, provider: &str, router: &mut MessageRouter, now: u64) -> (r: Result<
        (),
        WsError,
    >)
        requires
            old(self).wf(),
            old(router).wf(),
            old(router).status.head + 2 <= u64::MAX,
        ensures
            final(self).wf(),
            final(router).wf(),
            r is Err <==> !old(self).configured(provider@),
            r matches Err(e) ==> e is ConfigMissing && *final(self) == *old(self) && *final(router) == *old(router),
            old(self).configured(provider@) && old(self).entry(provider@).connected ==> *final(self) == *old(self) && *final(router) == *old(router),
            old(self).configured(provider@) && !old(self).entry(provider@).connected ==> ({
                let e0 = old(self).entry(provider@);
                let e1 = final(self).entry(provider@);
                let h0 = old(router).status.history();
                let h1 = final(router).status.history();
                &&& final(self).knows(provider@)
                &&& entry_like(e1, e0)
                &&& e1.subs@ == e0.subs@
                &&& e1.connected
                &&& h1.len() == h0.len() + 2
                &&& h1.subrange(0, h0.len() as int) == h0
                &&& is_status_msg(h1[h0.len() as int], provider@, ConnState::Connecting, now)
                &&& is_status_msg(h1[h0.len() as int + 1], provider@, ConnState::Connected, now)
                &&& final(router).ticker == old(router).ticker
                &&& final(router).orderbook == old(router).orderbook
                &&& final(router).trade == old(router).trade
                &&& final(router).candle == old(router).candle
                &&& final(router).topics == old(router).topics
            }),
            forall|n: Seq<char>| n != provider@ ==> final(self).knows(n) == old(self).knows(n),
            forall|n: Seq<char>|
                n != provider@ && old(self).knows(n) ==> final(self).entry(n) == old(self).entry(
                    n,
                ),
    {
        let found = self.find(provider);
        let i = match found {
            Some(i) => i,
            None => {
                return Err(WsError::ConfigMissing);
            },
        };
        if self.providers[i].config.is_none() {
            return Err(WsError::ConfigMissing);
        }
        if self.providers[i].connected {
            return Ok(());
        }
        let ghost h0 = router.status.history();
        emit_status(router, provider, ConnState::Connecting, now);
        let ghost h1 = router.status.history();
        emit_status(router, provider, ConnState::Connected, now);
        proof {
            let h2 = router.status.history();
            assert(h2.subrange(0, h0.len() as int) =~= h0);
            assert(h2[h0.len() as int] == h1[h0.len() as int]);
        }
        let ghost s0 = self.providers@;
        let e = ProviderEntry {
            name: self.providers[i].name.clone(),
            config: clone_opt_config(&self.providers[i].config),
            connected: true,
            subs: clone_subs(&self.providers[i].subs),
            messages_received: self.providers[i].messages_received,
            last_message_at: self.providers[i].last_message_at,
            reconnect_count: self.providers[i].reconnect_count,
            error_count: self.providers[i].error_count,
        };
        self.providers.set(i, e);
        proof {
            lemma_provider_update(s0, self.providers@, i as int, e);
        }
        Ok(())
    }

    /// Close the connection for a provider.
    ///
    /// A no-op when the provider is unknown or not connected; otherwise
    /// the connection flag is cleared, its upstream subscriptions are
    /// dropped with it, and a `Disconnected` notification is emitted.
    /// The entries of every other provider are untouched, so
    /// disconnecting one provider never disturbs another's metrics,
    /// subscriptions or receive loop.
    pub fn disconnect(&mut self, provider: &str, router: &mut MessageRouter, now: u64) -> (r:
        Result<(), WsError>)
        requires
            old(self).wf(),
            old(router).wf(),
            old(router).status.head < u64::MAX,
        ensures
            final(self).wf(),
            final(router).wf(),
            r is Ok,
            !(old(self).knows(provider@) && old(self).entry(provider@).connected) ==> *final(self) == *old(self) && *final(router) == *old(router),
            old(self).knows(provider@) && old(self).entry(provider@).connected ==> ({
                let e0 = old(self).entry(provider@);
                let e1 = final(self).entry(provider@);
                let h0 = old(router).status.history();
                let h1 = final(router).status.history();
                &&& entry_like(e1, e0)
                &&& !e1.connected
                &&& e1.subs@.len() == 0
                &&& h1.len() == h0.len() + 1
                &&& h1.subrange(0, h0.len() as int) == h0
                &&& is_status_msg(h1[h0.len() as int], provider@, ConnState::Disconnected, now)
                &&& final(router).ticker == old(router).ticker
                &&& final(router).orderbook == old(router).orderbook
                &&& final(router).trade == old(router).trade
                &&& final(router).candle == old(router).candle
                &&& final(router).topics == old(router).topics
            }),
            forall|n: Seq<char>| n != provider@ ==> final(self).knows(n) == old(self).knows(n),
            forall|n: Seq<char>|
                n != provider@ && old(self).knows(n) ==> final(self).entry(n) == old(self).entry(
                    n,
                ),
    {
        let found = self.find(provider);
        let i = match found {
            Some(i) => i,
            None => {
                return Ok(());
            },
        };
        if !self.providers[i].connected {
            return Ok(());
        }
        emit_status(router, provider, ConnState::Disconnected, now);
        let ghost s0 = self.providers@;
        let e = ProviderEntry {
            name: self.providers[i].name.clone(),
            config: clone_opt_config(&self.providers[i].config),
            connected: false,
            subs: Vec::new(),
            messages_received: self.providers[i].messages_received,
            last_message_at: self.providers[i].last_message_at,
            reconnect_count: self.providers[i].reconnect_count,
            error_count: self.providers[i].error_count,
        };
        self.providers.set(i, e);
        proof {
            lemma_provider_update(s0, self.providers@, i as int, e);
        }
        Ok(())
    }

    /// Tear down and reopen a provider's connection in one step, used
    /// for manual recovery and by the reconnect policy.
    ///
    /// Fails with `ConfigMissing` exactly when no configuration was
    /// stored, changing nothing.  Otherwise the provider ends connected
    /// with its reconnect counter advanced; a connection that was open
    /// loses its upstream subscriptions in the teardown, and the
    /// matching lifecycle notifications are emitted.
    pub fn reconnect(&mut self, provider: &str, router: &mut MessageRouter, now: u64) -> (r:
        Result<(), WsError>)
        requires
            old(self).wf(),
            old(router).wf(),
            old(router).status.head + 3 <= u64::MAX,
        ensures
            final(self).wf(),
            final(router).wf(),
            r is Err <==> !old(self).configured(provider@),
            r matches Err(e) ==> e is ConfigMissing && *final(self) == *old(self) && *final(router) == *old(router),
            old(self).configured(provider@) ==> ({
                let e0 = old(self).entry(provider@);
                let e1 = final(self).entry(provider@);
                let h0 = old(router).status.history();
                let h1 = final(router).status.history();
                let base: int = if e0.connected {
                    h0.len() as int + 1
                } else {
                    h0.len() as int
                };
                &&& e1.name == e0.name
                &&& e1.config == e0.config
                &&& e1.connected
                &&& e1.subs@ == if e0.connected {
                    Seq::<SubKey>::empty()
                } else {
                    e0.subs@
                }
                &&& e1.messages_received == e0.messages_received
                &&& e1.last_message_at == e0.last_message_at
                &&& e1.reconnect_count == crate::types::bumped(e0.reconnect_count)
                &&& e1.error_count == e0.error_count
                &&& h1.len() == base + 2
                &&& h1.subrange(0, h0.len() as int) == h0
                &&& e0.connected ==> is_status_msg(
                    h1[h0.len() as int],
                    provider@,
                    ConnState::Disconnected,
                    now,
                )
                &&& is_status_msg(h1[base], provider@, ConnState::Reconnecting, now)
                &&& is_status_msg(h1[base + 1], provider@, ConnState::Connected, now)
                &&& final(router).ticker == old(router).ticker
                &&& final(router).orderbook == old(router).orderbook
                &&& final(router).trade == old(router).trade
                &&& final(router).candle == old(router).candle
                &&& final(router).topics == old(router).topics
            }),
            forall|n: Seq<char>| n != provider@ ==> final(self).knows(n) == old(self).knows(n),
            forall|n: Seq<char>|
                n != provider@ && old(self).knows(n) ==> final(self).entry(n) == old(self).entry(
                    n,
                ),
    {
        let found = self.find(provider);
        let i = match found {
            Some(i) => i,
            None => {
                return Err(WsError::ConfigMissing);
            },
        };
        if self.providers[i].config.is_none() {
            return Err(WsError::ConfigMissing);
        }
        let ghost h0 = router.status.history();
        let was_connected = self.providers[i].connected;
        if was_connected {
            emit_status(router, provider, ConnState::Disconnected, now);
        }
        let ghost hd = router.status.history();
        emit_status(router, provider, ConnState::Reconnecting, now);
        let ghost hr = router.status.history();
        emit_status(router, provider, ConnState::Connected, now);
        proof {
            let h1 = router.status.history();
            assert(h1.subrange(0, h0.len() as int) =~= h0);
            assert(h1[hd.len() as int] == hr[hd.len() as int]);
            if was_connected {
                assert(h1[h0.len() as int] == hr[h0.len() as int]);
                assert(hr[h0.len() as int] == hd[h0.len() as int]);
            }
        }
        let ghost s0 = self.providers@;
        let subs: Vec<SubKey> = if was_connected {
            Vec::new()
        } else {
            clone_subs(&self.providers[i].subs)
        };
        let e = ProviderEntry {
            name: self.providers[i].name.clone(),
            config: clone_opt_config(&self.providers[i].config),
            connected: true,
            subs,
            messages_received: self.providers[i].messages_received,
            last_message_at: self.providers[i].last_message_at,
            reconnect_count: crate::types::bump(self.providers[i].reconnect_count),
            error_count: self.providers[i].error_count,
        };
        self.providers.set(i, e);
        proof {
            lemma_provider_update(s0, self.providers@, i as int, e);
        }
        Ok(())
    }

    /// Register an upstream subscription on an open connection.
    ///
    /// Fails with `NotConnected` exactly when the provider has no open
    /// connection; succeeds as a no-op when the subscription is already
    /// held.  The entries of every other provider are untouched.
    pub fn subscribe(&mut self, provider: &str, symbol: &str, channel: &str) -> (r: Result<
        (),
        WsError,
    >)
        requires
            old(self).wf(),
        ensures
            final(self).wf(),
            r is Err <==> !(old(self).knows(provider@) && old(self).entry(provider@).connected),
            r matches Err(e) ==> e is NotConnected && *final(self) == *old(self),
            r is Ok ==> ({
                let e0 = old(self).entry(provider@);
                let e1 = final(self).entry(provider@);
                let k = (symbol@, channel@);
                &&& entry_like(e1, e0)
                &&& e1.connected
                &&& has_sub(e1.subs@, k)
                &&& forall|k2: (Seq<char>, Seq<char>)|
                    k2 != k ==> has_sub(e1.subs@, k2) == has_sub(e0.subs@, k2)
                &&& has_sub(e0.subs@, k) ==> e1.subs@ == e0.subs@
                &&& !has_sub(e0.subs@, k) ==> e1.subs@.len() == e0.subs@.len() + 1
            }),
            forall|n: Seq<char>| n != provider@ ==> final(self).knows(n) == old(self).knows(n),
            forall|n: Seq<char>|
                n != provider@ && old(self).knows(n) ==> final(self).entry(n) == old(self).entry(
                    n,
                ),
    {
        let found = self.find(provider);
        let i = match found {
            Some(i) => i,
            None => {
                return Err(WsError::NotConnected);
            },
        };
        if !self.providers[i].connected {
            return Err(WsError::NotConnected);
        }
        proof {
            assert(subs_unique(self.providers@[i as int].subs@));
        }
        let ghost s0 = self.providers@;
        let ghost subs0 = self.providers@[i as int].subs@;
        let mut subs = clone_subs(&self.providers[i].subs);
        let had = find_sub(&subs, symbol, channel);
        if had.is_none() {
            subs.push(SubKey { symbol: String::from_str(symbol), channel: String::from_str(channel) });
            proof {
                let k = SubKey {
                    symbol: subs@.last().symbol,
                    channel: subs@.last().channel,
                };
                assert(subs@ == subs0.push(subs@.last()));
                lemma_sub_push(subs0, subs@, subs@.last());
            }
        }
        let e = ProviderEntry {
            name: self.providers[i].name.clone(),
            config: clone_opt_config(&self.providers[i].config),
            connected: true,
            subs,
            messages_received: self.providers[i].messages_received,
            last_message_at: self.providers[i].last_message_at,
            reconnect_count: self.providers[i].reconnect_count,
            error_count: self.providers[i].error_count,
        };
        self.providers.set(i, e);
        proof {
            lemma_provider_update(s0, self.providers@, i as int, e);
        }
        Ok(())
    }

    /// Drop an upstream subscription.
    ///
    /// Fails with `NotConnected` exactly when the provider has no open
    /// connection; succeeds as a no-op when the subscription is not
    /// held.  The entries of every other provider are untouched.
    pub fn unsubscribe(&mut self, provider: &str, symbol: &str, channel: &str) -> (r: Result<
        (),
        WsError,
    >)
        requires
            old(self).wf(),
        ensures
            final(self).wf(),
            r is Err <==> !(old(self).knows(provider@) && old(self).entry(provider@).connected),
            r matches Err(e) ==> e is NotConnected && *final(self) == *old(self),
            r is Ok ==> ({
                let e0 = old(self).entry(provider@);
                let e1 = final(self).entry(provider@);
                let k = (symbol@, channel@);
                &&& entry_like(e1, e0)
                &&& e1.connected
                &&& !has_sub(e1.subs@, k)
                &&& forall|k2: (Seq<char>, Seq<char>)|
                    k2 != k ==> has_sub(e1.subs@, k2) == has_sub(e0.subs@, k2)
                &&& !has_sub(e0.subs@, k) ==> e1.subs@ == e0.subs@
                &&& has_sub(e0.subs@, k) ==> e1.subs@.len() == e0.subs@.len() - 1
            }),
            forall|n: Seq<char>| n != provider@ ==> final(self).knows(n) == old(self).knows(n),
            forall|n: Seq<char>|
                n != provider@ && old(self).knows(n) ==> final(self).entry(n) == old(self).entry(
                    n,
                ),
    {
        let found = self.find(provider);
        let i = match found {
            Some(i) => i,
            None => {
                return Err(WsError::NotConnected);
            },
        };
        if !self.providers[i].connected {
            return Err(WsError::NotConnected);
        }
        proof {
            assert(subs_unique(self.providers@[i as int].subs@));
        }
        let ghost s0 = self.providers@;
        let ghost subs0 = self.providers@[i as int].subs@;
        let mut subs = clone_subs(&self.providers[i].subs);
        let had = find_sub(&subs, symbol, channel);
        match had {
            Some(j) => {
                proof {
                    assert(sub_key(subs0[j as int]) == (symbol@, channel@));
                }
                subs.remove(j);
                proof {
                    lemma_sub_remove(subs0, subs@, j as int);
                }
            },
            None => {},
        }
        let e = ProviderEntry {
            name: self.providers[i].name.clone(),
            config: clone_opt_config(&self.providers[i].config),
            connected: true,
            subs,
            messages_received: self.providers[i].messages_received,
            last_message_at: self.providers[i].last_message_at,
            reconnect_count: self.providers[i].reconnect_count,
            error_count: self.providers[i].error_count,
        };
        self.providers.set(i, e);
        proof {
            lemma_provider_update(s0, self.providers@, i as int, e);
        }
        Ok(())
    }

    /// One message arrived on a provider's connection: count it, stamp
    /// it, and hand it to the router.
    pub fn on_message(&mut self, provider: &str, m: MarketMessage, router: &mut MessageRouter, now: u64)
        requires
            old(self).wf(),
            old(router).wf(),
            old(router).room_for(m),
        ensures
            final(self).wf(),
            final(router).wf(),
            crate::router::routed(*old(router), *final(router), m),
            final(router).topics == old(router).topics,
            !old(self).knows(provider@) ==> *final(self) == *old(self),
            old(self).knows(provider@) ==> ({
                let e0 = old(self).entry(provider@);
                let e1 = final(self).entry(provider@);
                &&& e1.name == e0.name
                &&& e1.config == e0.config
                &&& e1.connected == e0.connected
                &&& e1.subs@ == e0.subs@
                &&& e1.messages_received == crate::types::bumped(e0.messages_received)
                &&& e1.last_message_at == Some(now)
                &&& e1.reconnect_count == e0.reconnect_count
                &&& e1.error_count == e0.error_count
            }),
            forall|n: Seq<char>| n != provider@ ==> final(self).knows(n) == old(self).knows(n),
            forall|n: Seq<char>|
                n != provider@ && old(self).knows(n) ==> final(self).entry(n) == old(self).entry(
                    n,
                ),
    {
        let found = self.find(provider);
        match found {
            Some(i) => {
                let ghost s0 = self.providers@;
                let e = ProviderEntry {
                    name: self.providers[i].name.clone(),
                    config: clone_opt_config(&self.providers[i].config),
                    connected: self.providers[i].connected,
                    subs: clone_subs(&self.providers[i].subs),
                    messages_received: crate::types::bump(self.providers[i].messages_received),
                    last_message_at: Some(now),
                    reconnect_count: self.providers[i].reconnect_count,
                    error_count: self.providers[i].error_count,
                };
                self.providers.set(i, e);
                proof {
                    lemma_provider_update(s0, self.providers@, i as int, e);
                }
            },
            None => {},
        }
        router.route(m);
    }

    /// The receive loop saw a transport error or an unexpected close:
    /// record it, drop the connection state, and emit `ConnectionLost`.
    /// Never a caller-visible error — the reconnect policy decides what
    /// happens next.
    pub fn on_transport_error(
        &mut self,
        provider: &str,
        detail: Option<String>,
        router: &mut MessageRouter,
        now: u64,
    )
        requires
            old(self).wf(),
            old(router).wf(),
            old(router).status.head < u64::MAX,
        ensures
            final(self).wf(),
            final(router).wf(),
            !old(self).knows(provider@) ==> *final(self) == *old(self) && *final(router) == *old(router),
            old(self).knows(provider@) ==> ({
                let e0 = old(self).entry(provider@);
                let e1 = final(self).entry(provider@);
                let h0 = old(router).status.history();
                let h1 = final(router).status.history();
                &&& e1.name == e0.name
                &&& e1.config == e0.config
                &&& !e1.connected
                &&& e1.subs@ == e0.subs@
                &&& e1.messages_received == e0.messages_received
                &&& e1.last_message_at == e0.last_message_at
                &&& e1.reconnect_count == e0.reconnect_count
                &&& e1.error_count == crate::types::bumped(e0.error_count)
                &&& h1.len() == h0.len() + 1
                &&& h1.subrange(0, h0.len() as int) == h0
                &&& (h1.last() matches MarketMessage::Status(st) && st.provider@ == provider@
                    && st.state == ConnState::ConnectionLost && st.detail == detail
                    && st.timestamp == now)
                &&& final(router).ticker == old(router).ticker
                &&& final(router).orderbook == old(router).orderbook
                &&& final(router).trade == old(router).trade
                &&& final(router).candle == old(router).candle
                &&& final(router).topics == old(router).topics
            }),
            forall|n: Seq<char>| n != provider@ ==> final(self).knows(n) == old(self).knows(n),
            forall|n: Seq<char>|
                n != provider@ && old(self).knows(n) ==> final(self).entry(n) == old(self).entry(
                    n,
                ),
    {
        let found = self.find(provider);
        let i = match found {
            Some(i) => i,
            None => {
                return ;
            },
        };
        let st = StatusData {
            provider: String::from_str(provider),
            state: ConnState::ConnectionLost,
            detail,
            timestamp: now,
        };
        router.route(MarketMessage::Status(st));
        proof {
            assert(final(router).status.history().subrange(
                0,
                old(router).status.history().len() as int,
            ) =~= old(router).status.history());
        }
        let ghost s0 = self.providers@;
        let e = ProviderEntry {
            name: self.providers[i].name.clone(),
            config: clone_opt_config(&self.providers[i].config),
            connected: false,
            subs: clone_subs(&self.providers[i].subs),
            messages_received: self.providers[i].messages_received,
            last_message_at: self.providers[i].last_message_at,
            reconnect_count: self.providers[i].reconnect_count,
            error_count: crate::types::bump(self.providers[i].error_count),
        };
        self.providers.set(i, e);
        proof {
            lemma_provider_update(s0, self.providers@, i as int, e);
        }
    }

    /// Read-only snapshot of one provider's counters.
    pub fn get_metrics(&self, provider: &str) -> (r: Option<ConnectionMetrics>)
        requires
            self.wf(),
        ensures
            r is Some <==> self.knows(provider@),
            r matches Some(m) ==> m == metrics_of(self.entry(provider@)),
    {
        let found = self.find(provider);
        match found {
            Some(i) => Some(self.providers[i].metrics()),
            None => None,
        }
    }

    /// Read-only snapshots of every provider's counters, in entry order.
    pub fn get_all_metrics(&self) -> (r: Vec<ConnectionMetrics>)
        requires
            self.wf(),
        ensures
            r@.len() == self.providers@.len(),
            forall|i: int| 0 <= i < r@.len() ==> r@[i] == metrics_of(#[trigger] self.providers@[i]),
    {
        let mut out: Vec<ConnectionMetrics> = Vec::new();
        let n = self.providers.len();
        let mut i: usize = 0;
        while i < n
            invariant
                self.wf(),
                n == self.providers@.len(),
                i <= n,
                out@.len() == i,
                forall|j: int|
                    0 <= j < i ==> out@[j] == metrics_of(#[trigger] self.providers@[j]),
            decreases n - i,
        {
            out.push(self.providers[i].metrics());
            i = i + 1;
        }
        out
    }
}

/// A multiplier raised to a small power.
pub open spec fn pow_of(m: nat, n: nat) -> nat
    decreases n,
{
    if n == 0 {
        1
    } else {
        m * pow_of(m, (n - 1) as nat)
    }
}

/// The reconnect policy's delay before a retry: geometric in the number
/// of attempts already made, starting at `base_ms`, growing by
/// `multiplier`, and capped at `max_ms`.  The retry count itself is
/// unbounded — a provider that stays unreachable keeps retrying at the
/// capped delay forever.
pub open spec fn backoff_spec(base_ms: u64, multiplier: u64, attempt: nat, max_ms: u64) -> int {
    if base_ms * pow_of(multiplier as nat, attempt) <= max_ms {
        base_ms * pow_of(multiplier as nat, attempt)
    } else {
        max_ms as int
    }
}

/// One step of the delay schedule: the next delay is the current one
/// multiplied, unless that would pass the cap, in which case it is the
/// cap.
proof fn lemma_backoff_step(base_ms: u64, multiplier: u64, maxv: u64, n: nat)
    requires
        multiplier >= 1,
    ensures
        ({
            let d = backoff_spec(base_ms, multiplier, n, maxv);
            backoff_spec(base_ms, multiplier, n + 1, maxv) == if d > maxv as int
                / multiplier as int {
                maxv as int
            } else {
                d * multiplier
            }
        }),
        backoff_spec(base_ms, multiplier, n + 1, maxv) <= maxv,
{
    let q = maxv as int / multiplier as int;
    let r = maxv as int % multiplier as int;
    assert(multiplier * q + r == maxv && 0 <= r < multiplier)
        by (nonlinear_arith)
        requires
            multiplier >= 1,
            q == maxv as int / multiplier as int,
            r == maxv as int % multiplier as int,
    ;
    let m = multiplier as nat;
    let p = pow_of(m, n) as int;
    lemma_pow_pos(m, n);
    assert(pow_of(m, n + 1) == m * pow_of(m, n));
    assert(base_ms * p >= 0) by (nonlinear_arith)
        requires
            p >= 0,
    ;
    assert(base_ms * (multiplier * p) == multiplier * (base_ms * p)) by (nonlinear_arith);
    if base_ms * p <= maxv {
        if base_ms * p > q {
            assert(multiplier * (base_ms * p) > maxv)
                by (nonlinear_arith)
                requires
                    base_ms * p > q,
                    multiplier * q + r == maxv,
                    0 <= r < multiplier,
            ;
        } else {
            assert(multiplier * (base_ms * p) <= multiplier * q)
                by (nonlinear_arith)
                requires
                    0 <= base_ms * p <= q,
                    multiplier >= 1,
            ;
        }
    } else {
        assert(multiplier * (base_ms * p) >= base_ms * p)
            by (nonlinear_arith)
            requires
                multiplier >= 1,
                base_ms * p >= 0,
        ;
        if maxv as int <= q {
            assert(maxv as int * multiplier == maxv)
                by (nonlinear_arith)
                requires
                    maxv as int <= q,
                    multiplier * q + r == maxv,
                    0 <= r < multiplier,
                    multiplier >= 1,
            ;
        }
    }
}

/// Compute the capped exponential backoff delay.
pub fn backoff_delay(base_ms: u64, multiplier: u64, attempt: u32, max_ms: u64) -> (r: u64)
    requires
        multiplier >= 1,
    ensures
        r == backoff_spec(base_ms, multiplier, attempt as nat, max_ms),
{
    let mut d: u64 = if base_ms > max_ms {
        max_ms
    } else {
        base_ms
    };
    let mut i: u32 = 0;
    proof {
        assert(pow_of(multiplier as nat, 0) == 1);
    }
    while i < attempt
        invariant
            multiplier >= 1,
            i <= attempt,
            d == backoff_spec(base_ms, multiplier, i as nat, max_ms),
        decreases attempt - i,
    {
        proof {
            lemma_backoff_step(base_ms, multiplier, max_ms, i as nat);
        }
        if d > max_ms / multiplier {
            d = max_ms;
        } else {
            d = d * multiplier;
        }
        i = i + 1;
    }
    d
}

/// Powers of a positive multiplier are positive.
proof fn lemma_pow_pos(m: nat, n: nat)
    requires
        m >= 1,
    ensures
        pow_of(m, n) >= 1,
    decreases n,
{
    if n > 0 {
        lemma_pow_pos(m, (n - 1) as nat);
        assert(m * pow_of(m, (n - 1) as nat) >= 1) by (nonlinear_arith)
            requires
                m >= 1,
                pow_of(m, (n - 1) as nat) >= 1,
        ;
    }
}

} // verus!
