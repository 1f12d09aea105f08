//! Streaming threshold monitor: evaluates persisted conditions against
//! the live ticker stream and decides which alerts to record.
//!
//! Alerts are edge-triggered: the service remembers, per condition id,
//! whether the condition was satisfied at its last applicable tick, and
//! fires only on the transition from unsatisfied to satisfied, re-arming
//! when the condition turns false again.

use vstd::prelude::*;

use crate::text::str_eq;
use crate::types::TickerData;

verus! {

/// Which ticker field a condition watches.
#[derive(Clone, Copy, PartialEq, Eq, Structural, Debug)]
pub enum MonitorField {
    Price,
    Volume,
    ChangePercent,
    Spread,
}

/// Comparison applied to the watched field.
#[derive(Clone, Copy, PartialEq, Eq, Structural, Debug)]
pub enum MonitorOperator {
    GreaterThan,
    LessThan,
    GreaterThanOrEqual,
    LessThanOrEqual,
    Equal,
    Between,
}

/// Storage token of a field.
pub open spec fn field_token(f: MonitorField) -> Seq<char> {
    match f {
        MonitorField::Price => "price"@,
        MonitorField::Volume => "volume"@,
        MonitorField::ChangePercent => "change_percent"@,
        MonitorField::Spread => "spread"@,
    }
}

/// Parse of a stored field token.
pub open spec fn parse_field(s: Seq<char>) -> Option<MonitorField> {
    if s == "price"@ {
        Some(MonitorField::Price)
    } else if s == "volume"@ {
        Some(MonitorField::Volume)
    } else if s == "change_percent"@ {
        Some(MonitorField::ChangePercent)
    } else if s == "spread"@ {
        Some(MonitorField::Spread)
    } else {
        None
    }
}

/// Storage token of an operator.
pub open spec fn operator_token(op: MonitorOperator) -> Seq<char> {
    match op {
        MonitorOperator::GreaterThan => ">"@,
        MonitorOperator::LessThan => "<"@,
        MonitorOperator::GreaterThanOrEqual => ">="@,
        MonitorOperator::LessThanOrEqual => "<="@,
        MonitorOperator::Equal => "=="@,
        MonitorOperator::Between => "between"@,
    }
}

/// Parse of a stored operator token.
pub open spec fn parse_operator(s: Seq<char>) -> Option<MonitorOperator> {
    if s == ">"@ {
        Some(MonitorOperator::GreaterThan)
    } else if s == "<"@ {
        Some(MonitorOperator::LessThan)
    } else if s == ">="@ {
        Some(MonitorOperator::GreaterThanOrEqual)
    } else if s == "<="@ {
        Some(MonitorOperator::LessThanOrEqual)
    } else if s == "=="@ {
        Some(MonitorOperator::Equal)
    } else if s == "between"@ {
        Some(MonitorOperator::Between)
    } else {
        None
    }
}

impl MonitorField {
    /// The token this field is stored under.
    pub fn as_str(&self) -> (r: &'static str)
        ensures
            r@ == field_token(*self),
    {
        match self {
            MonitorField::Price => "price",
            MonitorField::Volume => "volume",
            MonitorField::ChangePercent => "change_percent",
            MonitorField::Spread => "spread",
        }
    }

    /// Parse a stored token; unknown tokens parse to nothing.
    pub fn from_str(s: &str) -> (r: Option<MonitorField>)
        ensures
            r == parse_field(s@),
    {
        if str_eq(s, "price") {
            Some(MonitorField::Price)
        } else if str_eq(s, "volume") {
            Some(MonitorField::Volume)
        } else if str_eq(s, "change_percent") {
            Some(MonitorField::ChangePercent)
        } else if str_eq(s, "spread") {
            Some(MonitorField::Spread)
        } else {
            None
        }
    }
}

impl MonitorOperator {
    /// The token this operator is stored under.
    pub fn as_str(&self) -> (r: &'static str)
        ensures
            r@ == operator_token(*self),
    {
        match self {
            MonitorOperator::GreaterThan => ">",
            MonitorOperator::LessThan => "<",
            MonitorOperator::GreaterThanOrEqual => ">=",
            MonitorOperator::LessThanOrEqual => "<=",
            MonitorOperator::Equal => "==",
            MonitorOperator::Between => "between",
        }
    }

    /// Parse a stored token; unknown tokens parse to nothing.
    pub fn from_str(s: &str) -> (r: Option<MonitorOperator>)
        ensures
            r == parse_operator(s@),
    {
        if str_eq(s, ">") {
            Some(MonitorOperator::GreaterThan)
        } else if str_eq(s, "<") {
            Some(MonitorOperator::LessThan)
        } else if str_eq(s, ">=") {
            Some(MonitorOperator::GreaterThanOrEqual)
        } else if str_eq(s, "<=") {
            Some(MonitorOperator::LessThanOrEqual)
        } else if str_eq(s, "==") {
            Some(MonitorOperator::Equal)
        } else if str_eq(s, "between") {
            Some(MonitorOperator::Between)
        } else {
            None
        }
    }
}

/// Rendering a field and parsing it back returns the same field.
pub proof fn lemma_field_token_round_trip(f: MonitorField)
    ensures
        parse_field(field_token(f)) == Some(f),
{
    reveal_strlit("price");
    reveal_strlit("volume");
    reveal_strlit("change_percent");
    reveal_strlit("spread");
    assert("price"@.len() == 5);
    assert("volume"@.len() == 6);
    assert("change_percent"@.len() == 14);
    assert("spread"@.len() == 6);
    assert("spread"@[0] == 's');
    assert("volume"@[0] == 'v');
}

/// Rendering an operator and parsing it back returns the same operator.
pub proof fn lemma_operator_token_round_trip(op: MonitorOperator)
    ensures
        parse_operator(operator_token(op)) == Some(op),
{
    reveal_strlit(">");
    reveal_strlit("<");
    reveal_strlit(">=");
    reveal_strlit("<=");
    reveal_strlit("==");
    reveal_strlit("between");
    assert(">"@.len() == 1);
    assert("<"@.len() == 1);
    assert(">="@.len() == 2);
    assert("<="@.len() == 2);
    assert("=="@.len() == 2);
    assert("between"@.len() == 7);
    assert(">"@[0] == '>');
    assert("<"@[0] == '<');
    assert(">="@[0] == '>');
    assert("<="@[0] == '<');
    assert("=="@[0] == '=');
}

/// A persisted threshold condition.
pub struct MonitorCondition {
    /// Assigned by the store; conditions in the live working set carry it.
    pub id: Option<i64>,
    pub provider: String,
    pub symbol: String,
    pub field: MonitorField,
    pub operator: MonitorOperator,
    pub value: i64,
    /// Upper bound, present exactly for `Between`.
    pub value2: Option<i64>,
    pub enabled: bool,
}

impl MonitorCondition {
    /// The upper bound is present exactly when the operator needs it.
    pub open spec fn wf(self) -> bool {
        self.operator is Between <==> self.value2 is Some
    }

    /// Field-for-field copy.
    pub fn duplicate(&self) -> (r: MonitorCondition)
        ensures
            r == *self,
    {
        MonitorCondition {
            id: self.id,
            provider: self.provider.clone(),
            symbol: self.symbol.clone(),
            field: self.field,
            operator: self.operator,
            value: self.value,
            value2: self.value2,
            enabled: self.enabled,
        }
    }
}

/// One recorded alert; immutable once created.
pub struct MonitorAlert {
    /// Assigned by the store on insert; fresh alerts carry none.
    pub id: Option<i64>,
    pub condition_id: i64,
    pub provider: String,
    pub symbol: String,
    pub field: MonitorField,
    pub triggered_value: i64,
    pub triggered_at: u64,
}

impl MonitorAlert {
    /// Field-for-field copy.
    pub fn duplicate(&self) -> (r: MonitorAlert)
        ensures
            r == *self,
    {
        MonitorAlert {
            id: self.id,
            condition_id: self.condition_id,
            provider: self.provider.clone(),
            symbol: self.symbol.clone(),
            field: self.field,
            triggered_value: self.triggered_value,
            triggered_at: self.triggered_at,
        }
    }
}

/// The watched value of a ticker, as an unbounded integer: absent when
/// the ticker does not carry the field.  The spread is `ask - bid`, and
/// only exists when both sides are present.
pub open spec fn extracted(f: MonitorField, t: TickerData) -> Option<int> {
    match f {
        MonitorField::Price => Some(t.price as int),
        MonitorField::Volume => match t.volume {
            Some(v) => Some(v as int),
            None => None,
        },
        MonitorField::ChangePercent => match t.change_percent {
            Some(v) => Some(v as int),
            None => None,
        },
        MonitorField::Spread => match (t.bid, t.ask) {
            (Some(b), Some(a)) => Some(a - b),
            _ => None,
        },
    }
}

/// The watched value as the stored machine integer (meaningful when
/// `extracted` is present; for a well-formed ticker the two agree).
pub open spec fn extracted_val(f: MonitorField, t: TickerData) -> i64 {
    match extracted(f, t) {
        Some(x) => x as i64,
        None => 0,
    }
}

/// Whether the comparison holds of an extracted value.  `Between` is
/// inclusive on both bounds and needs its upper bound present.
pub open spec fn op_holds(op: MonitorOperator, x: int, v: int, v2: Option<i64>) -> bool {
    match op {
        MonitorOperator::GreaterThan => x > v,
        MonitorOperator::LessThan => x < v,
        MonitorOperator::GreaterThanOrEqual => x >= v,
        MonitorOperator::LessThanOrEqual => x <= v,
        MonitorOperator::Equal => x == v,
        MonitorOperator::Between => v2 matches Some(w) && v <= x && x <= w,
    }
}

/// The condition watches this ticker: enabled and on the same provider
/// and symbol.
pub open spec fn cond_applies(c: MonitorCondition, t: TickerData) -> bool {
    c.enabled && c.provider@ == t.provider@ && c.symbol@ == t.symbol@
}

/// The condition's comparison holds of this ticker.  A ticker that does
/// not carry the watched field satisfies nothing.
pub open spec fn cond_satisfied(c: MonitorCondition, t: TickerData) -> bool {
    extracted(c.field, t) matches Some(x) && op_holds(c.operator, x, c.value as int, c.value2)
}

/// Compute the watched value of a ticker.
pub fn extract_value(f: MonitorField, t: &TickerData) -> (r: Option<i64>)
    requires
        t.wf(),
    ensures
        r matches Some(v) ==> extracted(f, *t) == Some(v as int),
        r is None <==> extracted(f, *t) is None,
{
    match f {
        MonitorField::Price => Some(t.price),
        MonitorField::Volume => t.volume,
        MonitorField::ChangePercent => t.change_percent,
        MonitorField::Spread => match (t.bid, t.ask) {
            (Some(b), Some(a)) => Some(a - b),
            _ => None,
        },
    }
}

/// Apply a condition's comparison to an extracted value.
pub fn apply_operator(op: MonitorOperator, x: i64, v: i64, v2: Option<i64>) -> (r: bool)
    ensures
        r == op_holds(op, x as int, v as int, v2),
{
    match op {
        MonitorOperator::GreaterThan => x > v,
        MonitorOperator::LessThan => x < v,
        MonitorOperator::GreaterThanOrEqual => x >= v,
        MonitorOperator::LessThanOrEqual => x <= v,
        MonitorOperator::Equal => x == v,
        MonitorOperator::Between => match v2 {
            Some(w) => v <= x && x <= w,
            None => false,
        },
    }
}

/// Some entry of the trigger-state list carries this condition id.
pub open spec fn has_state(s: Seq<(i64, bool)>, id: i64) -> bool {
    exists|i: int| 0 <= i < s.len() && s[i].0 == id
}

/// Index of the entry for this id (meaningful under `has_state` and key
/// uniqueness).
pub open spec fn state_index(s: Seq<(i64, bool)>, id: i64) -> int {
    choose|i: int| 0 <= i < s.len() && s[i].0 == id
}

/// Trigger-state invariant: one entry per condition id.
pub open spec fn state_keys_unique(s: Seq<(i64, bool)>) -> bool {
    forall|i: int, j: int| 0 <= i < s.len() && 0 <= j < s.len() && i != j ==> s[i].0 != s[j].0
}

/// The trigger-state list as a map from condition id to its last
/// recorded satisfaction.
pub open spec fn to_map(s: Seq<(i64, bool)>) -> Map<i64, bool> {
    Map::new(|id: i64| has_state(s, id), |id: i64| s[state_index(s, id)].1)
}

/// Last recorded satisfaction of a condition id; a condition never yet
/// evaluated counts as unsatisfied, so its first satisfied tick fires.
pub open spec fn last_of(m: Map<i64, bool>, id: i64) -> bool {
    m.dom().contains(id) && m[id]
}

/// This tick records a new satisfaction state for the condition: the
/// condition watches the ticker, the watched field is present, and the
/// condition has a store id to key the state by.
pub open spec fn step_updates(c: MonitorCondition, t: TickerData) -> bool {
    cond_applies(c, t) && extracted(c.field, t) is Some && c.id is Some
}

/// This tick fires the condition: it records a satisfied state while the
/// last recorded state was unsatisfied.
pub open spec fn step_fires(c: MonitorCondition, t: TickerData, m: Map<i64, bool>) -> bool {
    step_updates(c, t) && cond_satisfied(c, t) && !last_of(m, c.id->0)
}

/// Trigger state after evaluating one condition against one tick.
pub open spec fn step_map(c: MonitorCondition, t: TickerData, m: Map<i64, bool>) -> Map<
    i64,
    bool,
> {
    if step_updates(c, t) {
        m.insert(c.id->0, cond_satisfied(c, t))
    } else {
        m
    }
}

/// The alert recorded when a condition fires on a tick.
pub open spec fn alert_of(c: MonitorCondition, t: TickerData, now: u64) -> MonitorAlert {
    MonitorAlert {
        id: None,
        condition_id: c.id->0,
        provider: c.provider,
        symbol: c.symbol,
        field: c.field,
        triggered_value: extracted_val(c.field, t),
        triggered_at: now,
    }
}

/// The alerts one tick produces: the conditions are tried in working-set
/// order, each against the trigger state left by the ones before it.
pub open spec fn alerts_of(
    conds: Seq<MonitorCondition>,
    t: TickerData,
    m: Map<i64, bool>,
    now: u64,
) -> Seq<MonitorAlert>
    decreases conds.len(),
{
    if conds.len() == 0 {
        Seq::empty()
    } else {
        let head: Seq<MonitorAlert> = if step_fires(conds[0], t, m) {
            seq![alert_of(conds[0], t, now)]
        } else {
            Seq::empty()
        };
        head + alerts_of(conds.drop_first(), t, step_map(conds[0], t, m), now)
    }
}

/// The trigger state one tick leaves behind.
pub open spec fn state_after(
    conds: Seq<MonitorCondition>,
    t: TickerData,
    m: Map<i64, bool>,
) -> Map<i64, bool>
    decreases conds.len(),
{
    if conds.len() == 0 {
        m
    } else {
        state_after(conds.drop_first(), t, step_map(conds[0], t, m))
    }
}

/// Last recorded satisfaction for a condition id.
fn get_state(s: &Vec<(i64, bool)>, id: i64) -> (r: bool)
    requires
        state_keys_unique(s@),
    ensures
        r == last_of(to_map(s@), id),
{
    let n = s.len();
    let mut i: usize = 0;
    while i < n
        invariant
            state_keys_unique(s@),
            n == s@.len(),
            i <= n,
            forall|j: int| 0 <= j < i ==> s@[j].0 != id,
        decreases n - i,
    {
        if s[i].0 == id {
            proof {
                assert(has_state(s@, id));
                let w = state_index(s@, id);
                assert(0 <= w < s@.len() && s@[w].0 == id);
                assert(w == i);
            }
            return s[i].1;
        }
        i = i + 1;
    }
    proof {
        assert(!has_state(s@, id));
    }
    false
}

/// Record the satisfaction state of a condition id.
fn set_state(s: &mut Vec<(i64, bool)>, id: i64, val: bool)
    requires
        state_keys_unique(old(s)@),
    ensures
        state_keys_unique(final(s)@),
        to_map(final(s)@) == to_map(old(s)@).insert(id, val),
{
    let ghost s0 = s@;
    let n = s.len();
    let mut i: usize = 0;
    while i < n
        invariant
            s@ == s0,
            s0 == old(s)@,
            state_keys_unique(s0),
            n == s0.len(),
            i <= n,
            forall|j: int| 0 <= j < i ==> s0[j].0 != id,
        decreases n - i,
    {
        if s[i].0 == id {
            s.set(i, (id, val));
            proof {
                let s1 = s@;
                assert(s1[i as int].0 == id);
                assert forall|p: int, q: int|
                    0 <= p < s1.len() && 0 <= q < s1.len() && p != q implies s1[p].0 != s1[q].0 by {
                    assert(s1[p].0 == s0[p].0);
                    assert(s1[q].0 == s0[q].0);
                }
                assert(s1[i as int].0 == id);
                lemma_state_update(s0, s1, i as int, id, val);
            }
            return ;
        }
        i = i + 1;
    }
    s.push((id, val));
    proof {
        let s1 = s@;
        assert(forall|j: int| 0 <= j < s0.len() ==> s0[j].0 != id);
        assert(s1[s0.len() as int].0 == id);
        assert forall|p: int, q: int|
            0 <= p < s1.len() && 0 <= q < s1.len() && p != q implies s1[p].0 != s1[q].0 by {
            if p < s0.len() && q < s0.len() {
                assert(s1[p].0 == s0[p].0);
                assert(s1[q].0 == s0[q].0);
            } else if p < s0.len() {
                assert(s0[p].0 != id);
            } else {
                assert(s0[q].0 != id);
            }
        }
        lemma_state_push(s0, s1, id, val);
    }
}

/// Updating the entry of `id` in place updates exactly its map entry.
proof fn lemma_state_update(s0: Seq<(i64, bool)>, s1: Seq<(i64, bool)>, i: int, id: i64, val: bool)
    requires
        state_keys_unique(s0),
        state_keys_unique(s1),
        0 <= i < s0.len(),
        s0[i].0 == id,
        s1 == s0.update(i, (id, val)),
    ensures
        to_map(s1) == to_map(s0).insert(id, val),
{
    assert forall|x: i64| #[trigger] has_state(s1, x) implies has_state(s0, x) by {
        let w = state_index(s1, x);
        assert(s0[w].0 == s1[w].0);
    }
    assert forall|x: i64| #[trigger] has_state(s0, x) implies has_state(s1, x) by {
        let w = state_index(s0, x);
        assert(s1[w].0 == s0[w].0);
    }
    assert(s1[i].0 == id);
    assert(has_state(s1, id));
    assert(state_index(s1, id) == i);
    assert forall|x: i64| x != id && has_state(s1, x) implies to_map(s1)[x] == to_map(s0)[x] by {
        let w1 = state_index(s1, x);
        assert(0 <= w1 < s1.len() && s1[w1].0 == x);
        assert(w1 != i);
        assert(s0[w1].0 == x);
        let w0 = state_index(s0, x);
        assert(w0 == w1);
        assert(s1[w1].1 == s0[w0].1);
    }
    assert(to_map(s1) =~= to_map(s0).insert(id, val));
}

/// Appending a fresh entry for `id` adds exactly its map entry.
proof fn lemma_state_push(s0: Seq<(i64, bool)>, s1: Seq<(i64, bool)>, id: i64, val: bool)
    requires
        state_keys_unique(s0),
        state_keys_unique(s1),
        forall|j: int| 0 <= j < s0.len() ==> s0[j].0 != id,
        s1 == s0.push((id, val)),
    ensures
        to_map(s1) == to_map(s0).insert(id, val),
{
    assert(s1[s0.len() as int].0 == id);
    assert(has_state(s1, id));
    assert(state_index(s1, id) == s0.len());
    assert forall|x: i64| x != id && #[trigger] has_state(s1, x) implies has_state(s0, x)
        && to_map(s1)[x] == to_map(s0)[x] by {
        let w1 = state_index(s1, x);
        assert(0 <= w1 < s1.len() && s1[w1].0 == x);
        assert(w1 != s0.len());
        assert(s0[w1].0 == x);
        let w0 = state_index(s0, x);
        assert(w0 == w1);
    }
    assert forall|x: i64| #[trigger] has_state(s0, x) implies has_state(s1, x) by {
        let w = state_index(s0, x);
        assert(s1[w].0 == s0[w].0);
    }
    assert(to_map(s1) =~= to_map(s0).insert(id, val));
}

/// The live evaluator: the current working set of conditions and the
/// per-condition trigger state.
///
/// The fields are public so the specifications can speak about them;
/// callers must only mutate a service through its methods.
pub struct MonitoringService {
    /// The working set, replaced wholesale on every reload.
    pub conds: Vec<MonitorCondition>,
    /// Last recorded satisfaction per condition id.
    pub last: Vec<(i64, bool)>,
}

impl MonitoringService {
    pub open spec fn wf(self) -> bool {
        state_keys_unique(self.last@)
    }

    /// A fresh service with nothing to watch.
    pub fn new() -> (s: MonitoringService)
        ensures
            s.wf(),
            s.conds@.len() == 0,
            s.last@.len() == 0,
    {
        MonitoringService { conds: Vec::new(), last: Vec::new() }
    }

    /// Replace the whole working set in one step.
    ///
    /// The new set is installed exactly as given — afterwards the set is
    /// the new one in full, never a mixture of old and new — and the
    /// per-id trigger state is carried over, so conditions that survive a
    /// reload keep their debounce state.
    pub fn install_conditions(&mut self, conds: Vec<MonitorCondition>)
        requires
            old(self).wf(),
        ensures
            final(self).wf(),
            final(self).conds@ == conds@,
            final(self).last == old(self).last,
    {
        self.conds = conds;
    }

    /// Evaluate one incoming ticker against the working set.
    ///
    /// Returns exactly the alerts of the edge-trigger policy: a condition
    /// fires when it watches this ticker, its field is present, its
    /// comparison holds, and its last recorded state was unsatisfied.
    /// The trigger state of every condition whose field was present is
    /// re-recorded; conditions whose field is absent are skipped
    /// untouched.
    pub fn evaluate_ticker(&mut self, t: &TickerData, now: u64) -> (alerts: Vec<MonitorAlert>)
        requires
            old(self).wf(),
            t.wf(),
        ensures
            final(self).wf(),
            final(self).conds == old(self).conds,
            alerts@ == alerts_of(old(self).conds@, *t, to_map(old(self).last@), now),
            to_map(final(self).last@) == state_after(old(self).conds@, *t, to_map(old(self).last@)),
    {
        let ghost conds0 = self.conds@;
        let ghost m0 = to_map(self.last@);
        let mut alerts: Vec<MonitorAlert> = Vec::new();
        let n = self.conds.len();
        let mut i: usize = 0;
        proof {
            assert(conds0.skip(0) =~= conds0);
            assert(alerts@ + alerts_of(conds0, *t, m0, now) =~= alerts_of(conds0, *t, m0, now));
        }
        while i < n
            invariant
                self.wf(),
                t.wf(),
                self.conds == old(self).conds,
                conds0 == self.conds@,
                m0 == to_map(old(self).last@),
                n == conds0.len(),
                i <= n,
                alerts_of(conds0, *t, m0, now) =~= alerts@ + alerts_of(
                    conds0.skip(i as int),
                    *t,
                    to_map(self.last@),
                    now,
                ),
                state_after(conds0, *t, m0) == state_after(
                    conds0.skip(i as int),
                    *t,
                    to_map(self.last@),
                ),
            decreases n - i,
        {
            let ghost mcur = to_map(self.last@);
            let ghost c = conds0[i as int];
            proof {
                assert(conds0.skip(i as int)[0] == c);
                assert(conds0.skip(i as int).drop_first() =~= conds0.skip(i as int + 1));
            }
            let enabled = self.conds[i].enabled;
            let prov_match = self.conds[i].provider == t.provider;
            let sym_match = self.conds[i].symbol == t.symbol;
            let applies = enabled && prov_match && sym_match;
            let ex = extract_value(self.conds[i].field, t);
            match (applies, ex, self.conds[i].id) {
                (true, Some(x), Some(id)) => {
                    proof {
                        assert(step_updates(c, *t));
                        assert(extracted(c.field, *t) == Some(x as int));
                    }
                    let sat = apply_operator(
                        self.conds[i].operator,
                        x,
                        self.conds[i].value,
                        self.conds[i].value2,
                    );
                    let prev = get_state(&self.last, id);
                    if sat && !prev {
                        proof {
                            assert(step_fires(c, *t, mcur));
                        }
                        alerts.push(
                            MonitorAlert {
                                id: None,
                                condition_id: id,
                                provider: self.conds[i].provider.clone(),
                                symbol: self.conds[i].symbol.clone(),
                                field: self.conds[i].field,
                                triggered_value: x,
                                triggered_at: now,
                            },
                        );
                        proof {
                            assert(alerts@.last() == alert_of(c, *t, now));
                        }
                    } else {
                        proof {
                            assert(!step_fires(c, *t, mcur));
                        }
                    }
                    set_state(&mut self.last, id, sat);
                    proof {
                        assert(to_map(self.last@) == step_map(c, *t, mcur));
                    }
                },
                _ => {
                    proof {
                        assert(!step_updates(c, *t));
                        assert(to_map(self.last@) == step_map(c, *t, mcur));
                        assert(!step_fires(c, *t, mcur));
                    }
                },
            }
            i = i + 1;
        }
        proof {
            assert(conds0.skip(n as int) =~= Seq::<MonitorCondition>::empty());
            assert(alerts_of(conds0, *t, m0, now) =~= alerts@);
        }
        alerts
    }
}

/// Every alert of a tick carries the tick's timestamp.
pub proof fn lemma_alert_timestamps(
    conds: Seq<MonitorCondition>,
    t: TickerData,
    m: Map<i64, bool>,
    now: u64,
)
    ensures
        forall|j: int|
            0 <= j < alerts_of(conds, t, m, now).len() ==> #[trigger] alerts_of(
                conds,
                t,
                m,
                now,
            )[j].triggered_at == now,
    decreases conds.len(),
{
    if conds.len() > 0 {
        lemma_alert_timestamps(conds.drop_first(), t, step_map(conds[0], t, m), now);
    }
}

/// If no condition of the set carries a given id, no alert of a tick
/// carries it either.
pub proof fn lemma_no_alert_without_condition(
    conds: Seq<MonitorCondition>,
    t: TickerData,
    m: Map<i64, bool>,
    now: u64,
    id: i64,
)
    requires
        forall|i: int| 0 <= i < conds.len() ==> conds[i].id != Some(id),
    ensures
        forall|j: int|
            0 <= j < alerts_of(conds, t, m, now).len() ==> alerts_of(
                conds,
                t,
                m,
                now,
            )[j].condition_id != id,
    decreases conds.len(),
{
    if conds.len() > 0 {
        let c = conds[0];
        let rest = conds.drop_first();
        assert forall|i: int| 0 <= i < rest.len() implies rest[i].id != Some(id) by {
            assert(rest[i] == conds[i + 1]);
        }
        lemma_no_alert_without_condition(rest, t, step_map(c, t, m), now, id);
        if step_fires(c, t, m) {
            assert(c.id is Some && c.id != Some(id));
            assert(alert_of(c, t, now).condition_id != id);
        }
    }
}

/// Edge-triggered debounce: while a condition's last recorded state is
/// "satisfied", a further tick fires no new alert for it, however many
/// times its comparison still holds; it can fire again only after a tick
/// on which it was recorded unsatisfied.
pub proof fn lemma_no_retrigger(
    conds: Seq<MonitorCondition>,
    t: TickerData,
    m: Map<i64, bool>,
    now: u64,
    id: i64,
)
    requires
        last_of(m, id),
        forall|i: int, j: int|
            0 <= i < conds.len() && 0 <= j < conds.len() && i != j && conds[i].id is Some
                && conds[j].id is Some ==> conds[i].id != conds[j].id,
    ensures
        forall|j: int|
            0 <= j < alerts_of(conds, t, m, now).len() ==> alerts_of(
                conds,
                t,
                m,
                now,
            )[j].condition_id != id,
    decreases conds.len(),
{
    if conds.len() > 0 {
        let c = conds[0];
        let rest = conds.drop_first();
        assert forall|i: int, j: int|
            0 <= i < rest.len() && 0 <= j < rest.len() && i != j && rest[i].id is Some
                && rest[j].id is Some implies rest[i].id != rest[j].id by {
            assert(rest[i] == conds[i + 1]);
            assert(rest[j] == conds[j + 1]);
        }
        if c.id == Some(id) {
            assert(!step_fires(c, t, m));
            assert forall|i: int| 0 <= i < rest.len() implies rest[i].id != Some(id) by {
                assert(rest[i] == conds[i + 1]);
            }
            lemma_no_alert_without_condition(rest, t, step_map(c, t, m), now, id);
        } else {
            assert(last_of(step_map(c, t, m), id));
            lemma_no_retrigger(rest, t, step_map(c, t, m), now, id);
            if step_fires(c, t, m) {
                assert(alert_of(c, t, now).condition_id != id);
            }
        }
    }
}

/// A reload is one atomic swap: a tick evaluated after it is judged
/// against the new set in full — with the carried-over trigger state —
/// never against a mixture of old and new conditions.
pub proof fn lemma_reload_atomic(
    before: MonitoringService,
    after: MonitoringService,
    conds: Seq<MonitorCondition>,
    t: TickerData,
    now: u64,
)
    requires
        after.conds@ == conds,
        after.last == before.last,
    ensures
        alerts_of(after.conds@, t, to_map(after.last@), now) == alerts_of(
            conds,
            t,
            to_map(before.last@),
            now,
        ),
        state_after(after.conds@, t, to_map(after.last@)) == state_after(
            conds,
            t,
            to_map(before.last@),
        ),
{
}

} // verus!
