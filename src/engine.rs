//! The execution engine's decisions: validation, pre-trade risk, venue
//! routing, order-state bookkeeping and the position ledger.
//!
//! Venue calls and rate-limit waits are made by the caller between the steps
//! below: `check_submission`, wait on the venue's limiter, `begin_submission`,
//! place the order, then `apply_order_ack`; likewise `begin_cancel`, cancel at
//! the venue, `apply_cancel_ack`. A placement that fails at the venue leaves
//! the order `Submitting` until its status is reconciled with `apply_status`.
use vstd::prelude::*;
use vstd::string::*;
use crate::decimal::abs;
use crate::error::ExecError;
use crate::order::{status_terminal, status_change_allowed, CancelAck, Fill, Order, OrderAck, OrderId, OrderStatus, Side, VenueId};
use crate::risk::{texts, RiskContext, RiskEngine};
use crate::tracker::{selected, OrderTracker, Selection};
use crate::text::string_eq;
use crate::validator::OrderValidator;

verus! {

/// Switches of the execution path.
#[derive(Debug, Clone, Copy, PartialEq, Eq, Structural)]
pub struct ExecutionEngineConfig {
    pub enable_risk_checks: bool,
    pub enable_validation: bool,
    pub enable_metrics: bool,
}

impl Default for ExecutionEngineConfig {
    fn default() -> (r: ExecutionEngineConfig)
        ensures
            r.enable_risk_checks && r.enable_validation && r.enable_metrics,
    {
        ExecutionEngineConfig { enable_risk_checks: true, enable_validation: true, enable_metrics: true }
    }
}

/// Net position of `market` in `s` (zero when absent).
pub open spec fn position_in(s: Seq<(String, i64)>, market: Seq<char>) -> int
    decreases s.len(),
{
    if s.len() == 0 {
        0
    } else if s.last().0@ == market {
        s.last().1 as int
    } else {
        position_in(s.drop_last(), market)
    }
}

/// Sum of the net positions.
pub open spec fn net_total(s: Seq<(String, i64)>) -> int
    decreases s.len(),
{
    if s.len() == 0 {
        0
    } else {
        net_total(s.drop_last()) + s.last().1
    }
}

/// Sum of the absolute positions.
pub open spec fn gross_total(s: Seq<(String, i64)>) -> int
    decreases s.len(),
{
    if s.len() == 0 {
        0
    } else {
        gross_total(s.drop_last()) + abs(s.last().1 as int)
    }
}

pub open spec fn keys_unique(s: Seq<(String, i64)>) -> bool {
    forall|i: int, j: int| 0 <= i < j < s.len() ==> (#[trigger] s[i]).0@ != (#[trigger] s[j]).0@
}

proof fn lemma_position_at(s: Seq<(String, i64)>, i: int)
    requires
        keys_unique(s),
        0 <= i < s.len(),
    ensures
        position_in(s, s[i].0@) == s[i].1,
    decreases s.len(),
{
    if i < s.len() - 1 {
        assert(s[i].0@ != s[s.len() - 1].0@);
        assert(s.drop_last()[i] == s[i]);
        lemma_position_at(s.drop_last(), i);
    }
}

proof fn lemma_position_absent(s: Seq<(String, i64)>, m: Seq<char>)
    requires
        forall|i: int| 0 <= i < s.len() ==> (#[trigger] s[i]).0@ != m,
    ensures
        position_in(s, m) == 0,
    decreases s.len(),
{
    if s.len() > 0 {
        assert(s[s.len() - 1].0@ != m);
        assert forall|i: int| 0 <= i < s.drop_last().len() implies (#[trigger] s.drop_last()[i]).0@ != m by {
            assert(s.drop_last()[i] == s[i]);
        }
        lemma_position_absent(s.drop_last(), m);
    }
}

proof fn lemma_update_totals(s: Seq<(String, i64)>, i: int, v: i64)
    requires
        0 <= i < s.len(),
    ensures
        net_total(s.update(i, (s[i].0, v))) == net_total(s) - s[i].1 + v,
        gross_total(s.update(i, (s[i].0, v))) == gross_total(s) - abs(s[i].1 as int) + abs(v as int),
    decreases s.len(),
{
    let t = s.update(i, (s[i].0, v));
    if i < s.len() - 1 {
        assert(t.drop_last() =~= s.drop_last().update(i, (s[i].0, v)));
        assert(s.drop_last()[i] == s[i]);
        lemma_update_totals(s.drop_last(), i, v);
    } else {
        assert(t.drop_last() =~= s.drop_last());
    }
}

proof fn lemma_update_position(s: Seq<(String, i64)>, i: int, v: i64, m: Seq<char>)
    requires
        0 <= i < s.len(),
        keys_unique(s),
    ensures
        position_in(s.update(i, (s[i].0, v)), m) == if m == s[i].0@ { v as int } else { position_in(s, m) },
    decreases s.len(),
{
    let t = s.update(i, (s[i].0, v));
    if i < s.len() - 1 {
        assert(t.drop_last() =~= s.drop_last().update(i, (s[i].0, v)));
        assert(s.drop_last()[i] == s[i]);
        assert(s[i].0@ != s[s.len() - 1].0@);
        assert(t.last() == s.last());
        lemma_update_position(s.drop_last(), i, v, m);
    } else {
        assert(t.drop_last() =~= s.drop_last());
    }
}

proof fn lemma_push_totals(s: Seq<(String, i64)>, k: String, v: i64)
    requires
        forall|i: int| 0 <= i < s.len() ==> (#[trigger] s[i]).0@ != k@,
    ensures
        net_total(s.push((k, v))) == net_total(s) + v,
        gross_total(s.push((k, v))) == gross_total(s) + abs(v as int),
        forall|m: Seq<char>| position_in(s.push((k, v)), m) == if m == k@ { v as int } else { position_in(s, m) },
{
    assert(s.push((k, v)).drop_last() =~= s);
}

proof fn lemma_gross_bounds_net(s: Seq<(String, i64)>)
    ensures
        abs(net_total(s)) <= gross_total(s),
        0 <= gross_total(s),
    decreases s.len(),
{
    if s.len() > 0 {
        lemma_gross_bounds_net(s.drop_last());
    }
}

proof fn lemma_gross_bounds_entry(s: Seq<(String, i64)>, i: int)
    requires
        0 <= i < s.len(),
    ensures
        abs(s[i].1 as int) <= gross_total(s),
    decreases s.len(),
{
    lemma_gross_bounds_net(s.drop_last());
    if i < s.len() - 1 {
        assert(s.drop_last()[i] == s[i]);
        lemma_gross_bounds_entry(s.drop_last(), i);
    }
}

/// Net position per market, as moved by fills.
pub struct PositionLedger {
    entries: Vec<(String, i64)>,
}

impl PositionLedger {
    pub closed spec fn entries(&self) -> Seq<(String, i64)> {
        self.entries@
    }

    /// Markets are unique and the gross exposure fits in an `i64`.
    pub open spec fn inv(&self) -> bool {
        keys_unique(self.entries()) && gross_total(self.entries()) <= i64::MAX
    }

    pub open spec fn position(&self, market: Seq<char>) -> int {
        position_in(self.entries(), market)
    }

    pub open spec fn net(&self) -> int {
        net_total(self.entries())
    }

    pub fn new() -> (r: PositionLedger)
        ensures
            r.inv(),
            forall|m: Seq<char>| r.position(m) == 0,
            r.net() == 0,
    {
        PositionLedger { entries: Vec::new() }
    }

    fn find(&self, market: &str) -> (r: Option<usize>)
        requires
            self.inv(),
        ensures
            r is None ==> forall|i: int| 0 <= i < self.entries().len() ==> (#[trigger] self.entries()[i]).0@ != market@,
            r is Some ==> r->0 < self.entries().len() && self.entries()[r->0 as int].0@ == market@,
    {
        let mut i: usize = 0;
        while i < self.entries.len()
            invariant
                i <= self.entries@.len(),
                forall|k: int| 0 <= k < i ==> (#[trigger] self.entries@[k]).0@ != market@,
            decreases self.entries.len() - i,
        {
            if string_eq(&self.entries[i].0, market) {
                return Some(i);
            }
            i += 1;
        }
        None
    }

    /// Net position of `market`, zero when it has none.
    pub fn get(&self, market: &str) -> (r: i64)
        requires
            self.inv(),
        ensures
            r == self.position(market@),
    {
        match self.find(market) {
            Some(i) => {
                proof {
                    lemma_position_at(self.entries(), i as int);
                }
                self.entries[i].1
            },
            None => {
                proof {
                    lemma_position_absent(self.entries(), market@);
                }
                0
            },
        }
    }

    /// Sum of the net positions over all markets.
    pub fn net_sum(&self) -> (r: i64)
        requires
            self.inv(),
        ensures
            r == self.net(),
    {
        let mut total: i128 = 0;
        let mut i: usize = 0;
        proof {
            lemma_gross_prefix(self.entries@, 0);
        }
        while i < self.entries.len()
            invariant
                self.inv(),
                i <= self.entries@.len(),
                total == net_total(self.entries@.subrange(0, i as int)),
                abs(total as int) <= gross_total(self.entries@.subrange(0, i as int)),
                gross_total(self.entries@.subrange(0, i as int)) <= gross_total(self.entries@),
            decreases self.entries.len() - i,
        {
            proof {
                let s = self.entries@;
                assert(s.subrange(0, i + 1).drop_last() =~= s.subrange(0, i as int));
                lemma_gross_bounds_net(s.subrange(0, i + 1));
                lemma_gross_prefix(s, i + 1);
            }
            total = total + self.entries[i].1 as i128;
            i += 1;
        }
        assert(self.entries@.subrange(0, self.entries@.len() as int) =~= self.entries@);
        total as i64
    }

    /// Adds `delta` to the position of `market`, unless the gross exposure
    /// would no longer fit; returns whether it did.
    pub fn add(&mut self, market: &str, delta: i64) -> (r: bool)
        requires
            old(self).inv(),
        ensures
            final(self).inv(),
            r == (abs(old(self).position(market@) + delta) - abs(old(self).position(market@)) + gross_total(old(self).entries()) <= i64::MAX
                && old(self).position(market@) + delta >= i64::MIN),
            r ==> forall|m: Seq<char>|
                final(self).position(m) == if m == market@ {
                    old(self).position(m) + delta
                } else {
                    old(self).position(m)
                },
            r ==> final(self).net() == old(self).net() + delta,
            !r ==> final(self).entries() == old(self).entries(),
    {
        let gross = self.gross_sum();
        let current = self.get(market);
        let next = current as i128 + delta as i128;
        let cur_abs: i128 = if current < 0 { -(current as i128) } else { current as i128 };
        let next_abs: i128 = if next < 0 { -next } else { next };
        if next < i64::MIN as i128 || next_abs - cur_abs + gross as i128 > i64::MAX as i128 {
            return false;
        }
        proof {
            lemma_gross_bounds_net(self.entries());
        }
        match self.find(market) {
            Some(i) => {
                let key = self.entries[i].0.clone();
                proof {
                    lemma_position_at(self.entries(), i as int);
                    lemma_gross_bounds_entry(self.entries(), i as int);
                    lemma_update_totals(self.entries(), i as int, next as i64);
                }
                self.entries.set(i, (key, next as i64));
                assert(self.entries@ == old(self).entries@.update(i as int, (old(self).entries@[i as int].0, next as i64)));
                assert forall|m: Seq<char>| self.position(m) == if m == market@ {
                    old(self).position(m) + delta
                } else {
                    old(self).position(m)
                } by {
                    lemma_update_position(old(self).entries(), i as int, next as i64, m);
                }
            },
            None => {
                proof {
                    lemma_position_absent(self.entries(), market@);
                }
                let key = String::from_str(market);
                assert(key@ == market@);
                proof {
                    lemma_push_totals(self.entries(), key, next as i64);
                }
                self.entries.push((key, next as i64));
                assert forall|a: int, b: int| 0 <= a < b < self.entries@.len() implies (#[trigger] self.entries@[a]).0@ != (#[trigger] self.entries@[b]).0@ by {
                    if b == self.entries@.len() - 1 {
                        assert(old(self).entries@[a] == self.entries@[a]);
                    } else {
                        assert(old(self).entries@[a] == self.entries@[a]);
                        assert(old(self).entries@[b] == self.entries@[b]);
                    }
                }
            },
        }
        true
    }

    fn gross_sum(&self) -> (r: i64)
        requires
            self.inv(),
        ensures
            r == gross_total(self.entries()),
    {
        let mut total: i64 = 0;
        let mut i: usize = 0;
        proof {
            lemma_gross_prefix(self.entries@, 0);
        }
        while i < self.entries.len()
            invariant
                self.inv(),
                i <= self.entries@.len(),
                total == gross_total(self.entries@.subrange(0, i as int)),
                gross_total(self.entries@.subrange(0, i as int)) <= gross_total(self.entries@),
            decreases self.entries.len() - i,
        {
            proof {
                let s = self.entries@;
                assert(s.subrange(0, i + 1).drop_last() =~= s.subrange(0, i as int));
                lemma_gross_prefix(s, i + 1);
                lemma_gross_bounds_entry(s.subrange(0, i + 1), i as int);
                assert(s.subrange(0, i + 1)[i as int] == s[i as int]);
            }
            let v = self.entries[i].1;
            total = total + if v < 0 { -v } else { v };
            i += 1;
        }
        assert(self.entries@.subrange(0, self.entries@.len() as int) =~= self.entries@);
        total
    }

    /// A copy of every (market, net position) pair.
    pub fn snapshot(&self) -> (r: Vec<(String, i64)>)
        ensures
            r@ == self.entries(),
    {
        let mut out: Vec<(String, i64)> = Vec::new();
        let mut i: usize = 0;
        while i < self.entries.len()
            invariant
                i <= self.entries@.len(),
                out@ == self.entries@.subrange(0, i as int),
            decreases self.entries.len() - i,
        {
            out.push((self.entries[i].0.clone(), self.entries[i].1));
            assert(out@ =~= self.entries@.subrange(0, i + 1));
            i += 1;
        }
        assert(self.entries@.subrange(0, self.entries@.len() as int) =~= self.entries@);
        out
    }
}

proof fn lemma_gross_prefix(s: Seq<(String, i64)>, n: int)
    requires
        0 <= n <= s.len(),
    ensures
        gross_total(s.subrange(0, n)) <= gross_total(s),
    decreases s.len() - n,
{
    if n < s.len() {
        assert(s.subrange(0, n + 1).drop_last() =~= s.subrange(0, n));
        lemma_gross_prefix(s, n + 1);
    } else {
        assert(s.subrange(0, n) =~= s);
    }
}

/// Signed size of an order: positive for a buy, negative for a sell.
pub open spec fn signed_size(o: Order) -> int {
    if o.side == Side::Buy {
        o.size as int
    } else {
        -(o.size as int)
    }
}

/// Orchestrates validation, risk, venue routing, order state and positions.
pub struct ExecutionEngine {
    venues: Vec<VenueId>,
    risk_engine: Option<RiskEngine>,
    order_tracker: OrderTracker,
    validator: OrderValidator,
    config: ExecutionEngineConfig,
    positions: PositionLedger,
}

impl ExecutionEngine {
    pub closed spec fn venue_ids(&self) -> Seq<VenueId> {
        self.venues@
    }

    pub closed spec fn risk(&self) -> Option<RiskEngine> {
        self.risk_engine
    }

    pub closed spec fn tracker(&self) -> OrderTracker {
        self.order_tracker
    }

    pub closed spec fn checks(&self) -> OrderValidator {
        self.validator
    }

    pub closed spec fn settings(&self) -> ExecutionEngineConfig {
        self.config
    }

    pub closed spec fn ledger(&self) -> PositionLedger {
        self.positions
    }

    pub open spec fn inv(&self) -> bool {
        self.tracker().inv() && self.ledger().inv()
    }

    pub open spec fn supports(&self, venue: VenueId) -> bool {
        exists|i: int| 0 <= i < self.venue_ids().len() && (#[trigger] self.venue_ids()[i]).0@ == venue.0@
    }

    /// The context that risk sees for `o`.
    pub open spec fn risk_context(&self, o: Order) -> RiskContext {
        RiskContext {
            market_id: o.market.0,
            current_position: self.ledger().position(o.market.0@) as i64,
            proposed_size: signed_size(o) as i64,
            inventory_value_usd: self.ledger().net() as i64,
        }
    }

    /// Whether risk is consulted for submissions.
    pub open spec fn risk_on(&self) -> bool {
        self.settings().enable_risk_checks && self.risk() is Some
    }

    pub fn new(config: ExecutionEngineConfig) -> (r: ExecutionEngine)
        ensures
            r.inv(),
            r.settings() == config,
            r.risk() is None,
            r.venue_ids().len() == 0,
            r.tracker().entries().len() == 0,
            forall|m: Seq<char>| r.ledger().position(m) == 0,
    {
        ExecutionEngine {
            venues: Vec::new(),
            risk_engine: None,
            order_tracker: OrderTracker::new(),
            validator: OrderValidator::new(),
            config,
            positions: PositionLedger::new(),
        }
    }

    /// Declares that orders for `venue` can be routed (its adapter and rate
    /// limiter are held by the caller).
    pub fn register_venue(&mut self, venue: VenueId)
        requires
            old(self).inv(),
        ensures
            final(self).inv(),
            final(self).supports(venue),
            forall|v: VenueId| old(self).supports(v) ==> final(self).supports(v),
            final(self).tracker() == old(self).tracker(),
            final(self).ledger() == old(self).ledger(),
            final(self).risk() == old(self).risk(),
            final(self).settings() == old(self).settings(),
            final(self).checks() == old(self).checks(),
    {
        let ghost v0 = venue;
        self.venues.push(venue);
        assert(self.venue_ids()[self.venue_ids().len() - 1].0@ == v0.0@);
        assert forall|v: VenueId| old(self).supports(v) implies self.supports(v) by {
            let i = choose|i: int| 0 <= i < old(self).venue_ids().len() && (#[trigger] old(self).venue_ids()[i]).0@ == v.0@;
            assert(self.venue_ids()[i] == old(self).venue_ids()[i]);
        }
    }

    fn supports_venue(&self, venue: &VenueId) -> (r: bool)
        ensures
            r == self.supports(*venue),
    {
        let mut i: usize = 0;
        while i < self.venues.len()
            invariant
                i <= self.venues@.len(),
                forall|k: int| 0 <= k < i ==> (#[trigger] self.venues@[k]).0@ != venue.0@,
            decreases self.venues.len() - i,
        {
            if string_eq(&self.venues[i].0, venue.as_str()) {
                assert(self.venue_ids()[i as int].0@ == venue.0@);
                return true;
            }
            i += 1;
        }
        false
    }

    pub fn set_risk_engine(&mut self, risk_engine: RiskEngine)
        ensures
            final(self).risk() == Some(risk_engine),
            final(self).tracker() == old(self).tracker(),
            final(self).ledger() == old(self).ledger(),
            final(self).venue_ids() == old(self).venue_ids(),
            final(self).settings() == old(self).settings(),
            final(self).checks() == old(self).checks(),
    {
        self.risk_engine = Some(risk_engine);
    }

    /// The risk engine, if one is set (to latch or release its kill-switch).
    pub fn risk_engine_mut(&mut self) -> (r: Option<&mut RiskEngine>)
        ensures
            r is Some <==> old(self).risk() is Some,
            r is Some ==> *r->0 == old(self).risk()->0 && final(self).risk() == Some(*final(r->0)),
            r is None ==> final(self).risk() == old(self).risk(),
            final(self).tracker() == old(self).tracker(),
            final(self).ledger() == old(self).ledger(),
            final(self).venue_ids() == old(self).venue_ids(),
            final(self).settings() == old(self).settings(),
            final(self).checks() == old(self).checks(),
    {
        self.risk_engine.as_mut()
    }

    /// Whether validation is on and refuses `order`.
    pub open spec fn refused_by_validation(&self, order: Order) -> bool {
        self.settings().enable_validation && self.checks().failure(order) is Some
    }

    /// Whether risk is consulted and rejects `order`.
    pub open spec fn refused_by_risk(&self, order: Order) -> bool {
        self.risk_on() && (self.risk()->0.kill_switch()
            || crate::risk::violations(self.risk()->0.rules(), self.risk_context(order)).len() > 0)
    }

    /// Steps before any venue call, in order: validate when enabled; refuse a
    /// size that is not positive (only reachable without validation); consult
    /// risk when enabled and configured; check that the venue is routable.
    pub fn check_submission(&self, order: &Order) -> (r: Result<(), ExecError>)
        requires
            self.inv(),
        ensures
            self.refused_by_validation(*order) ==> r is Err && r->Err_0 is ValidationError
                && Some(r->Err_0->ValidationError_0@) == self.checks().failure(*order),
            !self.refused_by_validation(*order) && order.size <= 0 ==> r is Err && r->Err_0 is ValidationError,
            !self.refused_by_validation(*order) && order.size > 0 && self.refused_by_risk(*order) ==> ({
                let eng = self.risk()->0;
                &&& r is Err && r->Err_0 is RiskRejected
                &&& eng.kill_switch() ==> texts(r->Err_0->RiskRejected_policies@) == seq![crate::risk::kill_switch_active_text()]
                &&& !eng.kill_switch() ==> texts(r->Err_0->RiskRejected_policies@)
                    == crate::risk::violations(eng.rules(), self.risk_context(*order))
            }),
            !self.refused_by_validation(*order) && order.size > 0 && !self.refused_by_risk(*order) ==> (
                if self.supports(order.venue) {
                    r is Ok
                } else {
                    r is Err && r->Err_0 is VenueNotSupported && r->Err_0->VenueNotSupported_0@ == order.venue.0@
                }),
    {
        if self.config.enable_validation {
            match self.validator.validate(order) {
                Ok(()) => {},
                Err(e) => {
                    return Err(e);
                },
            }
        }
        if order.size <= 0 {
            return Err(ExecError::ValidationError(String::from_str("Order size must be positive")));
        }
        if self.config.enable_risk_checks {
            match &self.risk_engine {
                Some(risk) => {
                    let current = self.positions.get(order.market.as_str());
                    let inventory = self.positions.net_sum();
                    let proposed = match order.side {
                        Side::Buy => order.size,
                        Side::Sell => -order.size,
                    };
                    let ctx = RiskContext {
                        market_id: order.market.0.clone(),
                        current_position: current,
                        proposed_size: proposed,
                        inventory_value_usd: inventory,
                    };
                    assert(ctx == self.risk_context(*order));
                    let decision = risk.evaluate(&ctx);
                    if !decision.allowed {
                        return Err(ExecError::RiskRejected { policies: decision.violated_policies });
                    }
                },
                None => {},
            }
        }
        if !self.supports_venue(&order.venue) {
            return Err(ExecError::VenueNotSupported(order.venue.0.clone()));
        }
        Ok(())
    }

    /// Marks `order` as being submitted and starts tracking it.
    pub fn begin_submission(&mut self, order: Order) -> (r: Result<OrderId, ExecError>)
        requires
            old(self).inv(),
        ensures
            final(self).inv(),
            r is Ok <==> order.wf() && order.filled_size == 0 && !status_terminal(order.status),
            r is Ok ==> r->Ok_0 == order.id && final(self).tracker().has(order.id)
                && final(self).tracker().entries()[final(self).tracker().slot(order.id)].order.status
                == OrderStatus::Submitting,
            r is Err ==> final(self).tracker().entries() == old(self).tracker().entries(),
            final(self).ledger() == old(self).ledger(),
            final(self).risk() == old(self).risk(),
            final(self).venue_ids() == old(self).venue_ids(),
    {
        if !order.is_well_formed() || order.filled_size != 0 || order.is_terminal() {
            return Err(ExecError::ValidationError(String::from_str("Order is not well formed")));
        }
        let mut order = order;
        let id = order.id;
        let ok = order.update_status(OrderStatus::Submitting);
        assert(ok);
        match self.order_tracker.track_order(order) {
            Ok(()) => Ok(id),
            Err(e) => Err(e),
        }
    }

    /// Applies a venue's placement answer to the tracked order.
    pub fn apply_order_ack(&mut self, ack: &OrderAck) -> (r: Result<(), ExecError>)
        requires
            old(self).inv(),
        ensures
            final(self).inv(),
            !old(self).tracker().has(ack.order_id) ==> r is Err,
            old(self).tracker().has(ack.order_id) ==> (r is Ok <==> status_change_allowed(
                old(self).tracker().entries()[old(self).tracker().slot(ack.order_id)].order.status,
                ack.status,
            )),
            r is Ok ==> final(self).tracker().entries()[old(self).tracker().slot(ack.order_id)].order.status
                == ack.status,
            r is Err ==> final(self).tracker().entries() == old(self).tracker().entries(),
            final(self).ledger() == old(self).ledger(),
    {
        self.order_tracker.update_status(&ack.order_id, ack.status)
    }

    /// Checks that `order_id` can be cancelled and marks it `Cancelling`.
    /// Returns the venue to send the cancel to.
    pub fn begin_cancel(&mut self, order_id: &OrderId) -> (r: Result<VenueId, ExecError>)
        requires
            old(self).inv(),
        ensures
            final(self).inv(),
            !old(self).tracker().has(*order_id) ==> r == Err::<VenueId, ExecError>(ExecError::OrderNotFound(*order_id)),
            old(self).tracker().has(*order_id) ==> ({
                let o = old(self).tracker().entries()[old(self).tracker().slot(*order_id)].order;
                &&& status_terminal(o.status) ==> r is Err && r->Err_0 is InvalidOrderState
                    && r->Err_0->InvalidOrderState_order_id == *order_id
                    && r->Err_0->InvalidOrderState_current_state@ == crate::order::status_text(o.status)
                    && r->Err_0->InvalidOrderState_operation@ == "cancel"@
                &&& !status_terminal(o.status) && !old(self).supports(o.venue) ==> r is Err
                    && r->Err_0 is VenueNotSupported
                &&& r is Ok <==> !status_terminal(o.status) && old(self).supports(o.venue)
                &&& r is Ok ==> r->Ok_0 == o.venue && final(self).tracker().entries()[old(
                    self,
                ).tracker().slot(*order_id)].order.status == OrderStatus::Cancelling
            }),
            r is Err ==> final(self).tracker().entries() == old(self).tracker().entries(),
            final(self).ledger() == old(self).ledger(),
    {
        let order = match self.order_tracker.get_order(order_id) {
            Ok(o) => o,
            Err(e) => {
                return Err(e);
            },
        };
        if order.is_terminal() {
            return Err(
                ExecError::InvalidOrderState {
                    order_id: *order_id,
                    current_state: String::from_str(order.status.as_str()),
                    operation: String::from_str("cancel"),
                },
            );
        }
        if !self.supports_venue(&order.venue) {
            return Err(ExecError::VenueNotSupported(order.venue.0.clone()));
        }
        match self.order_tracker.update_status(order_id, OrderStatus::Cancelling) {
            Ok(()) => Ok(order.venue),
            Err(e) => Err(e),
        }
    }

    /// Applies a venue's cancel answer: a successful cancel ends the order.
    pub fn apply_cancel_ack(&mut self, ack: &CancelAck) -> (r: Result<(), ExecError>)
        requires
            old(self).inv(),
        ensures
            final(self).inv(),
            !ack.success ==> r is Ok && final(self).tracker().entries() == old(self).tracker().entries(),
            ack.success && !old(self).tracker().has(ack.order_id) ==> r is Err,
            ack.success && old(self).tracker().has(ack.order_id) ==> (r is Ok <==> !status_terminal(
                old(self).tracker().entries()[old(self).tracker().slot(ack.order_id)].order.status,
            )),
            ack.success && r is Ok ==> final(self).tracker().entries()[old(self).tracker().slot(
                ack.order_id,
            )].order.status == OrderStatus::Cancelled,
            r is Err ==> final(self).tracker().entries() == old(self).tracker().entries(),
            final(self).ledger() == old(self).ledger(),
    {
        if ack.success {
            self.order_tracker.update_status(&ack.order_id, OrderStatus::Cancelled)
        } else {
            Ok(())
        }
    }

    /// The cached status of a terminal order, or `None` when the venue must
    /// be asked (then hand its answer to `apply_status`).
    pub fn cached_status(&self, order_id: &OrderId) -> (r: Result<Option<OrderStatus>, ExecError>)
        requires
            self.inv(),
        ensures
            r is Ok <==> self.tracker().has(*order_id),
            r is Ok ==> ({
                let s = self.tracker().entries()[self.tracker().slot(*order_id)].order.status;
                r->Ok_0 == if status_terminal(s) { Some(s) } else { None }
            }),
    {
        match self.order_tracker.get_order(order_id) {
            Ok(o) => {
                if o.is_terminal() {
                    Ok(Some(o.status))
                } else {
                    Ok(None)
                }
            },
            Err(e) => Err(e),
        }
    }

    /// Stores a status reported by the venue.
    pub fn apply_status(&mut self, order_id: &OrderId, status: OrderStatus) -> (r: Result<(), ExecError>)
        requires
            old(self).inv(),
        ensures
            final(self).inv(),
            !old(self).tracker().has(*order_id) ==> r is Err,
            old(self).tracker().has(*order_id) ==> (r is Ok <==> status_change_allowed(
                old(self).tracker().entries()[old(self).tracker().slot(*order_id)].order.status,
                status,
            )),
            r is Err ==> final(self).tracker().entries() == old(self).tracker().entries(),
            final(self).ledger() == old(self).ledger(),
    {
        self.order_tracker.update_status(order_id, status)
    }

    /// Records `fill` on its order and moves the order's market position by
    /// the size taken: up for a buy, down for a sell.
    pub fn record_fill(&mut self, fill: Fill) -> (r: Result<(), ExecError>)
        requires
            old(self).inv(),
        ensures
            final(self).inv(),
            !old(self).tracker().has(fill.order_id) ==> r is Err,
            r is Err ==> final(self).tracker().entries() == old(self).tracker().entries() && final(self).ledger().entries()
                == old(self).ledger().entries(),
            r is Ok ==> ({
                let k = old(self).tracker().slot(fill.order_id);
                let before = old(self).tracker().entries()[k].order;
                let after = final(self).tracker().entries()[k].order;
                let taken = after.filled_size - before.filled_size;
                let delta = if before.side == Side::Buy { taken } else { -taken };
                &&& fill.size > 0 && fill.price > 0
                &&& forall|m: Seq<char>|
                    final(self).ledger().position(m) == if m == before.market.0@ {
                        old(self).ledger().position(m) + delta
                    } else {
                        old(self).ledger().position(m)
                    }
            }),
            old(self).tracker().has(fill.order_id) && fill.size > 0 && fill.price > 0 && ({
                let o = old(self).tracker().entries()[old(self).tracker().slot(fill.order_id)].order;
                let m = o.market.0@;
                let p = old(self).ledger().position(m);
                &&& abs(p) + fill.size + gross_total(old(self).ledger().entries()) <= i64::MAX
                &&& p - fill.size >= i64::MIN
            }) ==> r is Ok,
    {
        let order = match self.order_tracker.get_order(&fill.order_id) {
            Ok(o) => o,
            Err(e) => {
                return Err(e);
            },
        };
        if fill.size <= 0 || fill.price <= 0 {
            return Err(ExecError::ValidationError(String::from_str("Fill size and price must be positive")));
        }
        let market = order.market.as_str();
        let current = self.positions.get(market);
        let gross = self.positions.gross_sum();
        let cur_abs: i128 = if current < 0 { -(current as i128) } else { current as i128 };
        if cur_abs + fill.size as i128 + gross as i128 > i64::MAX as i128 || (current as i128) - (fill.size as i128) < i64::MIN as i128 {
            return Err(ExecError::InternalError(String::from_str("Position would overflow")));
        }
        let id = fill.order_id;
        let applied = match self.order_tracker.record_fill(&id, fill) {
            Ok(a) => a,
            Err(e) => {
                return Err(e);
            },
        };
        let delta = match order.side {
            Side::Buy => applied,
            Side::Sell => -applied,
        };
        proof {
            lemma_gross_bounds_net(self.positions.entries());
        }
        let ok = self.positions.add(market, delta);
        assert(ok);
        Ok(())
    }

    /// Net position of `market_id`, zero when it has none.
    pub fn get_position(&self, market_id: &str) -> (r: i64)
        requires
            self.inv(),
        ensures
            r == self.ledger().position(market_id@),
    {
        self.positions.get(market_id)
    }

    /// A copy of every (market, net position) pair.
    pub fn get_all_positions(&self) -> (r: Vec<(String, i64)>)
        ensures
            r@ == self.ledger().entries(),
    {
        self.positions.snapshot()
    }

    pub fn get_active_orders(&self) -> (r: Vec<Order>)
        requires
            self.inv(),
        ensures
            r@ == selected(self.tracker().entries(), Selection::Active),
    {
        self.order_tracker.get_active_orders()
    }

    pub fn get_order(&self, order_id: &OrderId) -> (r: Result<Order, ExecError>)
        requires
            self.inv(),
        ensures
            r is Ok <==> self.tracker().has(*order_id),
            r is Ok ==> r->Ok_0 == self.tracker().entries()[self.tracker().slot(*order_id)].order,
    {
        self.order_tracker.get_order(order_id)
    }

    pub fn order_tracker(&self) -> (r: &OrderTracker)
        ensures
            *r == self.tracker(),
    {
        &self.order_tracker
    }
}

} // verus!
