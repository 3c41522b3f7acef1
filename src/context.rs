//! Per-strategy state: positions, open orders, parameters and metrics, and
//! the risk-checked gateway through which a strategy submits orders.
use vstd::prelude::*;
use vstd::string::*;
use crate::decimal::push_decimal;
use crate::risk::{texts, RiskContext, RiskEngine};
use crate::strategy::{update_fits, Order, Position, Side, StrategyError, StrategyMetric, StrategyParams};
use crate::text::string_eq;

verus! {

/// Position of the entry for `market` in `s`, if any.
pub open spec fn position_index(s: Seq<Position>, market: Seq<char>) -> Option<int>
    decreases s.len(),
{
    if s.len() == 0 {
        None
    } else if s.last().market@ == market {
        Some(s.len() - 1)
    } else {
        position_index(s.drop_last(), market)
    }
}

pub open spec fn markets_unique(s: Seq<Position>) -> bool {
    forall|i: int, j: int| 0 <= i < j < s.len() ==> (#[trigger] s[i]).market@ != (#[trigger] s[j]).market@
}

proof fn lemma_index_found(s: Seq<Position>, i: int)
    requires
        markets_unique(s),
        0 <= i < s.len(),
    ensures
        position_index(s, s[i].market@) == Some(i),
    decreases s.len(),
{
    if i < s.len() - 1 {
        assert(s[i].market@ != s[s.len() - 1].market@);
        assert(s.drop_last()[i] == s[i]);
        lemma_index_found(s.drop_last(), i);
    }
}

proof fn lemma_index_absent(s: Seq<Position>, m: Seq<char>)
    requires
        forall|i: int| 0 <= i < s.len() ==> (#[trigger] s[i]).market@ != m,
    ensures
        position_index(s, m) is None,
    decreases s.len(),
{
    if s.len() > 0 {
        assert(s[s.len() - 1].market@ != m);
        assert forall|i: int| 0 <= i < s.drop_last().len() implies (#[trigger] s.drop_last()[i]).market@ != m by {
            assert(s.drop_last()[i] == s[i]);
        }
        lemma_index_absent(s.drop_last(), m);
    }
}

/// Sum of a field over positions.
pub open spec fn sum_value(s: Seq<Position>) -> int
    decreases s.len(),
{
    if s.len() == 0 { 0 } else { sum_value(s.drop_last()) + s.last().value_usd }
}

pub open spec fn sum_unrealized(s: Seq<Position>) -> int
    decreases s.len(),
{
    if s.len() == 0 { 0 } else { sum_unrealized(s.drop_last()) + s.last().unrealized_pnl }
}

pub open spec fn sum_realized(s: Seq<Position>) -> int
    decreases s.len(),
{
    if s.len() == 0 { 0 } else { sum_realized(s.drop_last()) + s.last().realized_pnl }
}

/// The orders of `s` in `market`, in order.
pub open spec fn orders_in_market(s: Seq<(String, Order)>, market: Seq<char>) -> Seq<Order>
    decreases s.len(),
{
    if s.len() == 0 {
        Seq::empty()
    } else if s.last().1.market@ == market {
        orders_in_market(s.drop_last(), market).push(s.last().1)
    } else {
        orders_in_market(s.drop_last(), market)
    }
}

/// The entries of `s` whose order is not in `market`, in order.
pub open spec fn outside_market(s: Seq<(String, Order)>, market: Seq<char>) -> Seq<(String, Order)>
    decreases s.len(),
{
    if s.len() == 0 {
        Seq::empty()
    } else if s.last().1.market@ != market {
        outside_market(s.drop_last(), market).push(s.last())
    } else {
        outside_market(s.drop_last(), market)
    }
}

/// `v` limited to the `i64` range.
pub open spec fn clamp_i64(v: int) -> int {
    if v > i64::MAX { i64::MAX as int } else if v < i64::MIN { i64::MIN as int } else { v }
}

/// `"order_"` followed by the decimal form of `n`.
pub open spec fn order_id_text(n: nat) -> Seq<char> {
    "order_"@ + crate::decimal::decimal_text(n)
}

/// A stand-in execution venue that accepts every order and numbers them.
pub struct MockExecutionEngine {
    orders: Vec<(String, Order)>,
    next_order_id: u64,
}

impl MockExecutionEngine {
    pub closed spec fn accepted(&self) -> Seq<(String, Order)> {
        self.orders@
    }

    pub closed spec fn next_id(&self) -> nat {
        self.next_order_id as nat
    }

    pub fn new() -> (r: MockExecutionEngine)
        ensures
            r.accepted().len() == 0,
            r.next_id() == 1,
    {
        MockExecutionEngine { orders: Vec::new(), next_order_id: 1 }
    }

    /// Accepts `order` under the id `order_<n>`, counting up from 1.
    pub fn submit_order(&mut self, order: Order) -> (r: Result<String, StrategyError>)
        ensures
            old(self).next_id() < u64::MAX ==> r is Ok,
            r is Ok ==> r->Ok_0@ == order_id_text(old(self).next_id()) && final(self).next_id() == old(self).next_id() + 1
                && final(self).accepted().len() == old(self).accepted().len() + 1
                && final(self).accepted().last().0@ == r->Ok_0@
                && final(self).accepted().last().1.id == Some(r->Ok_0),
            r is Err ==> r->Err_0 is ExecutionError && final(self).accepted() == old(self).accepted() && final(self).next_id() == old(self).next_id(),
    {
        if self.next_order_id == u64::MAX {
            return Err(StrategyError::ExecutionError(String::from_str("Order ids exhausted")));
        }
        let mut id = String::from_str("order_");
        push_decimal(&mut id, self.next_order_id as u128);
        assert(id@ =~= order_id_text(old(self).next_id()));
        self.next_order_id = self.next_order_id + 1;
        let mut order = order;
        order.id = Some(id.clone());
        self.orders.push((id.clone(), order));
        Ok(id)
    }

    /// Forgets the order `order_id`.
    pub fn cancel_order(&mut self, order_id: &str) -> (r: Result<(), StrategyError>)
        ensures
            r is Ok <==> exists|i: int| 0 <= i < old(self).accepted().len() && (#[trigger] old(self).accepted()[i]).0@ == order_id@,
            r is Ok ==> final(self).accepted().len() == old(self).accepted().len() - 1,
            r is Err ==> r->Err_0 is OrderNotFound && final(self).accepted() == old(self).accepted(),
            final(self).next_id() == old(self).next_id(),
    {
        let mut i: usize = 0;
        while i < self.orders.len()
            invariant
                i <= self.orders@.len(),
                self.orders@ == old(self).orders@,
                self.next_order_id == old(self).next_order_id,
                forall|k: int| 0 <= k < i ==> (#[trigger] self.orders@[k]).0@ != order_id@,
            decreases self.orders.len() - i,
        {
            if string_eq(&self.orders[i].0, order_id) {
                self.orders.remove(i);
                assert(old(self).accepted()[i as int].0@ == order_id@);
                return Ok(());
            }
            i += 1;
        }
        Err(StrategyError::OrderNotFound(String::from_str(order_id)))
    }

    pub fn order_count(&self) -> (r: usize)
        ensures
            r == self.accepted().len(),
    {
        self.orders.len()
    }
}

/// Everything one strategy owns while it runs.
pub struct StrategyContext {
    pub strategy_id: String,
    exec_engine: MockExecutionEngine,
    positions: Vec<Position>,
    orders: Vec<(String, Order)>,
    pub params: StrategyParams,
    metrics_buffer: Vec<StrategyMetric>,
}

impl StrategyContext {
    pub closed spec fn id(&self) -> Seq<char> {
        self.strategy_id@
    }

    pub closed spec fn parameters(&self) -> StrategyParams {
        self.params
    }

    pub closed spec fn positions(&self) -> Seq<Position> {
        self.positions@
    }

    pub closed spec fn open_orders(&self) -> Seq<(String, Order)> {
        self.orders@
    }

    pub closed spec fn metrics(&self) -> Seq<StrategyMetric> {
        self.metrics_buffer@
    }

    pub closed spec fn venue(&self) -> MockExecutionEngine {
        self.exec_engine
    }

    pub open spec fn inv(&self) -> bool {
        markets_unique(self.positions())
    }

    /// The position held in `market`, if any.
    pub open spec fn position_of(&self, market: Seq<char>) -> Option<Position> {
        match position_index(self.positions(), market) {
            Some(i) => Some(self.positions()[i]),
            None => None,
        }
    }

    /// Size held in `market`, zero when none.
    pub open spec fn size_in(&self, market: Seq<char>) -> int {
        match self.position_of(market) {
            Some(p) => p.size as int,
            None => 0,
        }
    }

    /// The context risk sees for `o`.
    pub open spec fn risk_context(&self, o: Order) -> RiskContext {
        self.trade_context(o.market, o.side, o.size)
    }

    /// The context risk sees for trading `size` on `side` in `market`.
    pub open spec fn trade_context(&self, market: String, side: Side, size: i64) -> RiskContext {
        RiskContext {
            market_id: market,
            current_position: self.size_in(market@) as i64,
            proposed_size: (if side == Side::Buy { size as int } else { -(size as int) }) as i64,
            inventory_value_usd: clamp_i64(sum_value(self.positions())) as i64,
        }
    }

    /// Whether `risk` lets this context trade `size` on `side` in `market`.
    pub open spec fn accepts_trade(&self, risk: RiskEngine, market: String, side: Side, size: i64) -> bool {
        size > 0 && !risk.kill_switch() && crate::risk::violations(risk.rules(), self.trade_context(market, side, size)).len() == 0
    }

    pub fn new(strategy_id: String, params: StrategyParams) -> (r: StrategyContext)
        ensures
            r.inv(),
            r.id() == strategy_id@,
            r.parameters() == params,
            r.positions().len() == 0,
            r.open_orders().len() == 0,
            r.metrics().len() == 0,
            r.venue().next_id() == 1,
    {
        StrategyContext {
            strategy_id,
            exec_engine: MockExecutionEngine::new(),
            positions: Vec::new(),
            orders: Vec::new(),
            params,
            metrics_buffer: Vec::new(),
        }
    }

    fn find_position(&self, market: &str) -> (r: Option<usize>)
        requires
            self.inv(),
        ensures
            r is Some ==> position_index(self.positions(), market@) == Some(r->0 as int),
            r is None ==> position_index(self.positions(), market@) is None,
            r is Some ==> r->0 < self.positions().len() && self.positions()[r->0 as int].market@ == market@,
            r is None ==> forall|k: int| 0 <= k < self.positions().len() ==> (#[trigger] self.positions()[k]).market@ != market@,
    {
        let mut i: usize = 0;
        while i < self.positions.len()
            invariant
                self.inv(),
                i <= self.positions@.len(),
                forall|k: int| 0 <= k < i ==> (#[trigger] self.positions@[k]).market@ != market@,
            decreases self.positions.len() - i,
        {
            if string_eq(&self.positions[i].market, market) {
                proof {
                    lemma_index_found(self.positions@, i as int);
                }
                return Some(i);
            }
            i += 1;
        }
        proof {
            lemma_index_absent(self.positions@, market@);
        }
        None
    }

    /// The position held in `market_id`, if any.
    pub fn get_position(&self, market_id: &str) -> (r: Option<&Position>)
        requires
            self.inv(),
        ensures
            match r {
                Some(p) => self.position_of(market_id@) == Some(*p),
                None => self.position_of(market_id@) is None,
            },
    {
        match self.find_position(market_id) {
            Some(i) => Some(&self.positions[i]),
            None => None,
        }
    }

    /// Moves the position in `market_id` by `size_delta` at `price` (see
    /// `Position::apply`), opening a flat one first when there is none.
    /// Returns false, changing nothing but that opening, when a result would
    /// not fit.
    pub fn update_position(&mut self, market_id: &str, size_delta: i64, price: i64) -> (r: bool)
        requires
            old(self).inv(),
        ensures
            final(self).inv(),
            final(self).position_of(market_id@) is Some,
            ({
                let size0: int = match old(self).position_of(market_id@) {
                    Some(p) => p.size as int,
                    None => 0,
                };
                let cost0: int = match old(self).position_of(market_id@) {
                    Some(p) => p.cost_basis as int,
                    None => 0,
                };
                let after = final(self).position_of(market_id@)->0;
                &&& r == update_fits(size0, cost0, size_delta as int, price as int)
                &&& r ==> after.size == size0 + size_delta
                    && after.cost_basis == crate::strategy::next_cost(size0, cost0, size_delta as int, price as int)
                    && after.entry_price == crate::strategy::entry_of(after.size as int, after.cost_basis as int)
                    && after.mark_price == price
                    && after.unrealized_pnl == crate::strategy::pnl_at(after.size as int, after.entry_price as int, price as int)
                    && after.value_usd == crate::strategy::value_at(after.size as int, price as int)
            }),
            forall|m: Seq<char>| m != market_id@ ==> final(self).position_of(m) == old(self).position_of(m),
            final(self).open_orders() == old(self).open_orders(),
    {
        let i = match self.find_position(market_id) {
            Some(i) => i,
            None => {
                let p = Position::new(String::from_str(market_id));
                assert(p.market@ == market_id@);
                let ghost s0 = self.positions@;
                self.positions.push(p);
                proof {
                    assert(self.positions@.drop_last() =~= s0);
                    assert forall|a: int, b: int| 0 <= a < b < self.positions@.len() implies (#[trigger] self.positions@[a]).market@ != (#[trigger] self.positions@[b]).market@ by {
                        assert(self.positions@[a] == s0[a]);
                        if b < s0.len() {
                            assert(self.positions@[b] == s0[b]);
                        }
                    }
                    assert forall|m: Seq<char>| m != market_id@ implies position_index(self.positions@, m) == position_index(s0, m) by {}
                }
                (self.positions.len() - 1) as usize
            },
        };
        let ghost s1 = self.positions@;
        assert(s1[i as int].market@ == market_id@);
        proof {
            lemma_index_found(s1, i as int);
        }
        let mut p = self.positions.remove(i);
        let ok = p.apply(size_delta, price);
        self.positions.insert(i, p);
        proof {
            assert(self.positions@ =~= s1.update(i as int, p));
            assert forall|a: int, b: int| 0 <= a < b < self.positions@.len() implies (#[trigger] self.positions@[a]).market@ != (#[trigger] self.positions@[b]).market@ by {
                assert(s1[a].market@ != s1[b].market@);
            }
            lemma_index_found(self.positions@, i as int);
            assert forall|m: Seq<char>| m != market_id@ implies self.position_of(m) == old(self).position_of(m) by {
                lemma_index_update(s1, i as int, p, m);
                if let Some(k) = position_index(s1, m) {
                    lemma_index_in_range(s1, m);
                    assert(k != i);
                    lemma_index_in_range(old(self).positions@, m);
                }
                lemma_index_prefix_same(old(self).positions@, s1, m);
            }
        }
        ok
    }

    /// Submits `order` after a pre-trade check: the position in its market,
    /// its signed size and the total inventory value (limited to the `i64`
    /// range) go to `risk`; a rejection is returned with its reasons, and an
    /// accepted order is handed to the venue and kept as open.
    pub fn submit_order(&mut self, risk: &RiskEngine, order: Order) -> (r: Result<String, StrategyError>)
        requires
            old(self).inv(),
        ensures
            final(self).inv(),
            order.size <= 0 ==> r is Err && r->Err_0 is InvalidParameter,
            order.size > 0 ==> ({
                let ctx = old(self).risk_context(order);
                let rejected = risk.kill_switch() || crate::risk::violations(risk.rules(), ctx).len() > 0;
                &&& rejected ==> r is Err && r->Err_0 is RiskRejected
                &&& risk.kill_switch() && r is Err ==> texts(r->Err_0->RiskRejected_policies@) == seq![crate::risk::kill_switch_active_text()]
                &&& !risk.kill_switch() && rejected ==> texts(r->Err_0->RiskRejected_policies@) == crate::risk::violations(risk.rules(), ctx)
                &&& !rejected && old(self).venue().next_id() < u64::MAX ==> r is Ok
            }),
            r is Ok <==> old(self).accepts_trade(*risk, order.market, order.side, order.size) && old(self).venue().next_id() < u64::MAX,
            r is Err && r->Err_0 is RiskRejected <==> order.size > 0 && !old(self).accepts_trade(*risk, order.market, order.side, order.size),
            r is Ok ==> r->Ok_0@ == order_id_text(old(self).venue().next_id())
                && final(self).open_orders() == old(self).open_orders().push((r->Ok_0, order))
                && final(self).venue().next_id() == old(self).venue().next_id() + 1,
            r is Err ==> final(self).open_orders() == old(self).open_orders() && final(self).venue().next_id() == old(self).venue().next_id(),
            final(self).positions() == old(self).positions(),
            final(self).metrics() == old(self).metrics(),
    {
        if order.size <= 0 {
            return Err(StrategyError::InvalidParameter(String::from_str("Order size must be positive")));
        }
        let current = match self.get_position(order.market.as_str()) {
            Some(p) => p.size,
            None => 0,
        };
        let proposed = match order.side {
            Side::Buy => order.size,
            Side::Sell => -order.size,
        };
        let total = self.calculate_total_inventory_value();
        let inventory: i64 = if total > i64::MAX as i128 {
            i64::MAX
        } else if total < i64::MIN as i128 {
            i64::MIN
        } else {
            total as i64
        };
        let ctx = RiskContext {
            market_id: order.market.clone(),
            current_position: current,
            proposed_size: proposed,
            inventory_value_usd: inventory,
        };
        assert(ctx == self.risk_context(order));
        let decision = risk.evaluate(&ctx);
        if !decision.allowed {
            return Err(StrategyError::RiskRejected { policies: decision.violated_policies });
        }
        let kept = order.clone();
        let id = match self.exec_engine.submit_order(order) {
            Ok(id) => id,
            Err(e) => {
                return Err(e);
            },
        };
        self.orders.push((id.clone(), kept));
        Ok(id)
    }

    /// Cancels the order `order_id` at the venue and forgets the first open
    /// order under that id.
    pub fn cancel_order(&mut self, order_id: &str) -> (r: Result<(), StrategyError>)
        requires
            old(self).inv(),
        ensures
            final(self).inv(),
            final(self).positions() == old(self).positions(),
            r is Ok <==> exists|i: int| 0 <= i < old(self).venue().accepted().len() && (#[trigger] old(self).venue().accepted()[i]).0@ == order_id@,
            r is Err ==> final(self).open_orders() == old(self).open_orders(),
            r is Ok ==> (forall|k: int| 0 <= k < old(self).open_orders().len() ==> (#[trigger] old(self).open_orders()[k]).0@ != order_id@)
                && final(self).open_orders() == old(self).open_orders()
                || (exists|i: int| 0 <= i < old(self).open_orders().len() && (#[trigger] old(self).open_orders()[i]).0@ == order_id@
                && final(self).open_orders() == old(self).open_orders().remove(i)),
    {
        match self.exec_engine.cancel_order(order_id) {
            Ok(()) => {},
            Err(e) => {
                return Err(e);
            },
        }
        let mut i: usize = 0;
        while i < self.orders.len()
            invariant
                i <= self.orders@.len(),
                self.orders@ == old(self).orders@,
                self.positions@ == old(self).positions@,
                markets_unique(self.positions@),
                exists|j: int| 0 <= j < old(self).exec_engine.accepted().len() && (#[trigger] old(self).exec_engine.accepted()[j]).0@ == order_id@,
                forall|k: int| 0 <= k < i ==> (#[trigger] self.orders@[k]).0@ != order_id@,
            decreases self.orders.len() - i,
        {
            if string_eq(&self.orders[i].0, order_id) {
                self.orders.remove(i);
                assert(old(self).open_orders()[i as int].0@ == order_id@);
                proof {
                    Self::lemma_cancel_witness(*old(self), order_id@);
                }
                return Ok(());
            }
            i += 1;
        }
        proof {
            Self::lemma_cancel_witness(*old(self), order_id@);
        }
        Ok(())
    }

    proof fn lemma_cancel_witness(c: StrategyContext, id: Seq<char>)
        requires
            exists|j: int| 0 <= j < c.exec_engine.accepted().len() && (#[trigger] c.exec_engine.accepted()[j]).0@ == id,
        ensures
            exists|j: int| 0 <= j < c.venue().accepted().len() && (#[trigger] c.venue().accepted()[j]).0@ == id,
    {
        let j = choose|j: int| 0 <= j < c.exec_engine.accepted().len() && (#[trigger] c.exec_engine.accepted()[j]).0@ == id;
        assert(c.venue().accepted()[j].0@ == id);
    }

    /// Copies of the open orders.
    pub fn get_open_orders(&self) -> (r: Vec<Order>)
        ensures
            r@ == self.open_orders().map_values(|e: (String, Order)| e.1),
    {
        let mut out: Vec<Order> = Vec::new();
        let mut i: usize = 0;
        while i < self.orders.len()
            invariant
                i <= self.orders@.len(),
                out@ == self.orders@.subrange(0, i as int).map_values(|e: (String, Order)| e.1),
            decreases self.orders.len() - i,
        {
            out.push(self.orders[i].1.clone());
            assert(out@ =~= self.orders@.subrange(0, i + 1).map_values(|e: (String, Order)| e.1));
            i += 1;
        }
        assert(self.orders@.subrange(0, self.orders@.len() as int) =~= self.orders@);
        out
    }

    /// Copies of the open orders in `market_id`, oldest first.
    pub fn get_open_orders_for_market(&self, market_id: &str) -> (r: Vec<Order>)
        ensures
            r@ == orders_in_market(self.open_orders(), market_id@),
    {
        let mut out: Vec<Order> = Vec::new();
        let mut i: usize = 0;
        while i < self.orders.len()
            invariant
                i <= self.orders@.len(),
                out@ == orders_in_market(self.orders@.subrange(0, i as int), market_id@),
            decreases self.orders.len() - i,
        {
            assert(self.orders@.subrange(0, i + 1).drop_last() =~= self.orders@.subrange(0, i as int));
            if string_eq(&self.orders[i].1.market, market_id) {
                out.push(self.orders[i].1.clone());
            }
            i += 1;
        }
        assert(self.orders@.subrange(0, self.orders@.len() as int) =~= self.orders@);
        out
    }

    /// The open orders in `market_id` with their ids, oldest first.
    pub fn get_open_order_entries_for_market(&self, market_id: &str) -> (r: Vec<(String, Order)>)
        ensures
            r@.map_values(|e: (String, Order)| e.1) == orders_in_market(self.open_orders(), market_id@),
            forall|k: int| 0 <= k < r@.len() ==> (#[trigger] r@[k]).1.market@ == market_id@,
    {
        let mut out: Vec<(String, Order)> = Vec::new();
        let mut i: usize = 0;
        while i < self.orders.len()
            invariant
                i <= self.orders@.len(),
                out@.map_values(|e: (String, Order)| e.1) == orders_in_market(self.orders@.subrange(0, i as int), market_id@),
                forall|k: int| 0 <= k < out@.len() ==> (#[trigger] out@[k]).1.market@ == market_id@,
            decreases self.orders.len() - i,
        {
            assert(self.orders@.subrange(0, i + 1).drop_last() =~= self.orders@.subrange(0, i as int));
            if string_eq(&self.orders[i].1.market, market_id) {
                let ghost o0 = out@;
                out.push((self.orders[i].0.clone(), self.orders[i].1.clone()));
                assert(out@.map_values(|e: (String, Order)| e.1) =~= o0.map_values(|e: (String, Order)| e.1).push(self.orders@[i as int].1));
            }
            i += 1;
        }
        assert(self.orders@.subrange(0, self.orders@.len() as int) =~= self.orders@);
        out
    }

    /// Forgets the first open order under `order_id` (the venue is not
    /// told); returns whether there was one.
    pub fn remove_open_order(&mut self, order_id: &str) -> (r: bool)
        requires
            old(self).inv(),
        ensures
            final(self).inv(),
            final(self).positions() == old(self).positions(),
            r == exists|i: int| 0 <= i < old(self).open_orders().len() && (#[trigger] old(self).open_orders()[i]).0@ == order_id@,
            r ==> exists|i: int| 0 <= i < old(self).open_orders().len() && (#[trigger] old(self).open_orders()[i]).0@ == order_id@
                && final(self).open_orders() == old(self).open_orders().remove(i),
            !r ==> final(self).open_orders() == old(self).open_orders(),
    {
        let mut i: usize = 0;
        while i < self.orders.len()
            invariant
                i <= self.orders@.len(),
                self.orders@ == old(self).orders@,
                self.positions@ == old(self).positions@,
                markets_unique(self.positions@),
                forall|k: int| 0 <= k < i ==> (#[trigger] self.orders@[k]).0@ != order_id@,
            decreases self.orders.len() - i,
        {
            if string_eq(&self.orders[i].0, order_id) {
                self.orders.remove(i);
                assert(old(self).open_orders()[i as int].0@ == order_id@);
                return true;
            }
            i += 1;
        }
        false
    }

    /// Cancels at the venue every open order in `market_id` and forgets them;
    /// one the venue no longer knows is forgotten all the same.
    pub fn cancel_market_orders(&mut self, market_id: &str)
        requires
            old(self).inv(),
        ensures
            final(self).inv(),
            final(self).open_orders() == outside_market(old(self).open_orders(), market_id@),
            final(self).positions() == old(self).positions(),
            final(self).venue().next_id() == old(self).venue().next_id(),
            final(self).metrics() == old(self).metrics(),
    {
        let ghost src = self.orders@;
        let n = self.orders.len();
        let mut kept: Vec<(String, Order)> = Vec::new();
        let mut i: usize = 0;
        while i < n
            invariant
                n == src.len(),
                i <= n,
                self.orders@ == src.subrange(i as int, n as int),
                kept@ == outside_market(src.subrange(0, i as int), market_id@),
                self.positions@ == old(self).positions@,
                markets_unique(self.positions@),
                self.exec_engine.next_order_id == old(self).exec_engine.next_order_id,
                self.metrics_buffer@ == old(self).metrics_buffer@,
            decreases n - i,
        {
            let e = self.orders.remove(0);
            assert(e == src[i as int]);
            assert(src.subrange(0, i + 1).drop_last() =~= src.subrange(0, i as int));
            assert(self.orders@ =~= src.subrange(i + 1, n as int));
            if string_eq(&e.1.market, market_id) {
                let _ = self.exec_engine.cancel_order(e.0.as_str());
            } else {
                kept.push(e);
            }
            i += 1;
        }
        assert(src.subrange(0, n as int) =~= src);
        self.orders = kept;
    }

    /// Buffers a metric for later shipping.
    pub fn emit_metric(&mut self, metric: StrategyMetric)
        ensures
            final(self).metrics() == old(self).metrics().push(metric),
            final(self).positions() == old(self).positions(),
            final(self).open_orders() == old(self).open_orders(),
    {
        self.metrics_buffer.push(metric);
    }

    pub fn get_metrics_buffer(&self) -> (r: &Vec<StrategyMetric>)
        ensures
            r@ == self.metrics(),
    {
        &self.metrics_buffer
    }

    pub fn clear_metrics_buffer(&mut self)
        ensures
            final(self).metrics().len() == 0,
            final(self).positions() == old(self).positions(),
            final(self).open_orders() == old(self).open_orders(),
    {
        self.metrics_buffer.clear();
    }

    /// The text parameter under `key`.
    pub fn get_param_str(&self, key: &str) -> (r: Option<&str>)
        ensures
            match r {
                Some(v) => self.parameters().lookup(key@) == Some(v@),
                None => self.parameters().lookup(key@) is None,
            },
    {
        self.params.get(key)
    }

    /// Sum of the positions' values.
    pub fn calculate_total_inventory_value(&self) -> (r: i128)
        ensures
            r == sum_value(self.positions()),
    {
        let mut total: i128 = 0;
        let mut i: usize = 0;
        while i < self.positions.len()
            invariant
                i <= self.positions@.len(),
                total == sum_value(self.positions@.subrange(0, i as int)),
                -(i as int) * 0x8000_0000_0000_0000 <= total <= (i as int) * 0x8000_0000_0000_0000,
            decreases self.positions.len() - i,
        {
            assert(self.positions@.subrange(0, i + 1).drop_last() =~= self.positions@.subrange(0, i as int));
            proof {
                assert((i as int) * 0x8000_0000_0000_0000 <= 0x8000_0000_0000_0000 * 0xffff_ffff_ffff_ffff) by (nonlinear_arith)
                    requires i < 0xffff_ffff_ffff_ffff;
            }
            total = total + self.positions[i].value_usd as i128;
            i += 1;
        }
        assert(self.positions@.subrange(0, self.positions@.len() as int) =~= self.positions@);
        total
    }

    /// Sum of the positions' unrealized PnL.
    pub fn calculate_total_unrealized_pnl(&self) -> (r: i128)
        ensures
            r == sum_unrealized(self.positions()),
    {
        let mut total: i128 = 0;
        let mut i: usize = 0;
        while i < self.positions.len()
            invariant
                i <= self.positions@.len(),
                total == sum_unrealized(self.positions@.subrange(0, i as int)),
                -(i as int) * 0x8000_0000_0000_0000 <= total <= (i as int) * 0x8000_0000_0000_0000,
            decreases self.positions.len() - i,
        {
            assert(self.positions@.subrange(0, i + 1).drop_last() =~= self.positions@.subrange(0, i as int));
            proof {
                assert((i as int) * 0x8000_0000_0000_0000 <= 0x8000_0000_0000_0000 * 0xffff_ffff_ffff_ffff) by (nonlinear_arith)
                    requires i < 0xffff_ffff_ffff_ffff;
            }
            total = total + self.positions[i].unrealized_pnl as i128;
            i += 1;
        }
        assert(self.positions@.subrange(0, self.positions@.len() as int) =~= self.positions@);
        total
    }

    /// Sum of the positions' realized PnL.
    pub fn calculate_total_realized_pnl(&self) -> (r: i128)
        ensures
            r == sum_realized(self.positions()),
    {
        let mut total: i128 = 0;
        let mut i: usize = 0;
        while i < self.positions.len()
            invariant
                i <= self.positions@.len(),
                total == sum_realized(self.positions@.subrange(0, i as int)),
                -(i as int) * 0x8000_0000_0000_0000 <= total <= (i as int) * 0x8000_0000_0000_0000,
            decreases self.positions.len() - i,
        {
            assert(self.positions@.subrange(0, i + 1).drop_last() =~= self.positions@.subrange(0, i as int));
            proof {
                assert((i as int) * 0x8000_0000_0000_0000 <= 0x8000_0000_0000_0000 * 0xffff_ffff_ffff_ffff) by (nonlinear_arith)
                    requires i < 0xffff_ffff_ffff_ffff;
            }
            total = total + self.positions[i].realized_pnl as i128;
            i += 1;
        }
        assert(self.positions@.subrange(0, self.positions@.len() as int) =~= self.positions@);
        total
    }
}

proof fn lemma_index_in_range(s: Seq<Position>, m: Seq<char>)
    ensures
        position_index(s, m) is Some ==> 0 <= position_index(s, m)->0 < s.len() && s[position_index(s, m)->0].market@ == m,
    decreases s.len(),
{
    if s.len() > 0 {
        lemma_index_in_range(s.drop_last(), m);
        if s.last().market@ != m {
            if let Some(k) = position_index(s.drop_last(), m) {
                assert(s.drop_last()[k] == s[k]);
            }
        }
    }
}

/// Replacing an entry by one with the same market leaves every lookup's
/// index as it was.
proof fn lemma_index_update(s: Seq<Position>, i: int, p: Position, m: Seq<char>)
    requires
        0 <= i < s.len(),
        p.market@ == s[i].market@,
    ensures
        position_index(s.update(i, p), m) == position_index(s, m),
    decreases s.len(),
{
    let t = s.update(i, p);
    if i < s.len() - 1 {
        assert(t.drop_last() =~= s.drop_last().update(i, p));
        assert(t.last() == s.last());
        lemma_index_update(s.drop_last(), i, p, m);
    } else {
        assert(t.drop_last() =~= s.drop_last());
    }
}

/// A lookup of a market other than the one appended is unchanged by the
/// append; an unchanged sequence gives unchanged lookups.
proof fn lemma_index_prefix_same(s: Seq<Position>, t: Seq<Position>, m: Seq<char>)
    requires
        t == s || (t.len() == s.len() + 1 && t.drop_last() == s && t.last().market@ != m),
    ensures
        position_index(t, m) == position_index(s, m),
{
}

} // verus!
