//! The strategy contract and the coordinator that routes market events to
//! registered strategies by subscription.
use vstd::prelude::*;
use vstd::string::*;
use crate::context::StrategyContext;
use crate::risk::RiskEngine;
use crate::strategy::{Fill, MarketTick, StrategyError, StrategyMetadata};
use crate::text::string_eq;

verus! {

/// What a strategy implements. Each callback gets the strategy's own
/// context and must leave it well formed.
pub trait Strategy {
    fn initialize(&mut self, ctx: &mut StrategyContext) -> (r: Result<(), StrategyError>)
        requires
            old(ctx).inv(),
        ensures
            final(ctx).inv(),
    ;

    fn on_market_tick(&mut self, market_id: &str, tick: &MarketTick, ctx: &mut StrategyContext, risk: &RiskEngine) -> (r: Result<(), StrategyError>)
        requires
            old(ctx).inv(),
        ensures
            final(ctx).inv(),
    ;

    fn on_fill(&mut self, fill: &Fill, ctx: &mut StrategyContext) -> (r: Result<(), StrategyError>)
        requires
            old(ctx).inv(),
        ensures
            final(ctx).inv(),
    ;

    fn on_cancel(&mut self, order_id: &str, ctx: &mut StrategyContext) -> (r: Result<(), StrategyError>)
        requires
            old(ctx).inv(),
        ensures
            final(ctx).inv(),
    ;

    fn on_timer(&mut self, ctx: &mut StrategyContext) -> (r: Result<(), StrategyError>)
        requires
            old(ctx).inv(),
        ensures
            final(ctx).inv(),
    ;

    fn shutdown(&mut self, ctx: &mut StrategyContext) -> (r: Result<(), StrategyError>)
        requires
            old(ctx).inv(),
        ensures
            final(ctx).inv(),
    ;

    fn metadata(&self) -> StrategyMetadata;
}

/// A registered strategy with its context and subscribed markets.
pub struct Registered<S> {
    pub id: String,
    pub strategy: S,
    pub context: StrategyContext,
    pub markets: Vec<String>,
}

pub open spec fn subscribes<S>(e: Registered<S>, market: Seq<char>) -> bool {
    exists|k: int| 0 <= k < e.markets@.len() && (#[trigger] e.markets@[k])@ == market
}

/// Ids of the entries subscribed to `market`, in registration order.
pub open spec fn subscribers<S>(es: Seq<Registered<S>>, market: Seq<char>) -> Seq<Seq<char>>
    decreases es.len(),
{
    if es.len() == 0 {
        Seq::empty()
    } else if subscribes(es.last(), market) {
        subscribers(es.drop_last(), market).push(es.last().id@)
    } else {
        subscribers(es.drop_last(), market)
    }
}

pub open spec fn ids_unique<S>(es: Seq<Registered<S>>) -> bool {
    forall|i: int, j: int| 0 <= i < j < es.len() ==> (#[trigger] es[i]).id@ != (#[trigger] es[j]).id@
}

pub open spec fn fits_i128(v: int) -> bool {
    i128::MIN <= v <= i128::MAX
}

/// Over the contexts of `es`: the total inventory value (`field` 0), the
/// total unrealized PnL (1) or the total realized PnL (2).
pub open spec fn total_of<S>(es: Seq<Registered<S>>, field: int) -> int
    decreases es.len(),
{
    if es.len() == 0 {
        0
    } else {
        let ps = es.last().context.positions();
        total_of(es.drop_last(), field) + if field == 0 {
            crate::context::sum_value(ps)
        } else if field == 1 {
            crate::context::sum_unrealized(ps)
        } else {
            crate::context::sum_realized(ps)
        }
    }
}

/// Net size held in `market` over the contexts of `es`.
pub open spec fn net_size_of<S>(es: Seq<Registered<S>>, market: Seq<char>) -> int
    decreases es.len(),
{
    if es.len() == 0 {
        0
    } else {
        net_size_of(es.drop_last(), market) + es.last().context.size_in(market)
    }
}

/// Totals over every strategy's positions.
#[derive(Debug, Clone, Copy, PartialEq, Eq, Structural)]
pub struct CrossMarketExposure {
    pub total_value: i128,
    pub total_unrealized_pnl: i128,
    pub total_realized_pnl: i128,
}

/// Owns the registered strategies and delivers events to them.
pub struct MultiMarketCoordinator<S> {
    entries: Vec<Registered<S>>,
}

impl<S: Strategy> MultiMarketCoordinator<S> {
    pub closed spec fn entries(&self) -> Seq<Registered<S>> {
        self.entries@
    }

    /// Ids are unique and every context is well formed.
    pub open spec fn inv(&self) -> bool {
        &&& ids_unique(self.entries())
        &&& forall|i: int| 0 <= i < self.entries().len() ==> (#[trigger] self.entries()[i]).context.inv()
    }

    pub fn new() -> (r: MultiMarketCoordinator<S>)
        ensures
            r.inv(),
            r.entries().len() == 0,
    {
        MultiMarketCoordinator { entries: Vec::new() }
    }

    fn find(&self, id: &str) -> (r: Option<usize>)
        ensures
            r is Some ==> r->0 < self.entries().len() && self.entries()[r->0 as int].id@ == id@,
            r is None ==> forall|k: int| 0 <= k < self.entries().len() ==> (#[trigger] self.entries()[k]).id@ != id@,
    {
        let mut i: usize = 0;
        while i < self.entries.len()
            invariant
                i <= self.entries@.len(),
                forall|k: int| 0 <= k < i ==> (#[trigger] self.entries@[k]).id@ != id@,
            decreases self.entries.len() - i,
        {
            if string_eq(&self.entries[i].id, id) {
                return Some(i);
            }
            i += 1;
        }
        None
    }

    /// Initializes `strategy` with `context` and registers it for `markets`.
    /// An id already registered is refused, as is a strategy whose
    /// initialization fails.
    pub fn register_strategy(&mut self, strategy_id: String, strategy: S, context: StrategyContext, markets: Vec<String>) -> (r: Result<(), StrategyError>)
        requires
            old(self).inv(),
            context.inv(),
        ensures
            final(self).inv(),
            (exists|k: int| 0 <= k < old(self).entries().len() && (#[trigger] old(self).entries()[k]).id@ == strategy_id@)
                ==> r is Err && final(self).entries() == old(self).entries(),
            r is Ok ==> final(self).entries().len() == old(self).entries().len() + 1
                && final(self).entries().drop_last() == old(self).entries()
                && final(self).entries().last().id@ == strategy_id@
                && final(self).entries().last().markets@ == markets@,
            r is Err ==> final(self).entries() == old(self).entries(),
    {
        if self.find(strategy_id.as_str()).is_some() {
            return Err(StrategyError::ConfigError(String::from_str("Strategy already registered")));
        }
        let mut strategy = strategy;
        let mut context = context;
        match strategy.initialize(&mut context) {
            Ok(()) => {},
            Err(e) => {
                return Err(e);
            },
        }
        let ghost s0 = self.entries@;
        self.entries.push(Registered { id: strategy_id, strategy, context, markets });
        proof {
            assert(self.entries@.drop_last() =~= s0);
            assert forall|a: int, b: int| 0 <= a < b < self.entries@.len() implies (#[trigger] self.entries@[a]).id@ != (#[trigger] self.entries@[b]).id@ by {
                assert(self.entries@[a] == s0[a]);
                if b < s0.len() {
                    assert(self.entries@[b] == s0[b]);
                }
            }
            assert forall|i: int| 0 <= i < self.entries@.len() implies (#[trigger] self.entries@[i]).context.inv() by {
                if i < s0.len() {
                    assert(self.entries@[i] == s0[i]);
                }
            }
        }
        Ok(())
    }

    /// Shuts the strategy down and removes it with its subscriptions.
    pub fn unregister_strategy(&mut self, strategy_id: &str) -> (r: Result<(), StrategyError>)
        requires
            old(self).inv(),
        ensures
            final(self).inv(),
            (forall|k: int| 0 <= k < old(self).entries().len() ==> (#[trigger] old(self).entries()[k]).id@ != strategy_id@)
                ==> r is Err && r->Err_0 is Other && final(self).entries() == old(self).entries(),
            (exists|k: int| 0 <= k < old(self).entries().len() && (#[trigger] old(self).entries()[k]).id@ == strategy_id@)
                ==> (exists|k: int| 0 <= k < old(self).entries().len() && (#[trigger] old(self).entries()[k]).id@ == strategy_id@
                    && final(self).entries() == old(self).entries().remove(k)),
            (exists|k: int| 0 <= k < old(self).entries().len() && (#[trigger] old(self).entries()[k]).id@ == strategy_id@)
                ==> forall|k: int| 0 <= k < final(self).entries().len() ==> (#[trigger] final(self).entries()[k]).id@ != strategy_id@,
    {
        let i = match self.find(strategy_id) {
            Some(i) => i,
            None => {
                return Err(StrategyError::Other(String::from_str("Strategy not found")));
            },
        };
        let ghost s0 = self.entries@;
        let mut e = self.entries.remove(i);
        proof {
            assert forall|a: int, b: int| 0 <= a < b < self.entries@.len() implies (#[trigger] self.entries@[a]).id@ != (#[trigger] self.entries@[b]).id@ by {
                let a0 = if a < i { a } else { a + 1 };
                let b0 = if b < i { b } else { b + 1 };
                assert(self.entries@[a] == s0[a0]);
                assert(self.entries@[b] == s0[b0]);
            }
            assert forall|k: int| 0 <= k < self.entries@.len() implies (#[trigger] self.entries@[k]).id@ != strategy_id@ by {
                let k0 = if k < i { k } else { k + 1 };
                assert(self.entries@[k] == s0[k0]);
                assert(s0[k0].id@ != s0[i as int].id@);
            }
            assert forall|k: int| 0 <= k < self.entries@.len() implies (#[trigger] self.entries@[k]).context.inv() by {
                let k0 = if k < i { k } else { k + 1 };
                assert(self.entries@[k] == s0[k0]);
            }
            assert(e.context.inv());
        }
        e.strategy.shutdown(&mut e.context)
    }

    /// Delivers `tick` for `market_id` to every strategy subscribed to that
    /// market, in registration order, and to no other. Returns the ids it
    /// was delivered to; the first failing strategy stops the fan-out.
    pub fn route_market_tick(&mut self, market_id: &str, tick: &MarketTick, risk: &RiskEngine) -> (r: Result<Vec<String>, StrategyError>)
        requires
            old(self).inv(),
        ensures
            final(self).inv(),
            final(self).entries().len() == old(self).entries().len(),
            forall|k: int| 0 <= k < final(self).entries().len() ==> (#[trigger] final(self).entries()[k]).id == old(self).entries()[k].id
                && final(self).entries()[k].markets == old(self).entries()[k].markets,
            r is Ok ==> r->Ok_0@.map_values(|s: String| s@) == subscribers(old(self).entries(), market_id@),
            forall|k: int| 0 <= k < old(self).entries().len() && !subscribes(#[trigger] old(self).entries()[k], market_id@)
                ==> final(self).entries()[k] == old(self).entries()[k],
            subscribers(old(self).entries(), market_id@).len() == 0 ==> r is Ok && final(self).entries() == old(self).entries(),
    {
        let mut delivered: Vec<String> = Vec::new();
        let ghost s0 = self.entries@;
        let n = self.entries.len();
        let mut i: usize = 0;
        while i < n
            invariant
                n == s0.len(),
                s0 == old(self).entries@,
                i <= n,
                self.entries@.len() == n,
                forall|k: int| 0 <= k < n ==> (#[trigger] self.entries@[k]).id == s0[k].id && self.entries@[k].markets == s0[k].markets,
                forall|k: int| 0 <= k < n ==> (#[trigger] self.entries@[k]).context.inv(),
                ids_unique(s0),
                delivered@.map_values(|s: String| s@) == subscribers(s0.subrange(0, i as int), market_id@),
                forall|k: int| i <= k < n ==> self.entries@[k] == s0[k],
                forall|k: int| 0 <= k < i && !subscribes(#[trigger] s0[k], market_id@) ==> self.entries@[k] == s0[k],
            decreases n - i,
        {
            assert(s0.subrange(0, i + 1).drop_last() =~= s0.subrange(0, i as int));
            assert(self.entries@[i as int] == s0[i as int]);
            let mut e = self.entries.remove(i);
            let ghost e0 = e;
            let mut hit = false;
            let mut k: usize = 0;
            while k < e.markets.len()
                invariant
                    k <= e.markets@.len(),
                    e == e0,
                    !hit ==> forall|j: int| 0 <= j < k ==> (#[trigger] e.markets@[j])@ != market_id@,
                    hit ==> subscribes(e, market_id@),
                decreases e.markets.len() - k,
            {
                if !hit && string_eq(&e.markets[k], market_id) {
                    hit = true;
                }
                k += 1;
            }
            assert(hit == subscribes(e0, market_id@));
            assert(e0 == s0[i as int] || (e0.id == s0[i as int].id && e0.markets == s0[i as int].markets));
            assert(subscribes(e0, market_id@) == subscribes(s0[i as int], market_id@));
            let mut failed: Option<StrategyError> = None;
            if hit {
                let res = e.strategy.on_market_tick(market_id, tick, &mut e.context, risk);
                match res {
                    Ok(()) => {},
                    Err(err) => {
                        failed = Some(err);
                    },
                }
                let ghost d0 = delivered@;
                delivered.push(e.id.clone());
                assert(delivered@.map_values(|s: String| s@) =~= d0.map_values(|s: String| s@).push(s0[i as int].id@));
            }
            let ghost before = self.entries@;
            self.entries.insert(i, e);
            proof {
                assert forall|a: int| 0 <= a < n implies (#[trigger] self.entries@[a]).id == s0[a].id && self.entries@[a].markets == s0[a].markets by {
                    if a < i {
                        assert(self.entries@[a] == before[a]);
                    } else if a > i {
                        assert(self.entries@[a] == before[a - 1]);
                    }
                }
                assert forall|a: int| 0 <= a < n implies (#[trigger] self.entries@[a]).context.inv() by {
                    if a < i {
                        assert(self.entries@[a] == before[a]);
                    } else if a > i {
                        assert(self.entries@[a] == before[a - 1]);
                    }
                }
                assert forall|a: int| i + 1 <= a < n implies self.entries@[a] == s0[a] by {
                    assert(self.entries@[a] == before[a - 1]);
                }
                assert forall|a: int| 0 <= a < i + 1 && !subscribes(#[trigger] s0[a], market_id@) implies self.entries@[a] == s0[a] by {
                    if a < i {
                        assert(self.entries@[a] == before[a]);
                    }
                }
            }
            if let Some(err) = failed {
                proof {
                    self.lemma_same_ids(s0);
                    lemma_routing_isolation(s0, market_id@, i as int);
                    assert(subscribers(s0, market_id@).len() > 0);
                }
                return Err(err);
            }
            i += 1;
        }
        assert(s0.subrange(0, n as int) =~= s0);
        proof {
            self.lemma_same_ids(s0);
            if subscribers(s0, market_id@).len() == 0 {
                assert forall|k: int| 0 <= k < n implies self.entries@[k] == s0[k] by {
                    lemma_routing_isolation(s0, market_id@, k);
                }
                assert(self.entries@ =~= s0);
            }
        }
        Ok(delivered)
    }

    proof fn lemma_same_ids(&self, s0: Seq<Registered<S>>)
        requires
            ids_unique(s0),
            self.entries().len() == s0.len(),
            forall|k: int| 0 <= k < s0.len() ==> (#[trigger] self.entries()[k]).id == s0[k].id,
        ensures
            ids_unique(self.entries()),
    {
        assert forall|a: int, b: int| 0 <= a < b < self.entries().len() implies (#[trigger] self.entries()[a]).id@ != (#[trigger] self.entries()[b]).id@ by {
            assert(s0[a].id@ != s0[b].id@);
        }
    }

    /// Delivers `fill` to the strategy `strategy_id`.
    pub fn route_fill(&mut self, strategy_id: &str, fill: &Fill) -> (r: Result<(), StrategyError>)
        requires
            old(self).inv(),
        ensures
            final(self).inv(),
            (forall|k: int| 0 <= k < old(self).entries().len() ==> (#[trigger] old(self).entries()[k]).id@ != strategy_id@)
                ==> r is Err && r->Err_0 is Other && final(self).entries() == old(self).entries(),
            final(self).entries().len() == old(self).entries().len(),
            forall|k: int| 0 <= k < old(self).entries().len() ==> (#[trigger] final(self).entries()[k]).id == old(self).entries()[k].id
                && final(self).entries()[k].markets == old(self).entries()[k].markets
                && (old(self).entries()[k].id@ != strategy_id@ ==> final(self).entries()[k] == old(self).entries()[k]),
    {
        let i = match self.find(strategy_id) {
            Some(i) => i,
            None => {
                return Err(StrategyError::Other(String::from_str("Strategy not found")));
            },
        };
        let ghost s0 = self.entries@;
        let mut e = self.entries.remove(i);
        assert(e.context.inv());
        let r = e.strategy.on_fill(fill, &mut e.context);
        self.restore(i, e, Ghost(s0));
        r
    }

    /// Delivers the cancellation of `order_id` to the strategy `strategy_id`.
    pub fn route_cancel(&mut self, strategy_id: &str, order_id: &str) -> (r: Result<(), StrategyError>)
        requires
            old(self).inv(),
        ensures
            final(self).inv(),
            (forall|k: int| 0 <= k < old(self).entries().len() ==> (#[trigger] old(self).entries()[k]).id@ != strategy_id@)
                ==> r is Err && r->Err_0 is Other && final(self).entries() == old(self).entries(),
            final(self).entries().len() == old(self).entries().len(),
            forall|k: int| 0 <= k < old(self).entries().len() ==> (#[trigger] final(self).entries()[k]).id == old(self).entries()[k].id
                && final(self).entries()[k].markets == old(self).entries()[k].markets
                && (old(self).entries()[k].id@ != strategy_id@ ==> final(self).entries()[k] == old(self).entries()[k]),
    {
        let i = match self.find(strategy_id) {
            Some(i) => i,
            None => {
                return Err(StrategyError::Other(String::from_str("Strategy not found")));
            },
        };
        let ghost s0 = self.entries@;
        let mut e = self.entries.remove(i);
        assert(e.context.inv());
        let r = e.strategy.on_cancel(order_id, &mut e.context);
        self.restore(i, e, Ghost(s0));
        r
    }

    fn restore(&mut self, i: usize, e: Registered<S>, Ghost(s0): Ghost<Seq<Registered<S>>>)
        requires
            i < s0.len(),
            old(self).entries() == s0.remove(i as int),
            ids_unique(s0),
            forall|k: int| 0 <= k < s0.len() ==> (#[trigger] s0[k]).context.inv(),
            e.id == s0[i as int].id,
            e.context.inv(),
        ensures
            final(self).inv(),
            final(self).entries().len() == s0.len(),
            final(self).entries() == s0.update(i as int, e),
    {
        self.entries.insert(i, e);
        assert(self.entries@ =~= s0.update(i as int, e));
        proof {
            assert forall|a: int| 0 <= a < s0.len() implies (#[trigger] self.entries@[a]).id == s0[a].id && self.entries@[a].context.inv() by {
                if a < i {
                    assert(self.entries@[a] == s0[a]);
                } else if a > i {
                    assert(self.entries@[a] == s0[a]);
                }
            }
            self.lemma_same_ids(s0);
        }
    }

    /// Runs every strategy's timer hook, in registration order.
    pub fn on_timer_all(&mut self) -> (r: Result<(), StrategyError>)
        requires
            old(self).inv(),
        ensures
            final(self).inv(),
            final(self).entries().len() == old(self).entries().len(),
            forall|k: int| 0 <= k < old(self).entries().len() ==> (#[trigger] final(self).entries()[k]).id == old(self).entries()[k].id
                && final(self).entries()[k].markets == old(self).entries()[k].markets,
    {
        let ghost s0 = self.entries@;
        let n = self.entries.len();
        let mut i: usize = 0;
        while i < n
            invariant
                i <= n,
                n == old(self).entries@.len(),
                self.entries@.len() == n,
                forall|k: int| 0 <= k < n ==> (#[trigger] self.entries@[k]).id == old(self).entries@[k].id
                    && self.entries@[k].markets == old(self).entries@[k].markets,
                ids_unique(self.entries@),
                forall|k: int| 0 <= k < n ==> (#[trigger] self.entries@[k]).context.inv(),
            decreases n - i,
        {
            let ghost s1 = self.entries@;
            let mut e = self.entries.remove(i);
            assert(e == s1[i as int]);
            let r = e.strategy.on_timer(&mut e.context);
            self.restore(i, e, Ghost(s1));
            if r.is_err() {
                return r;
            }
            i += 1;
        }
        Ok(())
    }

    /// Totals of inventory value and PnL over every strategy's context;
    /// `None` when a total would not fit an `i128`.
    pub fn calculate_total_exposure(&self) -> (r: Option<CrossMarketExposure>)
        ensures
            r is Some ==> r->0.total_value == total_of(self.entries(), 0)
                && r->0.total_unrealized_pnl == total_of(self.entries(), 1)
                && r->0.total_realized_pnl == total_of(self.entries(), 2),
            (forall|k: int| 0 <= k <= self.entries().len() ==> fits_i128(#[trigger] total_of(self.entries().subrange(0, k), 0))
                    && fits_i128(total_of(self.entries().subrange(0, k), 1)) && fits_i128(total_of(self.entries().subrange(0, k), 2)))
                ==> r is Some,
    {
        let mut totals: (i128, i128, i128) = (0, 0, 0);
        let mut i: usize = 0;
        while i < self.entries.len()
            invariant
                i <= self.entries@.len(),
                totals.0 == total_of(self.entries@.subrange(0, i as int), 0),
                totals.1 == total_of(self.entries@.subrange(0, i as int), 1),
                totals.2 == total_of(self.entries@.subrange(0, i as int), 2),
            decreases self.entries.len() - i,
        {
            assert(self.entries@.subrange(0, i + 1).drop_last() =~= self.entries@.subrange(0, i as int));
            assert(self.entries@.subrange(0, i + 1).last() == self.entries@[i as int]);
            let ghost next = self.entries@.subrange(0, i + 1);
            let ghost prev = self.entries@.subrange(0, i as int);
            let c = &self.entries[i].context;
            assert(total_of(next, 0) == total_of(prev, 0) + crate::context::sum_value(c.positions()));
            assert(total_of(next, 1) == total_of(prev, 1) + crate::context::sum_unrealized(c.positions()));
            assert(total_of(next, 2) == total_of(prev, 2) + crate::context::sum_realized(c.positions()));
            let v = match totals.0.checked_add(c.calculate_total_inventory_value()) {
                Some(v) => v,
                None => {
                    assert(!fits_i128(total_of(next, 0)));
                    assert(self.entries@.subrange(0, i + 1) == self.entries().subrange(0, i + 1));
                    return None;
                },
            };
            let u = match totals.1.checked_add(c.calculate_total_unrealized_pnl()) {
                Some(u) => u,
                None => {
                    assert(!fits_i128(total_of(next, 1)));
                    assert(self.entries@.subrange(0, i + 1) == self.entries().subrange(0, i + 1));
                    return None;
                },
            };
            let z = match totals.2.checked_add(c.calculate_total_realized_pnl()) {
                Some(z) => z,
                None => {
                    assert(!fits_i128(total_of(next, 2)));
                    assert(self.entries@.subrange(0, i + 1) == self.entries().subrange(0, i + 1));
                    return None;
                },
            };
            totals = (v, u, z);
            i += 1;
        }
        assert(self.entries@.subrange(0, self.entries@.len() as int) =~= self.entries@);
        Some(CrossMarketExposure { total_value: totals.0, total_unrealized_pnl: totals.1, total_realized_pnl: totals.2 })
    }

    /// Net size held in `market_id` across all strategies.
    pub fn net_size(&self, market_id: &str) -> (r: i128)
        requires
            self.inv(),
        ensures
            r == net_size_of(self.entries(), market_id@),
    {
        let mut total: i128 = 0;
        let mut i: usize = 0;
        while i < self.entries.len()
            invariant
                self.inv(),
                i <= self.entries@.len(),
                total == net_size_of(self.entries@.subrange(0, i as int), market_id@),
                -(i as int) * 0x8000_0000_0000_0000 <= total <= (i as int) * 0x8000_0000_0000_0000,
            decreases self.entries.len() - i,
        {
            assert(self.entries@.subrange(0, i + 1).drop_last() =~= self.entries@.subrange(0, i as int));
            assert(self.entries@.subrange(0, i + 1).last() == self.entries@[i as int]);
            proof {
                assert((i as int) * 0x8000_0000_0000_0000 <= 0x8000_0000_0000_0000 * 0xffff_ffff_ffff_ffff) by (nonlinear_arith)
                    requires i < 0xffff_ffff_ffff_ffff;
            }
            assert(self.entries()[i as int].context.inv());
            let size = match self.entries[i].context.get_position(market_id) {
                Some(p) => p.size,
                None => 0,
            };
            total = total + size as i128;
            i += 1;
        }
        assert(self.entries@.subrange(0, self.entries@.len() as int) =~= self.entries@);
        total
    }

    pub fn strategy_count(&self) -> (r: usize)
        ensures
            r == self.entries().len(),
    {
        self.entries.len()
    }

    /// Registered ids, in registration order.
    pub fn strategy_ids(&self) -> (r: Vec<String>)
        ensures
            r@.len() == self.entries().len(),
            forall|k: int| 0 <= k < r@.len() ==> (#[trigger] r@[k])@ == self.entries()[k].id@,
    {
        let mut out: Vec<String> = Vec::new();
        let mut i: usize = 0;
        while i < self.entries.len()
            invariant
                i <= self.entries@.len(),
                out@.len() == i,
                forall|k: int| 0 <= k < i ==> (#[trigger] out@[k])@ == self.entries@[k].id@,
            decreases self.entries.len() - i,
        {
            out.push(self.entries[i].id.clone());
            i += 1;
        }
        out
    }

    /// The context of `strategy_id`, if registered.
    pub fn get_context(&self, strategy_id: &str) -> (r: Option<&StrategyContext>)
        ensures
            r is Some <==> exists|k: int| 0 <= k < self.entries().len() && (#[trigger] self.entries()[k]).id@ == strategy_id@,
    {
        match self.find(strategy_id) {
            Some(i) => Some(&self.entries[i].context),
            None => None,
        }
    }
}

/// Tick routing isolates strategies: an id is among the subscribers of a
/// market exactly when its strategy subscribed to that market, and (ids
/// being unique) it appears there once.
pub proof fn lemma_routing_isolation<S>(es: Seq<Registered<S>>, market: Seq<char>, i: int)
    requires
        ids_unique(es),
        0 <= i < es.len(),
    ensures
        subscribes(es[i], market) ==> subscribers(es, market).contains(es[i].id@),
        !subscribes(es[i], market) ==> !subscribers(es, market).contains(es[i].id@),
        forall|a: int, b: int|
            0 <= a < b < subscribers(es, market).len() ==> subscribers(es, market)[a] != subscribers(es, market)[b],
    decreases es.len(),
{
    lemma_subscribers_from(es, market);
    lemma_subscribers_distinct(es, market);
    if i == es.len() - 1 {
        let p = es.drop_last();
        if !subscribes(es[i], market) {
            lemma_subscribers_from(p, market);
            if subscribers(p, market).contains(es[i].id@) {
                let j = choose|j: int| 0 <= j < subscribers(p, market).len() && subscribers(p, market)[j] == es[i].id@;
                let m = choose|m: int| 0 <= m < p.len() && p[m].id@ == subscribers(p, market)[j];
                assert(es[m].id@ != es[i].id@);
            }
        } else {
            assert(subscribers(es, market).last() == es[i].id@);
        }
    } else {
        let p = es.drop_last();
        assert(p[i] == es[i]);
        assert(ids_unique(p));
        lemma_routing_isolation(p, market, i);
        if subscribes(es.last(), market) {
            assert(es.last().id@ != es[i].id@);
            assert(subscribers(es, market) == subscribers(p, market).push(es.last().id@));
            if subscribes(es[i], market) {
                let j = choose|j: int| 0 <= j < subscribers(p, market).len() && subscribers(p, market)[j] == es[i].id@;
                assert(subscribers(es, market)[j] == es[i].id@);
            } else {
                assert(!subscribers(p, market).contains(es[i].id@));
                assert forall|j: int| 0 <= j < subscribers(es, market).len() implies subscribers(es, market)[j] != es[i].id@ by {
                    if j < subscribers(p, market).len() {
                        assert(subscribers(es, market)[j] == subscribers(p, market)[j]);
                    }
                }
            }
        }
    }
}

proof fn lemma_subscribers_distinct<S>(es: Seq<Registered<S>>, market: Seq<char>)
    requires
        ids_unique(es),
    ensures
        forall|a: int, b: int|
            0 <= a < b < subscribers(es, market).len() ==> subscribers(es, market)[a] != subscribers(es, market)[b],
    decreases es.len(),
{
    if es.len() > 0 {
        let p = es.drop_last();
        assert(ids_unique(p));
        lemma_subscribers_distinct(p, market);
        lemma_subscribers_from(p, market);
        if subscribes(es.last(), market) {
            let sp = subscribers(p, market);
            let se = subscribers(es, market);
            assert(se == sp.push(es.last().id@));
            assert forall|a: int, b: int| 0 <= a < b < se.len() implies se[a] != se[b] by {
                if b == se.len() - 1 {
                    assert(se[a] == sp[a]);
                    let m = choose|m: int| 0 <= m < p.len() && p[m].id@ == sp[a];
                    assert(p[m] == es[m]);
                    assert(es[m].id@ != es[es.len() - 1].id@);
                } else {
                    assert(se[a] == sp[a]);
                    assert(se[b] == sp[b]);
                }
            }
        } else {
            assert(subscribers(es, market) == subscribers(p, market));
        }
    }
}

/// Every id among the subscribers belongs to some entry.
proof fn lemma_subscribers_from<S>(es: Seq<Registered<S>>, market: Seq<char>)
    ensures
        forall|j: int| 0 <= j < subscribers(es, market).len() ==> exists|m: int| 0 <= m < es.len() && es[m].id@ == #[trigger] subscribers(es, market)[j],
    decreases es.len(),
{
    if es.len() > 0 {
        let p = es.drop_last();
        lemma_subscribers_from(p, market);
        assert forall|j: int| 0 <= j < subscribers(es, market).len() implies exists|m: int| 0 <= m < es.len() && es[m].id@ == #[trigger] subscribers(es, market)[j] by {
            if j < subscribers(p, market).len() {
                assert(subscribers(es, market)[j] == subscribers(p, market)[j]);
                let m = choose|m: int| 0 <= m < p.len() && p[m].id@ == subscribers(p, market)[j];
                assert(es[m] == p[m]);
            } else {
                assert(es[es.len() - 1].id@ == subscribers(es, market)[j]);
            }
        }
    }
}

} // verus!
