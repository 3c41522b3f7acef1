//! Cross-market arbitrage: buy the cheaper of two markets and sell the
//! dearer when their prices differ by enough basis points.
use vstd::prelude::*;
use vstd::string::*;
use crate::context::StrategyContext;
use crate::coordinator::Strategy;
use crate::decimal::{abs, BPS_DENOM, SCALE};
use crate::risk::RiskEngine;
use crate::strategy::{
    mid_of,
    trunc_div, trunc_div_i128, Fill, MarketTick, Order, OrderStatus, OrderType, Side, StrategyError,
    StrategyMetadata, TimeInForce,
};
use crate::text::string_eq;

verus! {

/// Thresholds and sizes of the arbitrage.
#[derive(Debug, Clone, Copy, PartialEq, Eq, Structural)]
pub struct CrossMarketArbConfig {
    /// Smallest price gap, in basis points of the mid, worth trading.
    pub min_spread_bps: i64,
    /// Size of each leg.
    pub size: i64,
    /// Largest absolute position per market.
    pub max_position: i64,
}

impl Default for CrossMarketArbConfig {
    fn default() -> (r: CrossMarketArbConfig)
        ensures
            r.min_spread_bps == 10 && r.size == 50 * SCALE && r.max_position == 500 * SCALE,
    {
        CrossMarketArbConfig { min_spread_bps: 10, size: 50 * SCALE, max_position: 500 * SCALE }
    }
}

/// Gap between two prices in basis points of their mean (rounded down);
/// zero when the mean is not positive.
pub open spec fn spread_bps_of(a: int, b: int) -> int {
    let mid = (a + b) / 2;
    if mid <= 0 {
        0
    } else {
        trunc_div(abs(a - b) * BPS_DENOM, mid)
    }
}

/// The gap between `price_a` and `price_b` in basis points of their mean.
pub fn calculate_spread_bps(price_a: i64, price_b: i64) -> (r: i128)
    ensures
        r == spread_bps_of(price_a as int, price_b as int),
{
    let sum = price_a as i128 + price_b as i128;
    let mid = if sum >= 0 { sum / 2 } else { -((-sum + 1) / 2) };
    if mid <= 0 {
        return 0;
    }
    let d = price_a as i128 - price_b as i128;
    let ad = if d < 0 { -d } else { d };
    proof {
        assert(ad * BPS_DENOM <= 0x1_0000_0000_0000_0000 * 10_000) by (nonlinear_arith)
            requires 0 <= ad <= 0x1_0000_0000_0000_0000;
    }
    trunc_div_i128(ad * BPS_DENOM as i128, mid)
}

/// The legs of an arbitrage: buy `buy_is_a ? a : b` at its price, sell the other.
pub open spec fn arb_legs(cfg: CrossMarketArbConfig, pa: int, pb: int, pos_a: int, pos_b: int) -> Option<bool> {
    if spread_bps_of(pa, pb) < cfg.min_spread_bps {
        None
    } else {
        let buy_is_a = pa < pb;
        let buy_pos = if buy_is_a { pos_a } else { pos_b };
        let sell_pos = if buy_is_a { pos_b } else { pos_a };
        if buy_pos + cfg.size > cfg.max_position || sell_pos - cfg.size < -cfg.max_position {
            None
        } else {
            Some(buy_is_a)
        }
    }
}

/// Decides the arbitrage for last prices `price_a`, `price_b` and positions
/// `pos_a`, `pos_b`: `Some(true)` buys A and sells B, `Some(false)` the
/// reverse, `None` trades nothing (gap too small, or a leg would pass the
/// position limit).
pub fn arbitrage_legs(cfg: &CrossMarketArbConfig, price_a: i64, price_b: i64, pos_a: i64, pos_b: i64) -> (r: Option<bool>)
    ensures
        r == arb_legs(*cfg, price_a as int, price_b as int, pos_a as int, pos_b as int),
{
    if calculate_spread_bps(price_a, price_b) < cfg.min_spread_bps as i128 {
        return None;
    }
    let buy_is_a = price_a < price_b;
    let buy_pos = if buy_is_a { pos_a } else { pos_b };
    let sell_pos = if buy_is_a { pos_b } else { pos_a };
    if buy_pos as i128 + cfg.size as i128 > cfg.max_position as i128 || sell_pos as i128 - (cfg.size as i128) < -(cfg.max_position as i128) {
        None
    } else {
        Some(buy_is_a)
    }
}

/// Whether `o` is an arbitrage leg: an immediate-or-cancel limit order on
/// `side` in `market` at `price` for `size`.
pub open spec fn is_leg(o: Order, market: String, side: Side, price: i64, size: i64) -> bool {
    &&& o.market == market
    &&& o.side == side
    &&& o.order_type == OrderType::Limit
    &&& o.price == Some(price)
    &&& o.size == size
    &&& o.time_in_force == TimeInForce::IOC
    &&& o.id is None
}

/// Watches two markets and trades their price gap.
pub struct CrossMarketArbStrategy {
    config: CrossMarketArbConfig,
    market_a: String,
    market_b: String,
    last_a: Option<i64>,
    last_b: Option<i64>,
}

impl CrossMarketArbStrategy {
    pub closed spec fn settings(&self) -> CrossMarketArbConfig {
        self.config
    }

    pub closed spec fn markets(&self) -> (Seq<char>, Seq<char>) {
        (self.market_a@, self.market_b@)
    }

    pub closed spec fn market_names(&self) -> (String, String) {
        (self.market_a, self.market_b)
    }

    /// Last positive mid seen in each market.
    pub closed spec fn last_prices(&self) -> (Option<i64>, Option<i64>) {
        (self.last_a, self.last_b)
    }

    pub fn new(market_a: String, market_b: String, config: CrossMarketArbConfig) -> (r: CrossMarketArbStrategy)
        ensures
            r.settings() == config,
            r.markets() == (market_a@, market_b@),
            r.last_prices() == (None::<i64>, None::<i64>),
    {
        CrossMarketArbStrategy { config, market_a, market_b, last_a: None, last_b: None }
    }

    /// The other market of the pair.
    pub fn get_other_market(&self, market_id: &str) -> (r: Option<&String>)
        ensures
            market_id@ == self.markets().0 ==> r is Some && r->0@ == self.markets().1,
            market_id@ != self.markets().0 && market_id@ == self.markets().1 ==> r is Some && r->0@ == self.markets().0,
            market_id@ != self.markets().0 && market_id@ != self.markets().1 ==> r is None,
    {
        if string_eq(&self.market_a, market_id) {
            Some(&self.market_b)
        } else if string_eq(&self.market_b, market_id) {
            Some(&self.market_a)
        } else {
            None
        }
    }

    fn leg(&self, market: &String, side: Side, price: i64) -> (r: Order)
        ensures
            r.market == *market,
            r.side == side,
            r.order_type == OrderType::Limit,
            r.price == Some(price),
            r.size == self.settings().size,
            r.time_in_force == TimeInForce::IOC,
            r.id is None,
    {
        Order {
            id: None,
            venue: String::from_str("polymarket"),
            market: market.clone(),
            side,
            order_type: OrderType::Limit,
            price: Some(price),
            size: self.config.size,
            time_in_force: TimeInForce::IOC,
            client_order_id: None,
            timestamp: crate::order::now_millis(),
            status: OrderStatus::Pending,
        }
    }

    /// Records the tick's mid for its market (when positive) and, once both
    /// markets have a price, submits the buy leg and then the sell leg that
    /// `arbitrage_legs` decides on; a submission error is returned.
    pub fn process_tick(&mut self, market_id: &str, tick: &MarketTick, ctx: &mut StrategyContext, risk: &RiskEngine) -> (r: Result<(), StrategyError>)
        requires
            old(ctx).inv(),
        ensures
            final(ctx).inv(),
            final(self).settings() == old(self).settings(),
            final(self).market_names() == old(self).market_names(),
            final(ctx).positions() == old(ctx).positions(),
            ({
                let (ma, mb) = old(self).market_names();
                let is_a = market_id@ == ma@;
                let is_b = !is_a && market_id@ == mb@;
                let mid = mid_of(*tick);
                if !(is_a || is_b) || mid <= 0 {
                    r is Ok && *final(self) == *old(self) && *final(ctx) == *old(ctx)
                } else {
                    let (la, lb) = final(self).last_prices();
                    &&& la == if is_a { Some(mid as i64) } else { old(self).last_prices().0 }
                    &&& lb == if is_b { Some(mid as i64) } else { old(self).last_prices().1 }
                    &&& (la is None || lb is None) ==> r is Ok && *final(ctx) == *old(ctx)
                    &&& (la is Some && lb is Some) ==> ({
                        let cfg = old(self).settings();
                        let legs = arb_legs(cfg, la->0 as int, lb->0 as int, old(ctx).size_in(ma@), old(ctx).size_in(mb@));
                        let buy_is_a = legs->0;
                        let (bm, sm) = if buy_is_a { (ma, mb) } else { (mb, ma) };
                        let (bp, sp) = if buy_is_a { (la->0, lb->0) } else { (lb->0, la->0) };
                        let k = old(ctx).open_orders().len();
                        &&& legs is None ==> r is Ok && *final(ctx) == *old(ctx)
                        &&& legs is Some && r is Ok ==> final(ctx).open_orders().len() == k + 2
                            && final(ctx).open_orders().subrange(0, k as int) == old(ctx).open_orders()
                            && is_leg(final(ctx).open_orders()[k as int].1, bm, Side::Buy, bp, cfg.size)
                            && is_leg(final(ctx).open_orders()[(k + 1) as int].1, sm, Side::Sell, sp, cfg.size)
                        &&& legs is Some && old(ctx).accepts_trade(*risk, bm, Side::Buy, cfg.size)
                            && old(ctx).accepts_trade(*risk, sm, Side::Sell, cfg.size)
                            && old(ctx).venue().next_id() + 1 < u64::MAX ==> r is Ok
                    })
                }
            }),
    {
        let is_a = string_eq(&self.market_a, market_id);
        let is_b = !is_a && string_eq(&self.market_b, market_id);
        if !is_a && !is_b {
            return Ok(());
        }
        let price = tick.mid_price();
        if price <= 0 {
            return Ok(());
        }
        if is_a {
            self.last_a = Some(price);
        } else {
            self.last_b = Some(price);
        }
        let (pa, pb) = match (self.last_a, self.last_b) {
            (Some(pa), Some(pb)) => (pa, pb),
            _ => {
                return Ok(());
            },
        };
        let pos_a = Self::position_size(ctx, &self.market_a);
        let pos_b = Self::position_size(ctx, &self.market_b);
        match arbitrage_legs(&self.config, pa, pb, pos_a, pos_b) {
            Some(buy_is_a) => {
                let (buy, sell) = if buy_is_a {
                    (self.leg(&self.market_a, Side::Buy, pa), self.leg(&self.market_b, Side::Sell, pb))
                } else {
                    (self.leg(&self.market_b, Side::Buy, pb), self.leg(&self.market_a, Side::Sell, pa))
                };
                let ghost c0 = *ctx;
                match ctx.submit_order(risk, buy) {
                    Ok(_) => {},
                    Err(e) => {
                        return Err(e);
                    },
                }
                let ghost c1 = *ctx;
                assert(c1.positions() == c0.positions());
                assert(c1.trade_context(sell.market, Side::Sell, sell.size) == c0.trade_context(sell.market, Side::Sell, sell.size));
                let r = ctx.submit_order(risk, sell);
                proof {
                    if r is Ok {
                        let k = c0.open_orders().len();
                        assert(ctx.open_orders()[k as int] == c1.open_orders()[k as int]);
                        assert(ctx.open_orders().subrange(0, k as int) =~= c0.open_orders());
                    }
                }
                match r {
                    Ok(_) => Ok(()),
                    Err(e) => Err(e),
                }
            },
            None => Ok(()),
        }
    }

    fn position_size(ctx: &StrategyContext, market: &String) -> (r: i64)
        requires
            ctx.inv(),
        ensures
            r == ctx.size_in(market@),
    {
        match ctx.get_position(market.as_str()) {
            Some(p) => p.size,
            None => 0,
        }
    }
}

impl Strategy for CrossMarketArbStrategy {
    fn initialize(&mut self, ctx: &mut StrategyContext) -> (r: Result<(), StrategyError>) {
        Ok(())
    }

    fn on_market_tick(&mut self, market_id: &str, tick: &MarketTick, ctx: &mut StrategyContext, risk: &RiskEngine) -> (r: Result<(), StrategyError>) {
        self.process_tick(market_id, tick, ctx, risk)
    }

    fn on_fill(&mut self, fill: &Fill, ctx: &mut StrategyContext) -> (r: Result<(), StrategyError>) {
        let delta = match fill.side {
            Side::Buy => fill.size,
            Side::Sell => if fill.size == i64::MIN { return Ok(()); } else { -fill.size },
        };
        ctx.update_position(fill.market.as_str(), delta, fill.price);
        Ok(())
    }

    fn on_cancel(&mut self, order_id: &str, ctx: &mut StrategyContext) -> (r: Result<(), StrategyError>) {
        Ok(())
    }

    fn on_timer(&mut self, ctx: &mut StrategyContext) -> (r: Result<(), StrategyError>) {
        Ok(())
    }

    fn shutdown(&mut self, ctx: &mut StrategyContext) -> (r: Result<(), StrategyError>) {
        Ok(())
    }

    fn metadata(&self) -> StrategyMetadata {
        let mut markets: Vec<String> = Vec::new();
        markets.push(self.market_a.clone());
        markets.push(self.market_b.clone());
        StrategyMetadata {
            name: String::from_str("CrossMarketArbitrage"),
            version: String::from_str("1.0.0"),
            description: String::from_str("Cross-market arbitrage on the price gap of two markets"),
            markets,
            required_params: Vec::new(),
        }
    }
}

} // verus!
