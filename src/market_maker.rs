//! Two-sided quoting around the mid, with the spread widened and shifted by
//! the inventory held.
use vstd::prelude::*;
use vstd::string::*;
use crate::context::{outside_market, StrategyContext};
use crate::coordinator::Strategy;
use crate::decimal::{abs, BPS_DENOM, SCALE};
use crate::risk::RiskEngine;
use crate::strategy::{
    mid_of,
    fits, trunc_div, trunc_div_i128, Fill, MarketTick, Order, OrderStatus, OrderType, Side,
    StrategyError, StrategyMetadata, TimeInForce,
};
use crate::text::string_eq;

verus! {

/// Quoting parameters. Amounts are fixed-point units; `skew_factor` is a
/// fixed-point ratio (`SCALE` is one).
#[derive(Debug, Clone, Copy, PartialEq, Eq, Structural)]
pub struct MarketMakerConfig {
    pub target_spread_bps: i64,
    pub quote_size: i64,
    pub max_position: i64,
    pub inventory_target: i64,
    pub skew_factor: i64,
    pub min_quote_interval_ms: u64,
}

impl Default for MarketMakerConfig {
    fn default() -> (r: MarketMakerConfig)
        ensures
            r.target_spread_bps == 20 && r.quote_size == 100 * SCALE && r.max_position == 1000 * SCALE
                && r.inventory_target == 0 && r.skew_factor == SCALE / 2 && r.min_quote_interval_ms == 100,
    {
        MarketMakerConfig {
            target_spread_bps: 20,
            quote_size: 100 * SCALE,
            max_position: 1000 * SCALE,
            inventory_target: 0,
            skew_factor: SCALE / 2,
            min_quote_interval_ms: 100,
        }
    }
}

/// Inventory away from target as a fixed-point share of the position limit.
pub open spec fn skew_of(cfg: MarketMakerConfig, position: int) -> int {
    if cfg.max_position <= 0 {
        0
    } else {
        trunc_div((position - cfg.inventory_target) * SCALE, cfg.max_position as int)
    }
}

/// Bid and ask around `mid`: the target spread widened by the skew's size
/// times the skew factor, and both shifted down by half the skew's share of
/// that spread.
pub open spec fn quotes_of(cfg: MarketMakerConfig, mid: int, position: int) -> (int, int) {
    let base = trunc_div(mid * cfg.target_spread_bps, BPS_DENOM as int);
    let skew = skew_of(cfg, position);
    let adjustment = SCALE + trunc_div(abs(skew) * cfg.skew_factor, SCALE as int);
    let spread = trunc_div(base * adjustment, SCALE as int);
    let shift = trunc_div(skew * spread, 2 * SCALE);
    (mid - trunc_div(spread, 2) - shift, mid + trunc_div(spread, 2) - shift)
}

/// Whether every step of `quotes_of` stays within the `i64` range.
pub open spec fn quotes_fit(cfg: MarketMakerConfig, mid: int, position: int) -> bool {
    let base = trunc_div(mid * cfg.target_spread_bps, BPS_DENOM as int);
    let skew = skew_of(cfg, position);
    let adjustment = SCALE + trunc_div(abs(skew) * cfg.skew_factor, SCALE as int);
    let spread = trunc_div(base * adjustment, SCALE as int);
    let shift = trunc_div(skew * spread, 2 * SCALE);
    &&& fits(base) && fits(skew) && fits(adjustment) && fits(spread) && fits(shift)
    &&& fits(quotes_of(cfg, mid, position).0) && fits(quotes_of(cfg, mid, position).1)
}

fn narrow(v: i128) -> (r: Option<i64>)
    ensures
        r is Some <==> fits(v as int),
        r is Some ==> r->0 == v,
{
    if v < i64::MIN as i128 || v > i64::MAX as i128 { None } else { Some(v as i64) }
}

fn product(a: i64, b: i64) -> (r: i128)
    ensures
        r == a * b,
        i128::MIN < r,
{
    proof {
        assert(-0x4000_0000_0000_0000_0000_0000_0000_0000 <= a * b <= 0x4000_0000_0000_0000_0000_0000_0000_0000) by (nonlinear_arith)
            requires
                i64::MIN <= a <= i64::MAX,
                i64::MIN <= b <= i64::MAX;
    }
    a as i128 * b as i128
}

/// Whether `o` is a resting quote on `side` in `market` at `price` for `size`.
pub open spec fn is_quote(o: Order, market: String, side: Side, price: i64, size: i64) -> bool {
    &&& o.market == market
    &&& o.side == side
    &&& o.order_type == OrderType::Limit
    &&& o.price == Some(price)
    &&& o.size == size
    &&& o.time_in_force == TimeInForce::GTC
    &&& o.id is None
}

/// Quotes one market.
pub struct MarketMakerStrategy {
    config: MarketMakerConfig,
    market_id: String,
    last_quote_time: Option<i64>,
}

impl MarketMakerStrategy {
    pub closed spec fn settings(&self) -> MarketMakerConfig {
        self.config
    }

    /// The quoted market.
    pub closed spec fn market(&self) -> String {
        self.market_id
    }

    /// Time of the last quotes, if any.
    pub closed spec fn quoted_at(&self) -> Option<i64> {
        self.last_quote_time
    }

    pub fn new(market_id: String, config: MarketMakerConfig) -> (r: MarketMakerStrategy)
        ensures
            r.settings() == config,
            r.quoted_at() is None,
    {
        MarketMakerStrategy { config, market_id, last_quote_time: None }
    }

    /// Inventory away from target as a share of the position limit; `None`
    /// when it does not fit.
    pub fn calculate_inventory_skew(&self, position: i64) -> (r: Option<i64>)
        ensures
            r is Some <==> fits(skew_of(self.settings(), position as int)),
            r is Some ==> r->0 == skew_of(self.settings(), position as int),
    {
        if self.config.max_position <= 0 {
            return Some(0);
        }
        let d = position as i128 - self.config.inventory_target as i128;
        proof {
            assert(-0x1_0000_0000_0000_0000 * 1_000_000 <= d * SCALE <= 0x1_0000_0000_0000_0000 * 1_000_000) by (nonlinear_arith)
                requires -0x1_0000_0000_0000_0000 <= d <= 0x1_0000_0000_0000_0000;
        }
        narrow(trunc_div_i128(d * SCALE as i128, self.config.max_position as i128))
    }

    /// Bid and ask for `mid` while holding `position`; `None` when a step
    /// leaves the `i64` range.
    pub fn calculate_quotes(&self, mid: i64, position: i64) -> (r: Option<(i64, i64)>)
        ensures
            r is Some <==> quotes_fit(self.settings(), mid as int, position as int),
            r is Some ==> r == Some(
                (
                    quotes_of(self.settings(), mid as int, position as int).0 as i64,
                    quotes_of(self.settings(), mid as int, position as int).1 as i64,
                ),
            ),
    {
        let base = narrow(trunc_div_i128(product(mid, self.config.target_spread_bps), BPS_DENOM as i128));
        let skew = self.calculate_inventory_skew(position);
        let (base, skew) = match (base, skew) {
            (Some(b), Some(s)) => (b, s),
            _ => {
                return None;
            },
        };
        let abs_skew: i128 = if skew < 0 { -(skew as i128) } else { skew as i128 };
        proof {
            assert(-0x8000_0000_0000_0000 * 0x8000_0000_0000_0000 <= abs_skew * self.config.skew_factor <= 0x8000_0000_0000_0000 * 0x8000_0000_0000_0000) by (nonlinear_arith)
                requires 0 <= abs_skew <= 0x8000_0000_0000_0000, i64::MIN <= self.config.skew_factor <= i64::MAX;
        }
        let adjustment = match narrow(SCALE as i128 + trunc_div_i128(abs_skew * self.config.skew_factor as i128, SCALE as i128)) {
            Some(a) => a,
            None => {
                return None;
            },
        };
        let spread = match narrow(trunc_div_i128(product(base, adjustment), SCALE as i128)) {
            Some(s) => s,
            None => {
                return None;
            },
        };
        let shift = match narrow(trunc_div_i128(product(skew, spread), 2 * SCALE as i128)) {
            Some(s) => s,
            None => {
                return None;
            },
        };
        let half = trunc_div_i128(spread as i128, 2);
        let bid = narrow(mid as i128 - half - shift as i128);
        let ask = narrow(mid as i128 + half - shift as i128);
        match (bid, ask) {
            (Some(b), Some(a)) => Some((b, a)),
            _ => None,
        }
    }

    /// Whether enough time has passed since the last quotes, by tick time.
    pub fn should_requote(&self, now: i64) -> (r: bool)
        ensures
            r == match self.quoted_at() {
                None => true,
                Some(t) => now - t >= self.settings().min_quote_interval_ms,
            },
    {
        match self.last_quote_time {
            None => true,
            Some(t) => (now as i128 - t as i128) >= self.config.min_quote_interval_ms as i128,
        }
    }

    /// For its own market, when due (by tick time), inside the position limit,
    /// with a positive mid and representable quotes: cancels its open orders
    /// in the market, then submits a bid and an ask from `calculate_quotes`,
    /// each only where a fill would stay inside the limit; a quote that risk
    /// rejects is skipped. Otherwise nothing changes.
    pub fn process_tick(&mut self, market_id: &str, tick: &MarketTick, ctx: &mut StrategyContext, risk: &RiskEngine) -> (r: Result<(), StrategyError>)
        requires
            old(ctx).inv(),
        ensures
            final(ctx).inv(),
            final(self).settings() == old(self).settings(),
            final(self).market() == old(self).market(),
            final(ctx).positions() == old(ctx).positions(),
            ({
                let cfg = old(self).settings();
                let m = old(self).market();
                let pos = old(ctx).size_in(m@);
                let mid = mid_of(*tick);
                let due = match old(self).quoted_at() {
                    None => true,
                    Some(t) => tick.timestamp - t >= cfg.min_quote_interval_ms,
                };
                let active = market_id@ == m@ && due && abs(pos) < cfg.max_position && mid > 0
                    && quotes_fit(cfg, mid, pos);
                if !active {
                    r is Ok && *final(self) == *old(self) && *final(ctx) == *old(ctx)
                } else {
                    let (bid, ask) = quotes_of(cfg, mid, pos);
                    let base = outside_market(old(ctx).open_orders(), m@);
                    let buys = pos + cfg.quote_size <= cfg.max_position
                        && old(ctx).accepts_trade(*risk, m, Side::Buy, cfg.quote_size);
                    let sells = pos - cfg.quote_size >= -cfg.max_position
                        && old(ctx).accepts_trade(*risk, m, Side::Sell, cfg.quote_size);
                    let nb: int = if buys { 1 } else { 0 };
                    let ns: int = if sells { 1 } else { 0 };
                    &&& cfg.quote_size > 0 && old(ctx).venue().next_id() + 2 < u64::MAX ==> r is Ok
                    &&& r is Ok ==> final(self).quoted_at() == Some(tick.timestamp)
                        && final(ctx).open_orders().len() == base.len() + nb + ns
                        && final(ctx).open_orders().subrange(0, base.len() as int) == base
                        && (buys ==> is_quote(final(ctx).open_orders()[base.len() as int].1, m, Side::Buy, bid as i64, cfg.quote_size))
                        && (sells ==> is_quote(final(ctx).open_orders()[base.len() + nb].1, m, Side::Sell, ask as i64, cfg.quote_size))
                }
            }),
    {
        if !string_eq(&self.market_id, market_id) {
            return Ok(());
        }
        if !self.should_requote(tick.timestamp) {
            return Ok(());
        }
        let position = match ctx.get_position(market_id) {
            Some(p) => p.size,
            None => 0,
        };
        let abs_pos: i128 = if position < 0 { -(position as i128) } else { position as i128 };
        if abs_pos >= self.config.max_position as i128 {
            return Ok(());
        }
        let mid = tick.mid_price();
        if mid <= 0 {
            return Ok(());
        }
        let (bid, ask) = match self.calculate_quotes(mid, position) {
            Some(q) => q,
            None => {
                return Ok(());
            },
        };
        let ghost c0 = *ctx;
        ctx.cancel_market_orders(market_id);
        let ghost c1 = *ctx;
        let ghost base = c1.open_orders();
        assert(c1.trade_context(self.market_id, Side::Buy, self.config.quote_size) == c0.trade_context(self.market_id, Side::Buy, self.config.quote_size));
        assert(c1.trade_context(self.market_id, Side::Sell, self.config.quote_size) == c0.trade_context(self.market_id, Side::Sell, self.config.quote_size));
        assert(c1.accepts_trade(*risk, self.market_id, Side::Buy, self.config.quote_size)
            == c0.accepts_trade(*risk, self.market_id, Side::Buy, self.config.quote_size));
        if position as i128 + self.config.quote_size as i128 <= self.config.max_position as i128 {
            let q = self.quote(Side::Buy, bid);
            assert(c1.accepts_trade(*risk, q.market, q.side, q.size) == c0.accepts_trade(*risk, self.market_id, Side::Buy, self.config.quote_size));
            match ctx.submit_order(risk, q) {
                Ok(_) => {},
                Err(StrategyError::RiskRejected { .. }) => {},
                Err(e) => {
                    return Err(e);
                },
            }
        }
        let ghost c2 = *ctx;
        assert(c2.positions() == c0.positions());
        assert(c2.trade_context(self.market_id, Side::Sell, self.config.quote_size) == c0.trade_context(self.market_id, Side::Sell, self.config.quote_size));
        assert(c2.open_orders().subrange(0, base.len() as int) =~= base);
        assert(c2.accepts_trade(*risk, self.market_id, Side::Sell, self.config.quote_size)
            == c0.accepts_trade(*risk, self.market_id, Side::Sell, self.config.quote_size));
        if position as i128 - (self.config.quote_size as i128) >= -(self.config.max_position as i128) {
            let q = self.quote(Side::Sell, ask);
            assert(c2.accepts_trade(*risk, q.market, q.side, q.size) == c0.accepts_trade(*risk, self.market_id, Side::Sell, self.config.quote_size));
            match ctx.submit_order(risk, q) {
                Ok(_) => {},
                Err(StrategyError::RiskRejected { .. }) => {},
                Err(e) => {
                    return Err(e);
                },
            }
        }
        proof {
            assert(ctx.open_orders().subrange(0, base.len() as int) =~= base);
            if c2.open_orders().len() > base.len() {
                assert(ctx.open_orders()[base.len() as int] == c2.open_orders()[base.len() as int]);
            }
            let pos = c0.size_in(self.market_id@);
            assert(position == pos);
            assert(base == outside_market(c0.open_orders(), self.market_id@));
            let buys = pos + self.config.quote_size <= self.config.max_position
                && c0.accepts_trade(*risk, self.market_id, Side::Buy, self.config.quote_size);
            let sells = pos - self.config.quote_size >= -self.config.max_position
                && c0.accepts_trade(*risk, self.market_id, Side::Sell, self.config.quote_size);
            let nb: int = if buys { 1 } else { 0 };
            let ns: int = if sells { 1 } else { 0 };
            assert(c2.open_orders().len() == base.len() + nb);
            assert(ctx.open_orders().len() == base.len() + nb + ns);
            assert(buys ==> is_quote(ctx.open_orders()[base.len() as int].1, self.market_id, Side::Buy, bid, self.config.quote_size));
            assert(sells ==> is_quote(ctx.open_orders()[base.len() + nb].1, self.market_id, Side::Sell, ask, self.config.quote_size));
        }
        self.last_quote_time = Some(tick.timestamp);
        Ok(())
    }

    fn quote(&self, side: Side, price: i64) -> (r: Order)
        ensures
            r.market == self.market(),
            r.side == side,
            r.price == Some(price),
            r.size == self.settings().quote_size,
            r.order_type == OrderType::Limit,
            r.time_in_force == TimeInForce::GTC,
            r.id is None,
    {
        Order {
            id: None,
            venue: String::from_str("polymarket"),
            market: self.market_id.clone(),
            side,
            order_type: OrderType::Limit,
            price: Some(price),
            size: self.config.quote_size,
            time_in_force: TimeInForce::GTC,
            client_order_id: None,
            timestamp: crate::order::now_millis(),
            status: OrderStatus::Pending,
        }
    }
}

impl Strategy for MarketMakerStrategy {
    fn initialize(&mut self, ctx: &mut StrategyContext) -> (r: Result<(), StrategyError>) {
        Ok(())
    }

    fn on_market_tick(&mut self, market_id: &str, tick: &MarketTick, ctx: &mut StrategyContext, risk: &RiskEngine) -> (r: Result<(), StrategyError>) {
        self.process_tick(market_id, tick, ctx, risk)
    }

    /// Moves the position by the fill.
    fn on_fill(&mut self, fill: &Fill, ctx: &mut StrategyContext) -> (r: Result<(), StrategyError>) {
        let delta = match fill.side {
            Side::Buy => fill.size,
            Side::Sell => if fill.size == i64::MIN { return Ok(()); } else { -fill.size },
        };
        ctx.update_position(fill.market.as_str(), delta, fill.price);
        Ok(())
    }

    fn on_cancel(&mut self, order_id: &str, ctx: &mut StrategyContext) -> (r: Result<(), StrategyError>) {
        Ok(())
    }

    fn on_timer(&mut self, ctx: &mut StrategyContext) -> (r: Result<(), StrategyError>) {
        Ok(())
    }

    fn shutdown(&mut self, ctx: &mut StrategyContext) -> (r: Result<(), StrategyError>) {
        Ok(())
    }

    fn metadata(&self) -> StrategyMetadata {
        let mut markets: Vec<String> = Vec::new();
        markets.push(self.market_id.clone());
        StrategyMetadata {
            name: String::from_str("MarketMaker"),
            version: String::from_str("1.0.0"),
            description: String::from_str("Two-sided quotes with inventory skew"),
            markets,
            required_params: Vec::new(),
        }
    }
}

} // verus!
