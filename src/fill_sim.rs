//! Synthetic fills for backtests, from a tick and a seeded random source.
use vstd::prelude::*;
use vstd::string::*;
use crate::decimal::{BPS_DENOM, SCALE};
use crate::strategy::{fits, mid_of, trunc_div, trunc_div_i128, Fill, MarketTick, Order, OrderType, Side};

verus! {

#[verifier::external_type_specification]
#[verifier::external_body]
pub struct ExStdRng(rand::rngs::StdRng);

/// Relies on rand's `SeedableRng::seed_from_u64`: a generator whose stream
/// is fixed by the seed.
#[verifier::external_body]
fn seeded_rng(seed: u64) -> (r: rand::rngs::StdRng) {
    <rand::rngs::StdRng as rand::SeedableRng>::seed_from_u64(seed)
}

/// Relies on rand's `Rng::gen_range` over `0..bound` (which panics only on an
/// empty range): a value below `bound`.
#[verifier::external_body]
fn draw_below(rng: &mut rand::rngs::StdRng, bound: u32) -> (r: u32)
    requires
        bound > 0,
    ensures
        r < bound,
{
    rand::Rng::gen_range(rng, 0..bound)
}

/// Draws are in parts per million.
pub const PPM: u32 = 1_000_000;

/// Costs and fill odds of the simulator.
#[derive(Debug, Clone, Copy, PartialEq, Eq, Structural)]
pub struct FillSimulatorConfig {
    /// Price moved against a market order, in basis points.
    pub slippage_bps: i64,
    /// Chance that a resting limit order fills, in parts per million.
    pub fill_probability_ppm: u32,
    pub taker_fee_bps: i64,
    /// Negative for a rebate.
    pub maker_fee_bps: i64,
}

impl Default for FillSimulatorConfig {
    fn default() -> (r: FillSimulatorConfig)
        ensures
            r.slippage_bps == 5 && r.fill_probability_ppm == 800_000 && r.taker_fee_bps == 10 && r.maker_fee_bps == -5,
    {
        FillSimulatorConfig { slippage_bps: 5, fill_probability_ppm: 800_000, taker_fee_bps: 10, maker_fee_bps: -5 }
    }
}

/// Price at which a market order fills: the ask (or mid) moved up by the
/// slippage for a buy, the bid (or mid) moved down for a sell.
pub open spec fn market_fill_price(cfg: FillSimulatorConfig, side: Side, tick: MarketTick) -> int {
    if side == Side::Buy {
        let ask = match tick.ask { Some(a) => a as int, None => mid_of(tick) };
        trunc_div(ask * (BPS_DENOM + cfg.slippage_bps), BPS_DENOM as int)
    } else {
        let bid = match tick.bid { Some(b) => b as int, None => mid_of(tick) };
        trunc_div(bid * (BPS_DENOM - cfg.slippage_bps), BPS_DENOM as int)
    }
}

/// Whether a limit order at `price` crosses the quote.
pub open spec fn crosses(side: Side, price: int, tick: MarketTick) -> bool {
    if side == Side::Buy {
        tick.ask is Some && price >= tick.ask->0
    } else {
        tick.bid is Some && price <= tick.bid->0
    }
}

/// Fee on `size` at `price` for `fee_bps`.
pub open spec fn fee_for(size: int, price: int, fee_bps: int) -> int {
    trunc_div(trunc_div(size * price, SCALE as int) * fee_bps, BPS_DENOM as int)
}

/// The fill (price, fee) that `order` gets on `tick` when the uniform draw
/// is `draw` parts per million, if any: market orders always fill; a crossing
/// limit order fills at its price as taker; a resting one fills at its price
/// as maker when the draw is below the fill probability.
pub open spec fn outcome(cfg: FillSimulatorConfig, order: Order, tick: MarketTick, draw: int) -> Option<(int, int)> {
    if order.order_type == OrderType::Market {
        let p = market_fill_price(cfg, order.side, tick);
        Some((p, fee_for(order.size as int, p, cfg.taker_fee_bps as int)))
    } else if order.order_type == OrderType::Limit && order.price is Some {
        let p = order.price->0 as int;
        if crosses(order.side, p, tick) {
            Some((p, fee_for(order.size as int, p, cfg.taker_fee_bps as int)))
        } else if draw < cfg.fill_probability_ppm {
            Some((p, fee_for(order.size as int, p, cfg.maker_fee_bps as int)))
        } else {
            None
        }
    } else {
        None
    }
}

/// Whether every intermediate amount of `outcome` fits an `i64`.
pub open spec fn outcome_fits(cfg: FillSimulatorConfig, order: Order, tick: MarketTick, draw: int) -> bool {
    match outcome(cfg, order, tick, draw) {
        Some((p, f)) => fits(p) && fits(trunc_div(order.size * p, SCALE as int)) && fits(f)
            && (order.order_type == OrderType::Market ==> fits(
                BPS_DENOM + if order.side == Side::Buy { cfg.slippage_bps as int } else { -cfg.slippage_bps },
            )),
        None => true,
    }
}

/// What `fill_for_draw` returns for `draw` (parts per million) and
/// `timestamp`: the fill of `outcome`, for the order's id, market, side and
/// size, when there is one and its amounts fit.
pub open spec fn drawn_fill(cfg: FillSimulatorConfig, order: Order, tick: MarketTick, draw: int, timestamp: i64, r: Option<Fill>) -> bool {
    &&& (r is Some <==> outcome(cfg, order, tick, draw) is Some && outcome_fits(cfg, order, tick, draw))
    &&& r is Some ==> ({
        let (p, f) = outcome(cfg, order, tick, draw)->0;
        &&& r->0.price == p
        &&& r->0.fee == f
        &&& r->0.size == order.size
        &&& r->0.side == order.side
        &&& r->0.market == order.market
        &&& r->0.timestamp == timestamp
        &&& r->0.order_id@ == match order.id { Some(i) => i@, None => Seq::<char>::empty() }
    })
}

/// `a * b` for two `i64` values.
fn mul_i64(a: i64, b: i64) -> (r: i128)
    ensures
        r == a * b,
        i128::MIN < r,
{
    proof {
        assert(-0x4000_0000_0000_0000_0000_0000_0000_0000 <= a * b <= 0x4000_0000_0000_0000_0000_0000_0000_0000) by (nonlinear_arith)
            requires
                i64::MIN <= a <= i64::MAX,
                i64::MIN <= b <= i64::MAX;
    }
    a as i128 * b as i128
}

fn narrow(v: i128) -> (r: Option<i64>)
    ensures
        r is Some <==> fits(v as int),
        r is Some ==> r->0 == v,
{
    if v < i64::MIN as i128 || v > i64::MAX as i128 {
        None
    } else {
        Some(v as i64)
    }
}

fn fee(size: i64, price: i64, fee_bps: i64) -> (r: Option<i64>)
    ensures
        r is Some <==> fits(trunc_div(size * price, SCALE as int)) && fits(fee_for(size as int, price as int, fee_bps as int)),
        r is Some ==> r->0 == fee_for(size as int, price as int, fee_bps as int),
{
    let notional = match narrow(trunc_div_i128(mul_i64(size, price), SCALE as i128)) {
        Some(n) => n,
        None => {
            return None;
        },
    };
    narrow(trunc_div_i128(mul_i64(notional, fee_bps), BPS_DENOM as i128))
}

/// The fill that `order` gets on `tick` for the draw `draw` (parts per
/// million); `None` when it does not fill or an amount would not fit.
pub fn fill_for_draw(cfg: &FillSimulatorConfig, order: &Order, tick: &MarketTick, draw: u32, timestamp: i64) -> (r: Option<Fill>)
    ensures
        drawn_fill(*cfg, *order, *tick, draw as int, timestamp, r),
{
    let price: i64;
    let fee_bps: i64;
    match order.order_type {
        OrderType::Market => {
            let (base, factor): (i64, i128) = match order.side {
                Side::Buy => (
                    match tick.ask {
                        Some(a) => a,
                        None => tick.mid_price(),
                    },
                    BPS_DENOM as i128 + cfg.slippage_bps as i128,
                ),
                Side::Sell => (
                    match tick.bid {
                        Some(b) => b,
                        None => tick.mid_price(),
                    },
                    BPS_DENOM as i128 - cfg.slippage_bps as i128,
                ),
            };
            let factor = match narrow(factor) {
                Some(f) => f,
                None => {
                    return None;
                },
            };
            price = match narrow(trunc_div_i128(mul_i64(base, factor), BPS_DENOM as i128)) {
                Some(p) => p,
                None => {
                    return None;
                },
            };
            fee_bps = cfg.taker_fee_bps;
        },
        OrderType::Limit => {
            let p = match order.price {
                Some(p) => p,
                None => {
                    return None;
                },
            };
            let crossing = match order.side {
                Side::Buy => match tick.ask {
                    Some(a) => p >= a,
                    None => false,
                },
                Side::Sell => match tick.bid {
                    Some(b) => p <= b,
                    None => false,
                },
            };
            if !crossing && draw >= cfg.fill_probability_ppm {
                return None;
            }
            price = p;
            fee_bps = if crossing { cfg.taker_fee_bps } else { cfg.maker_fee_bps };
        },
        _ => {
            return None;
        },
    }
    let f = match fee(order.size, price, fee_bps) {
        Some(f) => f,
        None => {
            return None;
        },
    };
    let order_id = match &order.id {
        Some(id) => id.clone(),
        None => String::new(),
    };
    assert(order_id@ == match order.id { Some(i) => i@, None => Seq::<char>::empty() });
    Some(Fill { order_id, market: order.market.clone(), price, size: order.size, side: order.side, fee: f, timestamp })
}

/// Fill simulator with its own seeded random source, so that a run can be
/// replayed from its seed.
pub struct FillSimulator {
    config: FillSimulatorConfig,
    seed: u64,
    rng: rand::rngs::StdRng,
}

impl FillSimulator {
    pub closed spec fn settings(&self) -> FillSimulatorConfig {
        self.config
    }

    pub closed spec fn seed_value(&self) -> u64 {
        self.seed
    }

    pub fn new(config: FillSimulatorConfig, seed: u64) -> (r: FillSimulator)
        ensures
            r.settings() == config,
            r.seed_value() == seed,
    {
        FillSimulator { config, seed, rng: seeded_rng(seed) }
    }

    /// The seed the random source was started from.
    pub fn seed(&self) -> (r: u64)
        ensures
            r == self.seed_value(),
    {
        self.seed
    }

    pub fn config(&self) -> (r: FillSimulatorConfig)
        ensures
            r == self.settings(),
    {
        self.config
    }

    /// Simulates `order` against `tick`: takes one draw from the random
    /// source (used only by a resting limit order), and returns the fill
    /// `fill_for_draw` gives for that draw, which is below one million.
    pub fn simulate_fill(&mut self, order: &Order, tick: &MarketTick, timestamp: i64) -> (r: Option<Fill>)
        ensures
            final(self).settings() == old(self).settings(),
            final(self).seed_value() == old(self).seed_value(),
            exists|d: int| 0 <= d < PPM && #[trigger] drawn_fill(old(self).settings(), *order, *tick, d, timestamp, r),
            order.order_type == OrderType::Market ==> (r is Some <==> outcome_fits(old(self).settings(), *order, *tick, 0)),
    {
        let draw = draw_below(&mut self.rng, PPM);
        let r = fill_for_draw(&self.config, order, tick, draw, timestamp);
        assert(old(self).settings() == self.config);
        assert(0 <= draw as int && draw < PPM && drawn_fill(old(self).settings(), *order, *tick, draw as int, timestamp, r));
        r
    }
}

} // verus!
