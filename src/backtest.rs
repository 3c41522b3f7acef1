//! Backtests: a strategy driven by historical ticks, with fills from the
//! simulator, and the performance figures of the run.
use vstd::prelude::*;
use vstd::string::*;
use crate::context::StrategyContext;
use crate::coordinator::Strategy;
use crate::fill_sim::{FillSimulator, FillSimulatorConfig};
use crate::risk::RiskEngine;
use crate::strategy::{Fill, MarketTick, Side, StrategyError, StrategyParams};

verus! {

/// Starting capital (fixed-point units), simulator settings and the seed of
/// the simulator's random source.
#[derive(Debug, Clone, Copy, PartialEq, Eq, Structural)]
pub struct BacktestConfig {
    pub initial_capital: i64,
    pub fill_simulator: FillSimulatorConfig,
    pub seed: u64,
}

/// One executed trade.
#[derive(Debug, Clone)]
pub struct Trade {
    pub id: String,
    pub market: String,
    pub price: i64,
    pub size: i64,
    pub side: Side,
    pub fee: i64,
    pub timestamp: i64,
}

/// Figures of a finished run. Amounts are fixed-point units; percentages are
/// basis points.
#[derive(Debug, Clone)]
pub struct BacktestResult {
    pub total_return: i64,
    pub total_return_bps: i64,
    pub max_drawdown: i64,
    pub max_drawdown_bps: i64,
    pub win_rate_bps: i64,
    pub num_trades: usize,
    pub avg_trade_pnl: i64,
    /// Equity after each tick, with the tick's time.
    pub equity_curve: Vec<(i64, i64)>,
    pub trades: Vec<Trade>,
    pub final_capital: i64,
}

/// Running peak and largest drop from a peak over `curve`, from `start`.
pub open spec fn peak_and_drawdown(curve: Seq<(i64, i64)>, start: int) -> (int, int)
    decreases curve.len(),
{
    if curve.len() == 0 {
        (start, 0)
    } else {
        let (peak, dd) = peak_and_drawdown(curve.drop_last(), start);
        let e = curve.last().1 as int;
        let p = if e > peak { e } else { peak };
        let d = if p - e > dd { p - e } else { dd };
        (p, d)
    }
}

proof fn lemma_peak_bounds(curve: Seq<(i64, i64)>, start: i64)
    ensures
        i64::MIN <= peak_and_drawdown(curve, start as int).0 <= i64::MAX,
        0 <= peak_and_drawdown(curve, start as int).1 <= peak_and_drawdown(curve, start as int).0 - i64::MIN,
    decreases curve.len(),
{
    if curve.len() > 0 {
        lemma_peak_bounds(curve.drop_last(), start);
    }
}

/// `a * b / c` rounded toward zero, zero when `c` is zero.
pub open spec fn ratio(a: int, b: int, c: int) -> int {
    crate::strategy::trunc_div(a * b, c)
}

/// The figures of a run that started with `initial` and produced `trades`
/// and `curve`.
pub open spec fn figures(initial: int, trades: Seq<Trade>, curve: Seq<(i64, i64)>) -> (int, int, int, int, int, int) {
    let final_capital = if curve.len() == 0 { initial } else { curve.last().1 as int };
    let total_return = final_capital - initial;
    let (peak, dd) = peak_and_drawdown(curve, initial);
    let n = trades.len() as int;
    let wins = trades.filter(|t: Trade| t.price > 0).len() as int;
    (
        final_capital,
        total_return,
        ratio(total_return, 10_000, initial),
        dd,
        ratio(dd, 10_000, peak),
        if n == 0 { 0 } else { ratio(wins, 10_000, n) },
    )
}

/// The figures of `r` are those of its own trades and equity curve for a
/// run that started with `initial`.
pub open spec fn metrics_hold(initial: int, r: BacktestResult) -> bool {
    let trades = r.trades@;
    let curve = r.equity_curve@;
    let (fc, tr, trp, dd, ddp, wr) = figures(initial, trades, curve);
    &&& r.final_capital == fc
    &&& r.total_return as int == crate::context::clamp_i64(tr)
    &&& r.total_return_bps as int == crate::context::clamp_i64(trp)
    &&& r.max_drawdown as int == crate::context::clamp_i64(dd)
    &&& r.max_drawdown_bps as int == crate::context::clamp_i64(ddp)
    &&& r.win_rate_bps as int == crate::context::clamp_i64(wr)
    &&& r.num_trades == trades.len()
    &&& trades.len() == 0 ==> r.avg_trade_pnl == 0
    &&& trades.len() > 0 ==> r.avg_trade_pnl as int == crate::context::clamp_i64(
        crate::strategy::trunc_div(tr, trades.len() as int),
    )
}

/// The trade a fill makes.
pub fn trade_from_fill(fill: &Fill) -> (t: Trade)
    ensures
        t.id == fill.order_id && t.market == fill.market && t.price == fill.price && t.size == fill.size
            && t.side == fill.side && t.fee == fill.fee && t.timestamp == fill.timestamp,
{
    Trade {
        id: fill.order_id.clone(),
        market: fill.market.clone(),
        price: fill.price,
        size: fill.size,
        side: fill.side,
        fee: fill.fee,
        timestamp: fill.timestamp,
    }
}

/// Equity of a context: `initial` plus realized and unrealized PnL, when it
/// fits an `i64`.
pub fn equity_of(initial: i64, ctx: &StrategyContext) -> (r: Option<i64>)
    ensures
        ({
            let e = initial + crate::context::sum_realized(ctx.positions()) + crate::context::sum_unrealized(ctx.positions());
            &&& r is Some <==> crate::strategy::fits(e)
            &&& r is Some ==> r->0 == e
        }),
{
    let realized = ctx.calculate_total_realized_pnl();
    let unrealized = ctx.calculate_total_unrealized_pnl();
    let pnl = match realized.checked_add(unrealized) {
        Some(p) => p,
        None => {
            return None;
        },
    };
    let equity = match pnl.checked_add(initial as i128) {
        Some(e) => e,
        None => {
            return None;
        },
    };
    if equity < i64::MIN as i128 || equity > i64::MAX as i128 {
        None
    } else {
        Some(equity as i64)
    }
}

fn ratio_i128(a: i128, b: i128, c: i128) -> (r: i128)
    requires
        -0x1_0000_0000_0000_0000_0000 <= a <= 0x1_0000_0000_0000_0000_0000,
        0 <= b <= 10_000,
        c > i128::MIN,
    ensures
        r == ratio(a as int, b as int, c as int),
{
    if c == 0 {
        return 0;
    }
    proof {
        assert(-0x1_0000_0000_0000_0000_0000 * 10_000 <= a * b <= 0x1_0000_0000_0000_0000_0000 * 10_000) by (nonlinear_arith)
            requires -0x1_0000_0000_0000_0000_0000 <= a <= 0x1_0000_0000_0000_0000_0000, 0 <= b <= 10_000;
    }
    crate::strategy::trunc_div_i128(a * b, c)
}

fn clamp(v: i128) -> (r: i64)
    ensures
        r == crate::context::clamp_i64(v as int),
{
    if v > i64::MAX as i128 {
        i64::MAX
    } else if v < i64::MIN as i128 {
        i64::MIN
    } else {
        v as i64
    }
}

/// Computes the figures of a run: final capital (the last equity, or the
/// initial capital), total return and its basis points of the initial
/// capital, the largest drop from a running peak and its basis points of the
/// final peak, the share of trades at a positive price, and the return per
/// trade. Ratios are limited to the `i64` range; with no trades the win rate
/// and the return per trade are zero.
pub fn calculate_metrics(initial_capital: i64, trades: Vec<Trade>, equity_curve: Vec<(i64, i64)>) -> (r: BacktestResult)
    ensures
        metrics_hold(initial_capital as int, r),
        r.trades@ == trades@,
        r.equity_curve@ == equity_curve@,
{
    let final_capital = if equity_curve.len() == 0 { initial_capital } else { equity_curve[equity_curve.len() - 1].1 };
    let total_return: i128 = final_capital as i128 - initial_capital as i128;
    let mut peak: i128 = initial_capital as i128;
    let mut dd: i128 = 0;
    let mut i: usize = 0;
    while i < equity_curve.len()
        invariant
            i <= equity_curve@.len(),
            (peak as int, dd as int) == peak_and_drawdown(equity_curve@.subrange(0, i as int), initial_capital as int),
        decreases equity_curve.len() - i,
    {
        proof {
            lemma_peak_bounds(equity_curve@.subrange(0, i as int), initial_capital);
            assert(equity_curve@.subrange(0, i + 1).drop_last() =~= equity_curve@.subrange(0, i as int));
        }
        let e = equity_curve[i].1 as i128;
        if e > peak {
            peak = e;
        }
        if peak - e > dd {
            dd = peak - e;
        }
        i += 1;
    }
    assert(equity_curve@.subrange(0, equity_curve@.len() as int) =~= equity_curve@);
    proof {
        lemma_peak_bounds(equity_curve@, initial_capital);
    }
    let mut wins: usize = 0;
    let mut k: usize = 0;
    while k < trades.len()
        invariant
            k <= trades@.len(),
            wins == trades@.subrange(0, k as int).filter(|t: Trade| t.price > 0).len(),
            wins <= k,
        decreases trades.len() - k,
    {
        proof {
            let s = trades@.subrange(0, k + 1);
            assert(s.drop_last() =~= trades@.subrange(0, k as int));
            reveal(Seq::filter);
        }
        if trades[k].price > 0 {
            wins += 1;
        }
        k += 1;
    }
    assert(trades@.subrange(0, trades@.len() as int) =~= trades@);
    let n = trades.len();
    let win_rate: i128 = if n == 0 { 0 } else { ratio_i128(wins as i128, 10_000, n as i128) };
    let avg: i64 = if n == 0 { 0 } else { clamp(crate::strategy::trunc_div_i128(total_return, n as i128)) };
    BacktestResult {
        total_return: clamp(total_return),
        total_return_bps: clamp(ratio_i128(total_return, 10_000, initial_capital as i128)),
        max_drawdown: clamp(dd),
        max_drawdown_bps: clamp(ratio_i128(dd, 10_000, peak)),
        win_rate_bps: clamp(win_rate),
        num_trades: n,
        avg_trade_pnl: avg,
        equity_curve,
        trades,
        final_capital,
    }
}

/// Drives strategies over historical ticks with simulated fills.
pub struct BacktestEngine {
    config: BacktestConfig,
    fill_simulator: FillSimulator,
    risk_engine: RiskEngine,
}

impl BacktestEngine {
    pub closed spec fn settings(&self) -> BacktestConfig {
        self.config
    }

    pub fn new(config: BacktestConfig, risk_engine: RiskEngine) -> (r: BacktestEngine)
        ensures
            r.settings() == config,
    {
        BacktestEngine { config, fill_simulator: FillSimulator::new(config.fill_simulator, config.seed), risk_engine }
    }

    /// Runs `strategy` over `historical_ticks` in order: each tick goes to
    /// the strategy; each of its open orders in the tick's market is offered
    /// to the simulator, and a fill is reported back to the strategy,
    /// recorded as a trade and the order closed; then the equity (initial
    /// capital plus realized and unrealized PnL) is sampled. Every hundredth
    /// tick the timer hook runs. No ticks is an error, as is equity that
    /// leaves the `i64` range.
    pub fn run_backtest<S: Strategy>(&mut self, strategy: S, historical_ticks: Vec<MarketTick>, params: StrategyParams) -> (r: Result<BacktestResult, StrategyError>)
        ensures
            historical_ticks@.len() == 0 ==> r is Err && r->Err_0 is InsufficientData,
            r is Ok ==> r->Ok_0.equity_curve@.len() == historical_ticks@.len()
                && r->Ok_0.num_trades == r->Ok_0.trades@.len()
                && forall|k: int| 0 <= k < historical_ticks@.len() ==> (#[trigger] r->Ok_0.equity_curve@[k]).0 == historical_ticks@[k].timestamp,
            final(self).settings() == old(self).settings(),
            r is Ok ==> metrics_hold(old(self).settings().initial_capital as int, r->Ok_0),
            r is Ok ==> forall|j: int| 0 <= j < r->Ok_0.trades@.len() ==> exists|k: int| 0 <= k < historical_ticks@.len()
                && (#[trigger] r->Ok_0.trades@[j]).market@ == historical_ticks@[k].market@
                && r->Ok_0.trades@[j].timestamp == historical_ticks@[k].timestamp,
    {
        if historical_ticks.len() == 0 {
            return Err(StrategyError::InsufficientData(String::from_str("No historical data provided")));
        }
        let mut strategy = strategy;
        let mut ctx = StrategyContext::new(String::from_str("backtest_strategy"), params);
        match strategy.initialize(&mut ctx) {
            Ok(()) => {},
            Err(e) => {
                return Err(e);
            },
        }
        let mut trades: Vec<Trade> = Vec::new();
        let mut curve: Vec<(i64, i64)> = Vec::new();
        let mut t: usize = 0;
        while t < historical_ticks.len()
            invariant
                ctx.inv(),
                self.config == old(self).config,
                t <= historical_ticks@.len(),
                curve@.len() == t,
                forall|k: int| 0 <= k < t ==> (#[trigger] curve@[k]).0 == historical_ticks@[k].timestamp,
                forall|j: int| 0 <= j < trades@.len() ==> exists|k: int| 0 <= k < t
                    && (#[trigger] trades@[j]).market@ == historical_ticks@[k].market@
                    && trades@[j].timestamp == historical_ticks@[k].timestamp,
            decreases historical_ticks.len() - t,
        {
            let tick = &historical_ticks[t];
            match strategy.on_market_tick(tick.market.as_str(), tick, &mut ctx, &self.risk_engine) {
                Ok(()) => {},
                Err(e) => {
                    return Err(e);
                },
            }
            let candidates = ctx.get_open_order_entries_for_market(tick.market.as_str());
            let mut j: usize = 0;
            while j < candidates.len()
                invariant
                    ctx.inv(),
                    self.config == old(self).config,
                    historical_ticks@.len() > 0,
                    t < historical_ticks@.len(),
                    j <= candidates@.len(),
                    *tick == historical_ticks@[t as int],
                    forall|i: int| 0 <= i < candidates@.len() ==> (#[trigger] candidates@[i]).1.market@ == tick.market@,
                    forall|i: int| 0 <= i < trades@.len() ==> exists|k: int| 0 <= k <= t
                        && (#[trigger] trades@[i]).market@ == historical_ticks@[k].market@
                        && trades@[i].timestamp == historical_ticks@[k].timestamp,
                decreases candidates.len() - j,
            {
                let (ref order_id, ref order) = candidates[j];
                match self.fill_simulator.simulate_fill(order, tick, tick.timestamp) {
                    Some(fill) => {
                        match strategy.on_fill(&fill, &mut ctx) {
                            Ok(()) => {},
                            Err(e) => {
                                return Err(e);
                            },
                        }
                        let trade = trade_from_fill(&fill);
                        let ghost t0 = trades@;
                        trades.push(trade);
                        proof {
                            assert(trades@.last().market@ == historical_ticks@[t as int].market@);
                            assert forall|i: int| 0 <= i < trades@.len() implies exists|k: int| 0 <= k <= t
                                && (#[trigger] trades@[i]).market@ == historical_ticks@[k].market@
                                && trades@[i].timestamp == historical_ticks@[k].timestamp by {
                                if i < t0.len() {
                                    assert(trades@[i] == t0[i]);
                                } else {
                                    assert(trades@[i] == trade);
                                }
                            }
                        }
                        ctx.remove_open_order(order_id.as_str());
                    },
                    None => {},
                }
                j += 1;
            }
            let equity = match equity_of(self.config.initial_capital, &ctx) {
                Some(e) => e,
                None => {
                    return Err(StrategyError::BacktestError(String::from_str("Equity out of range")));
                },
            };
            curve.push((tick.timestamp, equity));
            if curve.len() % 100 == 0 {
                match strategy.on_timer(&mut ctx) {
                    Ok(()) => {},
                    Err(e) => {
                        return Err(e);
                    },
                }
            }
            t += 1;
        }
        match strategy.shutdown(&mut ctx) {
            Ok(()) => {},
            Err(e) => {
                return Err(e);
            },
        }
        Ok(calculate_metrics(self.config.initial_capital, trades, curve))
    }
}

} // verus!
