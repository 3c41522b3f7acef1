use ag_botkit::arb::{arbitrage_legs, calculate_spread_bps, CrossMarketArbConfig, CrossMarketArbStrategy};
use ag_botkit::backtest::{calculate_metrics, BacktestConfig, BacktestEngine, Trade};
use ag_botkit::context::{MockExecutionEngine, StrategyContext};
use ag_botkit::coordinator::{MultiMarketCoordinator, Strategy};
use ag_botkit::fill_sim::{fill_for_draw, FillSimulator, FillSimulatorConfig};
use ag_botkit::market_maker::{MarketMakerConfig, MarketMakerStrategy};
use ag_botkit::risk::{PolicyRule, RiskEngine, RiskPolicyConfig};
use ag_botkit::strategy::{
    Fill, MarketTick, MetricBuilder, MetricType, Order, OrderStatus, OrderType, Position, Side,
    StrategyError, StrategyMetadata, StrategyParams, TimeInForce,
};

const U: i64 = 1_000_000;

fn tick(market: &str, bid: i64, ask: i64, ts: i64) -> MarketTick {
    MarketTick {
        market: market.to_string(),
        timestamp: ts,
        bid: Some(bid),
        bid_size: Some(100 * U),
        ask: Some(ask),
        ask_size: Some(100 * U),
        last: Some((bid + ask) / 2),
        volume_24h: Some(1000 * U),
    }
}

fn order(side: Side, order_type: OrderType, price: Option<i64>, size: i64) -> Order {
    Order {
        id: Some("test1".to_string()),
        venue: "test".to_string(),
        market: "test".to_string(),
        side,
        order_type,
        price,
        size,
        time_in_force: TimeInForce::IOC,
        client_order_id: None,
        timestamp: 0,
        status: OrderStatus::Pending,
    }
}

fn no_rules() -> RiskEngine {
    RiskEngine::new(RiskPolicyConfig { policies: vec![] })
}

#[test]
fn test_position_states() {
    let mut pos = Position::new("market1".to_string());
    assert!(pos.is_flat());
    pos.size = 100 * U;
    assert!(pos.is_long());
    assert!(!pos.is_short());
    pos.size = -50 * U;
    assert!(pos.is_short());
    assert!(!pos.is_long());
}

#[test]
fn test_market_tick_calculations() {
    let t = tick("market1", 100 * U, 101 * U, 0);
    assert_eq!(t.mid_price(), 100_500_000);
    assert_eq!(t.spread(), Some(U));
    assert_eq!(t.spread_bps(), Some(99)); // 99.50 rounded toward zero
}

#[test]
fn mid_price_fallbacks() {
    let mut t = tick("m", 100 * U, 101 * U, 0);
    t.ask = None;
    assert_eq!(t.mid_price(), 100 * U);
    t.bid = None;
    assert_eq!(t.mid_price(), t.last.unwrap());
    t.last = None;
    assert_eq!(t.mid_price(), 0);
    assert_eq!(t.spread(), None);
}

#[test]
fn test_strategy_params() {
    let mut params = StrategyParams::new();
    params.set("max_position".to_string(), "1000".to_string());
    params.set("spread".to_string(), "0.01".to_string());
    assert_eq!(params.get("max_position"), Some("1000"));
    assert_eq!(params.get("spread"), Some("0.01"));
    params.set("spread".to_string(), "0.02".to_string());
    assert_eq!(params.get("spread"), Some("0.02"));
    assert_eq!(params.params.len(), 2);
    assert_eq!(params.get("missing"), None);
}

#[test]
fn test_inventory_calculations() {
    let mut ctx = StrategyContext::new("test".to_string(), StrategyParams::new());
    ctx.update_position("market1", 100 * U, 100 * U);
    ctx.update_position("market2", 50 * U, 200 * U);
    assert_eq!(ctx.calculate_total_inventory_value(), 20000 * U as i128);
}

#[test]
fn round_trip_leaves_position_flat() {
    let mut ctx = StrategyContext::new("test".to_string(), StrategyParams::new());
    assert!(ctx.update_position("m", 100 * U, 510_000));
    assert!(ctx.update_position("m", 50 * U, 530_000));
    let p = ctx.get_position("m").unwrap();
    // (100 * 0.51 + 50 * 0.53) / 150 = 0.516666...
    assert_eq!(p.entry_price, 516_666);
    assert!(ctx.update_position("m", -150 * U, 600_000));
    let p = ctx.get_position("m").unwrap();
    assert_eq!(p.size, 0);
    assert_eq!(p.entry_price, 0);
    assert_eq!(p.unrealized_pnl, 0);
}

#[test]
fn unrealized_pnl_and_value() {
    let mut p = Position::new("m".to_string());
    assert!(p.apply(10 * U, 2 * U));
    assert!(p.apply(0, 3 * U));
    assert_eq!(p.unrealized_pnl, 10 * U);
    assert_eq!(p.value_usd, 30 * U);
    assert_eq!(p.mark_price, 3 * U);
}

#[test]
fn context_submit_and_cancel() {
    let mut ctx = StrategyContext::new("s".to_string(), StrategyParams::new());
    let risk = RiskEngine::new(RiskPolicyConfig {
        policies: vec![PolicyRule::PositionLimit { market_id: None, max_size: 500 * U }],
    });
    let mut o = order(Side::Buy, OrderType::Limit, Some(U), 100 * U);
    o.market = "m".to_string();
    let id = ctx.submit_order(&risk, o.clone()).unwrap();
    assert_eq!(id, "order_1");
    assert_eq!(ctx.get_open_orders().len(), 1);
    assert_eq!(ctx.get_open_orders_for_market("m").len(), 1);
    assert_eq!(ctx.get_open_orders_for_market("x").len(), 0);
    let mut big = o.clone();
    big.size = 600 * U;
    match ctx.submit_order(&risk, big) {
        Err(StrategyError::RiskRejected { policies }) => {
            assert_eq!(policies, vec!["PositionLimit: new position 600.00 exceeds max 500.00".to_string()])
        }
        other => panic!("unexpected {:?}", other),
    }
    let mut zero = o.clone();
    zero.size = 0;
    assert!(matches!(ctx.submit_order(&risk, zero), Err(StrategyError::InvalidParameter(_))));
    ctx.cancel_order("order_1").unwrap();
    assert!(ctx.get_open_orders().is_empty());
    assert!(matches!(ctx.cancel_order("order_1"), Err(StrategyError::OrderNotFound(_))));
}

#[test]
fn mock_engine_numbers_orders() {
    let mut m = MockExecutionEngine::new();
    assert_eq!(m.submit_order(order(Side::Buy, OrderType::Market, None, U)).unwrap(), "order_1");
    assert_eq!(m.submit_order(order(Side::Buy, OrderType::Market, None, U)).unwrap(), "order_2");
    assert_eq!(m.order_count(), 2);
    m.cancel_order("order_1").unwrap();
    assert_eq!(m.order_count(), 1);
}

#[test]
fn params_reach_context() {
    let mut params = StrategyParams::new();
    params.set("k".to_string(), "v".to_string());
    let ctx = StrategyContext::new("s".to_string(), params);
    assert_eq!(ctx.get_param_str("k"), Some("v"));
    assert_eq!(ctx.get_param_str("z"), None);
}

#[test]
fn test_metric_builder() {
    let builder = MetricBuilder::new("test_strategy".to_string());
    let pnl_metric = builder.pnl("market1", 125_500_000);
    assert_eq!(pnl_metric.metric_name, "strategy.pnl_usd");
    assert_eq!(pnl_metric.value, 125_500_000);
    assert_eq!(pnl_metric.metric_type, MetricType::Gauge);
    assert_eq!(pnl_metric.labels, vec![("market".to_string(), "market1".to_string())]);
    let signal_metric = builder.signal_generated("market1", "long");
    assert_eq!(signal_metric.metric_name, "strategy.signals_generated");
    assert_eq!(signal_metric.value, U);
    assert_eq!(builder.order_placed("m", "buy").labels[1], ("side".to_string(), "buy".to_string()));
    assert_eq!(builder.order_filled("m").metric_name, "strategy.orders_filled");
    assert_eq!(builder.position_size("m", 3).value, 3);
}

#[test]
fn metrics_buffer() {
    let mut ctx = StrategyContext::new("s".to_string(), StrategyParams::new());
    let b = MetricBuilder::new("s".to_string());
    ctx.emit_metric(b.order_filled("m"));
    assert_eq!(ctx.get_metrics_buffer().len(), 1);
    ctx.clear_metrics_buffer();
    assert!(ctx.get_metrics_buffer().is_empty());
}

#[test]
fn test_market_order_fill() {
    let mut simulator = FillSimulator::new(FillSimulatorConfig::default(), 7);
    let t = tick("test", 100 * U, 101 * U, 0);
    let fill = simulator.simulate_fill(&order(Side::Buy, OrderType::Market, None, 10 * U), &t, 0).unwrap();
    assert!(fill.price > 101 * U);
    assert_eq!(fill.price, 101_050_500); // 101 * 1.0005
    assert_eq!(fill.size, 10 * U);
    assert!(fill.fee > 0);
    let fill = simulator.simulate_fill(&order(Side::Sell, OrderType::Market, None, 10 * U), &t, 0).unwrap();
    assert!(fill.price < 100 * U);
    assert_eq!(fill.price, 99_950_000);
}

#[test]
fn test_limit_order_fill() {
    let mut simulator = FillSimulator::new(FillSimulatorConfig::default(), 7);
    let t = tick("test", 100 * U, 101 * U, 0);
    let fill = simulator.simulate_fill(&order(Side::Buy, OrderType::Limit, Some(101 * U), 10 * U), &t, 0);
    assert!(fill.is_some());
    let _ = simulator.simulate_fill(&order(Side::Buy, OrderType::Limit, Some(99 * U), 10 * U), &t, 0);
    assert_eq!(simulator.seed(), 7);
}

#[test]
fn resting_limit_fill_depends_on_draw() {
    let cfg = FillSimulatorConfig::default();
    let t = tick("test", 100 * U, 101 * U, 0);
    let o = order(Side::Buy, OrderType::Limit, Some(99 * U), 10 * U);
    let maker = fill_for_draw(&cfg, &o, &t, 799_999, 5).unwrap();
    assert_eq!(maker.price, 99 * U);
    // 10 * 99 = 990 notional, maker fee -5 bps = -0.495
    assert_eq!(maker.fee, -495_000);
    assert_eq!(maker.timestamp, 5);
    assert!(fill_for_draw(&cfg, &o, &t, 800_000, 5).is_none());
    let crossing = order(Side::Sell, OrderType::Limit, Some(100 * U), 10 * U);
    let taker = fill_for_draw(&cfg, &crossing, &t, 999_999, 5).unwrap();
    assert_eq!(taker.fee, 1_000_000); // 1000 * 10 bps
    assert!(fill_for_draw(&cfg, &order(Side::Buy, OrderType::Stop, None, U), &t, 0, 0).is_none());
}

#[test]
fn test_spread_calculation() {
    let spread = calculate_spread_bps(101 * U, 100 * U);
    assert!((spread - 99).abs() < 1);
    assert_eq!(calculate_spread_bps(100 * U, 100 * U), 0);
}

#[test]
fn test_get_other_market() {
    let strategy = CrossMarketArbStrategy::new("market_a".to_string(), "market_b".to_string(), CrossMarketArbConfig::default());
    assert_eq!(strategy.get_other_market("market_a").map(|s| s.as_str()), Some("market_b"));
    assert_eq!(strategy.get_other_market("market_b").map(|s| s.as_str()), Some("market_a"));
    assert_eq!(strategy.get_other_market("market_c"), None);
}

fn run_arb(min_spread_bps: i64) -> Vec<Order> {
    let cfg = CrossMarketArbConfig { min_spread_bps, size: 50 * U, max_position: 500 * U };
    let mut s = CrossMarketArbStrategy::new("A".to_string(), "B".to_string(), cfg);
    let mut ctx = StrategyContext::new("arb".to_string(), StrategyParams::new());
    let risk = no_rules();
    s.on_market_tick("A", &tick("A", 100 * U, 100 * U, 0), &mut ctx, &risk).unwrap();
    s.on_market_tick("B", &tick("B", 101 * U, 101 * U, 1), &mut ctx, &risk).unwrap();
    ctx.get_open_orders()
}

#[test]
fn arbitrage_threshold_scenario() {
    let orders = run_arb(50);
    assert_eq!(orders.len(), 2);
    assert_eq!((orders[0].market.as_str(), orders[0].side, orders[0].size), ("A", Side::Buy, 50 * U));
    assert_eq!((orders[1].market.as_str(), orders[1].side, orders[1].size), ("B", Side::Sell, 50 * U));
    assert_eq!(orders[0].price, Some(100 * U));
    assert_eq!(orders[1].price, Some(101 * U));
    assert!(run_arb(200).is_empty());
}

#[test]
fn arbitrage_respects_position_limit() {
    let cfg = CrossMarketArbConfig { min_spread_bps: 50, size: 50 * U, max_position: 500 * U };
    assert_eq!(arbitrage_legs(&cfg, 100 * U, 101 * U, 0, 0), Some(true));
    assert_eq!(arbitrage_legs(&cfg, 101 * U, 100 * U, 0, 0), Some(false));
    assert_eq!(arbitrage_legs(&cfg, 100 * U, 101 * U, 460 * U, 0), None);
    assert_eq!(arbitrage_legs(&cfg, 100 * U, 101 * U, 0, -460 * U), None);
}

#[test]
fn test_inventory_skew() {
    let cfg = MarketMakerConfig { max_position: 1000 * U, inventory_target: 0, ..MarketMakerConfig::default() };
    let s = MarketMakerStrategy::new("market1".to_string(), cfg);
    assert_eq!(s.calculate_inventory_skew(0), Some(0));
    assert_eq!(s.calculate_inventory_skew(500 * U), Some(U / 2));
    assert_eq!(s.calculate_inventory_skew(-500 * U), Some(-U / 2));
}

#[test]
fn test_quote_calculation() {
    let cfg = MarketMakerConfig {
        target_spread_bps: 20,
        max_position: 1000 * U,
        inventory_target: 0,
        skew_factor: U / 2,
        ..MarketMakerConfig::default()
    };
    let s = MarketMakerStrategy::new("market1".to_string(), cfg);
    let (bid, ask) = s.calculate_quotes(100 * U, 0).unwrap();
    assert!(bid < 100 * U);
    assert!(ask > 100 * U);
    assert!((ask - bid - 200_000).abs() < 10_000);
    let (_bid_long, ask_long) = s.calculate_quotes(100 * U, 500 * U).unwrap();
    assert!(ask_long < ask);
}

struct Recorder {
    seen: Vec<String>,
}

impl Strategy for Recorder {
    fn initialize(&mut self, _ctx: &mut StrategyContext) -> Result<(), StrategyError> {
        Ok(())
    }
    fn on_market_tick(&mut self, market_id: &str, _tick: &MarketTick, _ctx: &mut StrategyContext, _risk: &RiskEngine) -> Result<(), StrategyError> {
        self.seen.push(market_id.to_string());
        Ok(())
    }
    fn on_fill(&mut self, _fill: &Fill, _ctx: &mut StrategyContext) -> Result<(), StrategyError> {
        Ok(())
    }
    fn on_cancel(&mut self, _order_id: &str, _ctx: &mut StrategyContext) -> Result<(), StrategyError> {
        Ok(())
    }
    fn on_timer(&mut self, _ctx: &mut StrategyContext) -> Result<(), StrategyError> {
        Ok(())
    }
    fn shutdown(&mut self, _ctx: &mut StrategyContext) -> Result<(), StrategyError> {
        Ok(())
    }
    fn metadata(&self) -> StrategyMetadata {
        StrategyMetadata {
            name: "recorder".to_string(),
            version: "0".to_string(),
            description: String::new(),
            markets: vec![],
            required_params: vec![],
        }
    }
}

fn ctx(id: &str) -> StrategyContext {
    StrategyContext::new(id.to_string(), StrategyParams::new())
}

#[test]
fn coordinator_isolation() {
    let mut c: MultiMarketCoordinator<Recorder> = MultiMarketCoordinator::new();
    c.register_strategy("s1".to_string(), Recorder { seen: vec![] }, ctx("s1"), vec!["A".to_string()]).unwrap();
    c.register_strategy("s2".to_string(), Recorder { seen: vec![] }, ctx("s2"), vec!["B".to_string(), "C".to_string()]).unwrap();
    let risk = no_rules();
    assert_eq!(c.route_market_tick("A", &tick("A", U, U, 0), &risk).unwrap(), vec!["s1".to_string()]);
    assert_eq!(c.route_market_tick("B", &tick("B", U, U, 0), &risk).unwrap(), vec!["s2".to_string()]);
    assert_eq!(c.route_market_tick("C", &tick("C", U, U, 0), &risk).unwrap(), vec!["s2".to_string()]);
    assert!(c.route_market_tick("D", &tick("D", U, U, 0), &risk).unwrap().is_empty());
    assert_eq!(c.strategy_ids(), vec!["s1".to_string(), "s2".to_string()]);
}

#[test]
fn test_register_strategy() {
    let mut c: MultiMarketCoordinator<Recorder> = MultiMarketCoordinator::new();
    c.register_strategy("s1".to_string(), Recorder { seen: vec![] }, ctx("s1"), vec!["A".to_string()]).unwrap();
    assert_eq!(c.strategy_count(), 1);
    assert!(c.get_context("s1").is_some());
    assert!(c.register_strategy("s1".to_string(), Recorder { seen: vec![] }, ctx("s1"), vec![]).is_err());
    assert_eq!(c.strategy_count(), 1);
}

#[test]
fn test_unregister_strategy() {
    let mut c: MultiMarketCoordinator<Recorder> = MultiMarketCoordinator::new();
    c.register_strategy("s1".to_string(), Recorder { seen: vec![] }, ctx("s1"), vec!["A".to_string()]).unwrap();
    c.unregister_strategy("s1").unwrap();
    assert_eq!(c.strategy_count(), 0);
    assert!(c.unregister_strategy("s1").is_err());
    assert!(c.route_market_tick("A", &tick("A", U, U, 0), &no_rules()).unwrap().is_empty());
    assert!(c.route_fill("s1", &Fill { order_id: String::new(), market: String::new(), price: U, size: U, side: Side::Buy, fee: 0, timestamp: 0 }).is_err());
    assert!(c.route_cancel("s1", "x").is_err());
    assert!(c.on_timer_all().is_ok());
}

#[test]
fn coordinator_exposure() {
    let mut c: MultiMarketCoordinator<Recorder> = MultiMarketCoordinator::new();
    let mut a = ctx("a");
    a.update_position("m", 10 * U, 2 * U);
    let mut b = ctx("b");
    b.update_position("n", 5 * U, 4 * U);
    c.register_strategy("a".to_string(), Recorder { seen: vec![] }, a, vec![]).unwrap();
    c.register_strategy("b".to_string(), Recorder { seen: vec![] }, b, vec![]).unwrap();
    assert_eq!(c.net_size("m"), 10 * U as i128);
    assert_eq!(c.net_size("zzz"), 0);
    let e = c.calculate_total_exposure().unwrap();
    assert_eq!(e.total_value, 40 * U as i128);
    assert_eq!(e.total_unrealized_pnl, 0);
}

fn oscillating_ticks(n: usize) -> Vec<MarketTick> {
    (0..n)
        .map(|i| {
            let mid = if i % 2 == 0 { 100 * U + 100_000 } else { 100 * U - 100_000 };
            tick("mkt", mid - 50_000, mid + 50_000, (i as i64) * 1000)
        })
        .collect()
}

fn backtest(seed: u64) -> ag_botkit::backtest::BacktestResult {
    let risk = RiskEngine::new(RiskPolicyConfig {
        policies: vec![
            PolicyRule::PositionLimit { market_id: None, max_size: 500 * U },
            PolicyRule::InventoryLimit { max_value_usd: 10000 * U },
        ],
    });
    let config = BacktestConfig { initial_capital: 10000 * U, fill_simulator: FillSimulatorConfig::default(), seed };
    let mut engine = BacktestEngine::new(config, risk);
    let mm = MarketMakerStrategy::new(
        "mkt".to_string(),
        MarketMakerConfig { target_spread_bps: 20, quote_size: 50 * U, max_position: 500 * U, ..MarketMakerConfig::default() },
    );
    engine.run_backtest(mm, oscillating_ticks(1000), StrategyParams::new()).unwrap()
}

#[test]
fn backtest_round_trip_scenario() {
    let r = backtest(42);
    assert_eq!(r.equity_curve.len(), 1000);
    assert_eq!(r.num_trades, r.trades.len());
    assert!(r.final_capital >= 10000 * U - r.max_drawdown);
    assert!(r.max_drawdown >= 0);
}

#[test]
fn backtest_is_deterministic_for_a_seed() {
    let a = backtest(9);
    let b = backtest(9);
    assert_eq!(a.equity_curve, b.equity_curve);
    assert_eq!(a.trades.len(), b.trades.len());
    for (x, y) in a.trades.iter().zip(b.trades.iter()) {
        assert_eq!((x.price, x.size, x.side, x.fee, x.timestamp), (y.price, y.size, y.side, y.fee, y.timestamp));
    }
}

#[test]
fn backtest_needs_ticks() {
    let config = BacktestConfig { initial_capital: U, fill_simulator: FillSimulatorConfig::default(), seed: 1 };
    let mut engine = BacktestEngine::new(config, no_rules());
    let mm = MarketMakerStrategy::new("mkt".to_string(), MarketMakerConfig::default());
    assert!(matches!(engine.run_backtest(mm, vec![], StrategyParams::new()), Err(StrategyError::InsufficientData(_))));
}

#[test]
fn metrics_of_a_curve() {
    let trade = Trade { id: "t".to_string(), market: "m".to_string(), price: U, size: U, side: Side::Buy, fee: 0, timestamp: 0 };
    let r = calculate_metrics(100 * U, vec![trade.clone(), trade], vec![(0, 110 * U), (1, 99 * U), (2, 105 * U)]);
    assert_eq!(r.final_capital, 105 * U);
    assert_eq!(r.total_return, 5 * U);
    assert_eq!(r.total_return_bps, 500);
    assert_eq!(r.max_drawdown, 11 * U);
    assert_eq!(r.max_drawdown_bps, 1000);
    assert_eq!(r.win_rate_bps, 10000);
    assert_eq!(r.avg_trade_pnl, 2_500_000);
    let empty = calculate_metrics(100 * U, vec![], vec![]);
    assert_eq!((empty.final_capital, empty.total_return, empty.max_drawdown, empty.win_rate_bps, empty.avg_trade_pnl), (100 * U, 0, 0, 0, 0));
}

#[test]
fn test_metric_creation() {
    let metric = ag_botkit::strategy::StrategyMetric::gauge("test_strategy".to_string(), "test.metric".to_string(), 42 * U, vec![]);
    assert_eq!(metric.strategy_id, "test_strategy");
    assert_eq!(metric.metric_name, "test.metric");
    assert_eq!(metric.value, 42 * U);
    assert_eq!(metric.metric_type, MetricType::Gauge);
    let c = ag_botkit::strategy::StrategyMetric::counter("s".to_string(), "n".to_string(), U, vec![]);
    assert_eq!(c.metric_type, MetricType::Counter);
    let h = ag_botkit::strategy::StrategyMetric::histogram("s".to_string(), "n".to_string(), U, vec![]);
    assert_eq!(h.metric_type, MetricType::Histogram);
}

#[test]
fn test_route_market_tick() {
    let mut c: MultiMarketCoordinator<Recorder> = MultiMarketCoordinator::new();
    c.register_strategy("s1".to_string(), Recorder { seen: vec![] }, ctx("s1"), vec!["market1".to_string()]).unwrap();
    let delivered = c.route_market_tick("market1", &tick("market1", 500_000, 510_000, 0), &no_rules()).unwrap();
    assert_eq!(delivered, vec!["s1".to_string()]);
    assert!(c.get_context("s1").is_some());
}

fn strategy_order(market: &str, side: Side, price: i64, size: i64) -> Order {
    Order {
        id: None,
        venue: "polymarket".to_string(),
        market: market.to_string(),
        side,
        order_type: OrderType::Limit,
        price: Some(price),
        size,
        time_in_force: TimeInForce::GTC,
        client_order_id: None,
        timestamp: 0,
        status: OrderStatus::Pending,
    }
}

#[test]
fn test_submit_order_with_risk_check() {
    let mut c = ctx("test_strategy");
    let risk = RiskEngine::new(RiskPolicyConfig {
        policies: vec![
            PolicyRule::PositionLimit { market_id: None, max_size: 1000 * U },
            PolicyRule::InventoryLimit { max_value_usd: 100000 * U },
        ],
    });
    assert!(c.submit_order(&risk, strategy_order("market1", Side::Buy, 100 * U, 500 * U)).is_ok());
}

#[test]
fn test_position_update() {
    let mut c = ctx("test_strategy");
    c.update_position("market1", 100 * U, 100 * U);
    let pos = c.get_position("market1").unwrap();
    assert_eq!(pos.size, 100 * U);
    assert_eq!(pos.entry_price, 100 * U);
    c.update_position("market1", 50 * U, 102 * U);
    let pos = c.get_position("market1").unwrap();
    assert_eq!(pos.size, 150 * U);
    // (100 * 100 + 50 * 102) / 150 = 100.666...
    assert!((pos.entry_price - 100_666_666).abs() < 10_000);
}

#[test]
fn test_market_maker_quoting() {
    let config = MarketMakerConfig {
        target_spread_bps: 20,
        quote_size: 100 * U,
        max_position: 1000 * U,
        inventory_target: 0,
        skew_factor: U / 2,
        min_quote_interval_ms: 0,
    };
    let mut strategy = MarketMakerStrategy::new("market1".to_string(), config);
    let mut c = ctx("mm_test");
    strategy.initialize(&mut c).unwrap();
    let t = tick("market1", 100 * U - 50_000, 100 * U + 50_000, 0);
    assert!(strategy.on_market_tick("market1", &t, &mut c, &no_rules()).is_ok());
    let orders = c.get_open_orders();
    assert_eq!(orders.len(), 2);
    assert_eq!(orders[0].side, Side::Buy);
    assert_eq!(orders[0].price, Some(99_900_000));
    assert_eq!(orders[1].side, Side::Sell);
    assert_eq!(orders[1].price, Some(100_100_000));
    // Requoting replaces the resting quotes.
    assert!(strategy.on_market_tick("market1", &t, &mut c, &no_rules()).is_ok());
    assert_eq!(c.get_open_orders().len(), 2);
}

#[test]
fn test_cross_market_arbitrage() {
    let config = CrossMarketArbConfig { min_spread_bps: 50, size: 50 * U, max_position: 500 * U };
    let mut strategy = CrossMarketArbStrategy::new("market_a".to_string(), "market_b".to_string(), config);
    let mut c = ctx("arb_test");
    strategy.initialize(&mut c).unwrap();
    strategy.on_market_tick("market_a", &tick("market_a", 100 * U, 100 * U, 0), &mut c, &no_rules()).unwrap();
    assert!(strategy.on_market_tick("market_b", &tick("market_b", 101 * U, 101 * U, 1), &mut c, &no_rules()).is_ok());
    assert_eq!(c.get_open_orders().len(), 2);
}

#[test]
fn test_risk_rejection() {
    let risk = RiskEngine::new(RiskPolicyConfig {
        policies: vec![PolicyRule::PositionLimit { market_id: None, max_size: 100 * U }],
    });
    let mut c = ctx("risk_test");
    c.update_position("market1", 90 * U, 100 * U);
    match c.submit_order(&risk, strategy_order("market1", Side::Buy, 100 * U, 20 * U)) {
        Err(StrategyError::RiskRejected { policies }) => assert!(!policies.is_empty()),
        _ => panic!("Expected risk rejection"),
    }
}

#[test]
fn entry_price_is_volume_weighted_over_many_buys() {
    let mut c = ctx("s");
    c.update_position("m", 2 * U, U);
    for _ in 0..4 {
        c.update_position("m", U, 3 * U);
    }
    let p = c.get_position("m").unwrap();
    assert_eq!(p.size, 6 * U);
    assert_eq!(p.cost_basis, 14 * (U as i128) * (U as i128));
    assert_eq!(p.entry_price, 2_333_333); // 14 / 6
    assert_eq!(p.mark_price, 3 * U);
    assert_eq!(p.unrealized_pnl, 4_000_002); // 6 * (3 - 2.333333)
    assert_eq!(p.value_usd, 18 * U);
}

#[test]
fn market_maker_ignores_other_markets_and_quiet_times() {
    let config = MarketMakerConfig { min_quote_interval_ms: 1000, ..MarketMakerConfig::default() };
    let mut s = MarketMakerStrategy::new("m".to_string(), config);
    let mut c = ctx("mm");
    let risk = no_rules();
    s.process_tick("other", &tick("other", 99 * U, 101 * U, 0), &mut c, &risk).unwrap();
    assert!(c.get_open_orders().is_empty());
    s.process_tick("m", &tick("m", 99 * U, 101 * U, 0), &mut c, &risk).unwrap();
    assert_eq!(c.get_open_orders().len(), 2);
    // Too soon to requote: nothing changes.
    s.process_tick("m", &tick("m", 98 * U, 100 * U, 500), &mut c, &risk).unwrap();
    assert_eq!(c.get_open_orders()[0].price, Some(99_900_000));
}

#[test]
fn arbitrage_skips_unknown_markets() {
    let mut s = CrossMarketArbStrategy::new("A".to_string(), "B".to_string(), CrossMarketArbConfig::default());
    let mut c = ctx("arb");
    s.process_tick("C", &tick("C", U, U, 0), &mut c, &no_rules()).unwrap();
    s.process_tick("A", &tick("A", 100 * U, 100 * U, 0), &mut c, &no_rules()).unwrap();
    assert!(c.get_open_orders().is_empty());
}
