use ag_botkit::risk::{PolicyRule, RiskContext, RiskEngine, RiskPolicyConfig};
use ag_botkit::simulator::PolymarketSimulator;

const U: i64 = 1_000_000;

fn engine(policies: Vec<PolicyRule>) -> RiskEngine {
    RiskEngine::new(RiskPolicyConfig { policies })
}

fn ctx(market: &str, current: i64, proposed: i64, inventory: i64) -> RiskContext {
    RiskContext {
        market_id: market.to_string(),
        current_position: current,
        proposed_size: proposed,
        inventory_value_usd: inventory,
    }
}

#[test]
fn test_new_simulator() {
    let sim = PolymarketSimulator::new();
    assert_eq!(sim.get_position("0x123"), 0);
    assert_eq!(sim.get_inventory_value_usd(), 0);
}

#[test]
fn test_single_buy() {
    let mut sim = PolymarketSimulator::new();
    assert!(sim.update_position("0x123", 100 * U, 550_000));
    assert_eq!(sim.get_position("0x123"), 100 * U);
    assert_eq!(sim.get_avg_price("0x123"), 550_000);
    assert_eq!(sim.get_inventory_value_usd(), 55 * U as i128);
}

#[test]
fn test_multiple_buys_same_market() {
    let mut sim = PolymarketSimulator::new();
    sim.update_position("0x123", 100 * U, 500_000);
    sim.update_position("0x123", 100 * U, 600_000);
    assert_eq!(sim.get_position("0x123"), 200 * U);
    assert_eq!(sim.get_avg_price("0x123"), 550_000);
}

#[test]
fn test_buy_then_sell() {
    let mut sim = PolymarketSimulator::new();
    sim.update_position("0x123", 100 * U, 500_000);
    sim.update_position("0x123", -50 * U, 600_000);
    assert_eq!(sim.get_position("0x123"), 50 * U);
    let pnl = sim.get_unrealized_pnl("0x123");
    assert!(pnl > 0);
    assert_eq!(pnl, 5 * U as i128);
}

#[test]
fn test_close_position() {
    let mut sim = PolymarketSimulator::new();
    sim.update_position("0x123", 100 * U, 500_000);
    sim.update_position("0x123", -100 * U, 600_000);
    assert_eq!(sim.get_position("0x123"), 0);
    assert_eq!(sim.get_avg_price("0x123"), 0);
}

#[test]
fn test_multiple_markets() {
    let mut sim = PolymarketSimulator::new();
    sim.update_position("0x123", 100 * U, 550_000);
    sim.update_position("0x456", 200 * U, 400_000);
    assert_eq!(sim.get_position("0x123"), 100 * U);
    assert_eq!(sim.get_position("0x456"), 200 * U);
    assert_eq!(sim.get_inventory_value_usd(), 135 * U as i128);
}

#[test]
fn test_pnl_calculation() {
    let mut sim = PolymarketSimulator::new();
    sim.update_position("0x123", 100 * U, 500_000);
    sim.update_position("0x123", 0, 600_000);
    assert_eq!(sim.get_unrealized_pnl("0x123"), 10 * U as i128);
}

#[test]
fn test_negative_pnl() {
    let mut sim = PolymarketSimulator::new();
    sim.update_position("0x123", 100 * U, 600_000);
    sim.update_position("0x123", 0, 500_000);
    assert_eq!(sim.get_unrealized_pnl("0x123"), -10 * U as i128);
}

#[test]
fn test_reset() {
    let mut sim = PolymarketSimulator::new();
    sim.update_position("0x123", 100 * U, 550_000);
    sim.update_position("0x456", 200 * U, 400_000);
    sim.reset();
    assert_eq!(sim.get_position("0x123"), 0);
    assert_eq!(sim.get_position("0x456"), 0);
    assert_eq!(sim.get_inventory_value_usd(), 0);
}

#[test]
fn test_get_active_markets() {
    let mut sim = PolymarketSimulator::new();
    sim.update_position("0x123", 100 * U, 550_000);
    sim.update_position("0x456", 200 * U, 400_000);
    sim.update_position("0x789", 0, 500_000);
    let active = sim.get_active_markets();
    assert_eq!(active.len(), 2);
    assert!(active.contains(&"0x123".to_string()));
    assert!(active.contains(&"0x456".to_string()));
}

#[test]
fn test_position_details() {
    let mut sim = PolymarketSimulator::new();
    sim.update_position("0x123", 100 * U, 500_000);
    sim.update_position("0x123", 0, 600_000);
    let details = sim.get_position_details("0x123").unwrap();
    assert_eq!(details.size, 100 * U);
    assert_eq!(details.avg_price, 500_000);
    assert_eq!(details.current_price, 600_000);
    assert_eq!(details.unrealized_pnl, 10 * U as i128);
    assert!(sim.get_position_details("nope").is_none());
}

#[test]
fn test_short_position() {
    let mut sim = PolymarketSimulator::new();
    sim.update_position("0x123", -100 * U, 600_000);
    assert_eq!(sim.get_position("0x123"), -100 * U);
    sim.update_position("0x123", 0, 500_000);
    let pnl = sim.get_unrealized_pnl("0x123");
    assert!(pnl > 0);
    assert_eq!(pnl, 10 * U as i128);
}

#[test]
fn test_total_pnl() {
    let mut sim = PolymarketSimulator::new();
    sim.update_position("0x123", 100 * U, 500_000);
    sim.update_position("0x123", 0, 600_000);
    sim.update_position("0x456", 100 * U, 600_000);
    sim.update_position("0x456", 0, 500_000);
    assert_eq!(sim.get_total_pnl(), 0);
}

#[test]
fn test_position_reversal() {
    let mut sim = PolymarketSimulator::new();
    sim.update_position("0x123", 100 * U, 500_000);
    sim.update_position("0x123", -200 * U, 600_000);
    assert_eq!(sim.get_position("0x123"), -100 * U);
    assert_eq!(sim.get_avg_price("0x123"), 600_000);
}

#[test]
fn non_positive_price_is_refused() {
    let mut sim = PolymarketSimulator::new();
    assert!(!sim.update_position("0x123", 100 * U, 0));
    assert_eq!(sim.get_position("0x123"), 0);
}

#[test]
fn test_simulator_with_risk_engine() {
    let mut sim = PolymarketSimulator::new();
    let engine = engine(vec![
        PolicyRule::PositionLimit { market_id: None, max_size: 1000 * U },
        PolicyRule::InventoryLimit { max_value_usd: 5000 * U },
    ]);
    sim.update_position("0x123", 500 * U, 550_000);
    let c = ctx("0x123", sim.get_position("0x123"), 300 * U, sim.get_inventory_value_usd() as i64);
    assert!(engine.evaluate(&c).allowed);
    sim.update_position("0x123", 300 * U, 600_000);
    let c = ctx("0x123", sim.get_position("0x123"), 300 * U, sim.get_inventory_value_usd() as i64);
    assert!(!engine.evaluate(&c).allowed);
}

#[test]
fn test_kill_switch_workflow() {
    let mut engine = engine(vec![PolicyRule::PositionLimit { market_id: None, max_size: 10000 * U }]);
    let c = ctx("0x123", 500 * U, 300 * U, 5000 * U);
    assert!(engine.evaluate(&c).allowed);
    engine.trigger_kill_switch();
    let decision = engine.evaluate(&c);
    assert!(!decision.allowed);
    assert!(decision.violated_policies[0].contains("KillSwitch"));
    engine.reset_kill_switch();
    assert!(engine.evaluate(&c).allowed);
}

#[test]
fn test_inventory_limit_across_markets() {
    let mut sim = PolymarketSimulator::new();
    let engine = engine(vec![PolicyRule::InventoryLimit { max_value_usd: 1000 * U }]);
    sim.update_position("0x123", 500 * U, 600_000);
    sim.update_position("0x456", 1000 * U, 500_000);
    let c = ctx("0x789", 0, 500 * U, sim.get_inventory_value_usd() as i64);
    assert!(engine.evaluate(&c).allowed);
    sim.update_position("0x789", 500 * U, 800_000);
    let c = ctx("0xabc", 0, 100 * U, sim.get_inventory_value_usd() as i64);
    assert!(!engine.evaluate(&c).allowed);
}

#[test]
fn test_position_reduction_allowed() {
    let engine = engine(vec![PolicyRule::PositionLimit { market_id: None, max_size: 500 * U }]);
    assert!(engine.evaluate(&ctx("0x123", 500 * U, -200 * U, 2500 * U)).allowed);
}

#[test]
fn test_boundary_conditions() {
    let engine = engine(vec![PolicyRule::PositionLimit { market_id: None, max_size: 1000 * U }]);
    assert!(engine.evaluate(&ctx("0x123", 999 * U, U, 5000 * U)).allowed);
    assert!(!engine.evaluate(&ctx("0x123", 999 * U, 1_100_000, 5000 * U)).allowed);
}

#[test]
fn test_simulator_pnl_tracking() {
    let mut sim = PolymarketSimulator::new();
    sim.update_position("0x123", 1000 * U, 500_000);
    assert_eq!(sim.get_avg_price("0x123"), 500_000);
    sim.update_position("0x123", 0, 600_000);
    assert_eq!(sim.get_unrealized_pnl("0x123"), 100 * U as i128);
    sim.update_position("0x123", -500 * U, 650_000);
    assert_eq!(sim.get_position("0x123"), 500 * U);
    assert!(sim.get_unrealized_pnl("0x123") > 0);
}

#[test]
fn test_zero_size_trades() {
    let engine = engine(vec![PolicyRule::PositionLimit { market_id: None, max_size: 1000 * U }]);
    assert!(engine.evaluate(&ctx("0x123", 500 * U, 0, 2500 * U)).allowed);
}

#[test]
fn test_policy_priority() {
    let engine = engine(vec![
        PolicyRule::PositionLimit { market_id: None, max_size: 100 * U },
        PolicyRule::InventoryLimit { max_value_usd: 50 * U },
    ]);
    let decision = engine.evaluate(&ctx("0x123", 90 * U, 50 * U, 100 * U));
    assert!(!decision.allowed);
    assert!(decision.violated_policies.len() >= 2);
}
