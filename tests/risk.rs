use ag_botkit::risk::{PolicyRule, RiskAction, RiskContext, RiskDecision, RiskEngine, RiskPolicyConfig};

const U: i64 = 1_000_000;

fn engine(policies: Vec<PolicyRule>) -> RiskEngine {
    RiskEngine::new(RiskPolicyConfig { policies })
}

fn ctx(market: &str, current: i64, proposed: i64, inventory: i64) -> RiskContext {
    RiskContext {
        market_id: market.to_string(),
        current_position: current,
        proposed_size: proposed,
        inventory_value_usd: inventory,
    }
}

fn limit(max: i64) -> PolicyRule {
    PolicyRule::PositionLimit { market_id: None, max_size: max * U }
}

#[test]
fn test_position_limit_global() {
    let engine = engine(vec![limit(1000)]);
    let decision = engine.evaluate(&ctx("0x123", 500 * U, 400 * U, 5000 * U));
    assert!(decision.allowed);
    let decision = engine.evaluate(&ctx("0x123", 800 * U, 300 * U, 5000 * U));
    assert!(!decision.allowed);
    assert_eq!(decision.violated_policies.len(), 1);
    assert!(decision.violated_policies[0].contains("PositionLimit"));
}

#[test]
fn test_position_limit_per_market() {
    let engine = engine(vec![
        PolicyRule::PositionLimit { market_id: Some("0x123".to_string()), max_size: 500 * U },
        PolicyRule::PositionLimit { market_id: Some("0x456".to_string()), max_size: 1000 * U },
    ]);
    assert!(!engine.evaluate(&ctx("0x123", 400 * U, 200 * U, 5000 * U)).allowed);
    assert!(engine.evaluate(&ctx("0x456", 400 * U, 200 * U, 5000 * U)).allowed);
}

#[test]
fn test_inventory_limit() {
    let engine = engine(vec![PolicyRule::InventoryLimit { max_value_usd: 10000 * U }]);
    assert!(engine.evaluate(&ctx("0x123", 500 * U, 100 * U, 8000 * U)).allowed);
    let decision = engine.evaluate(&ctx("0x123", 500 * U, 100 * U, 12000 * U));
    assert!(!decision.allowed);
    assert!(decision.violated_policies[0].contains("InventoryLimit"));
}

#[test]
fn inventory_limit_message() {
    let engine = engine(vec![PolicyRule::InventoryLimit { max_value_usd: 10000 * U }]);
    let decision = engine.evaluate(&ctx("m", 0, U, 12_345_678_900));
    assert_eq!(
        decision.violated_policies,
        vec!["InventoryLimit: inventory 12345.68 USD exceeds max 10000.00 USD".to_string()]
    );
}

#[test]
fn test_kill_switch_in_policy() {
    let engine = engine(vec![PolicyRule::KillSwitch { enabled: true }]);
    let decision = engine.evaluate(&ctx("0x123", 100 * U, 50 * U, 1000 * U));
    assert!(!decision.allowed);
    assert!(decision.violated_policies[0].contains("KillSwitch"));
    assert_eq!(decision.violated_policies[0], "KillSwitch: enabled in policy");
}

#[test]
fn disabled_kill_switch_rule_allows() {
    let engine = engine(vec![PolicyRule::KillSwitch { enabled: false }]);
    assert!(engine.evaluate(&ctx("0x123", 0, 50 * U, 0)).allowed);
}

#[test]
fn test_kill_switch_trigger() {
    let mut engine = engine(vec![limit(10000)]);
    let c = ctx("0x123", 100 * U, 50 * U, 1000 * U);
    assert!(engine.evaluate(&c).allowed);
    engine.trigger_kill_switch();
    assert!(engine.is_kill_switch_active());
    let decision = engine.evaluate(&c);
    assert!(!decision.allowed);
    assert!(decision.violated_policies[0].contains("KillSwitch (active)"));
    engine.reset_kill_switch();
    assert!(!engine.is_kill_switch_active());
    assert!(engine.evaluate(&c).allowed);
}

#[test]
fn test_multiple_violations() {
    let engine = engine(vec![limit(100), PolicyRule::InventoryLimit { max_value_usd: 500 * U }]);
    let decision = engine.evaluate(&ctx("0x123", 80 * U, 50 * U, 1000 * U));
    assert!(!decision.allowed);
    assert_eq!(decision.violated_policies.len(), 2);
    assert!(decision.violated_policies[0].starts_with("PositionLimit"));
    assert!(decision.violated_policies[1].starts_with("InventoryLimit"));
}

#[test]
fn test_negative_positions() {
    let engine = engine(vec![limit(1000)]);
    assert!(!engine.evaluate(&ctx("0x123", -800 * U, -300 * U, 5000 * U)).allowed);
    assert!(engine.evaluate(&ctx("0x123", -800 * U, 200 * U, 5000 * U)).allowed);
}

#[test]
fn limit_is_inclusive() {
    let engine = engine(vec![limit(1000)]);
    assert!(engine.evaluate(&ctx("m", 600 * U, 400 * U, 0)).allowed);
    assert!(!engine.evaluate(&ctx("m", 600 * U, 400 * U + 1, 0)).allowed);
}

#[test]
fn position_limit_scenario() {
    let engine = engine(vec![limit(1000)]);
    let decision = engine.evaluate(&ctx("0xabc", 500 * U, 600 * U, 0));
    assert!(!decision.allowed);
    assert_eq!(
        decision.violated_policies,
        vec!["PositionLimit: new position 1100.00 exceeds max 1000.00".to_string()]
    );
    assert!(engine.evaluate(&ctx("0xabc", 500 * U, 400 * U, 0)).allowed);
}

#[test]
fn position_limit_message_names_market() {
    let engine = engine(vec![PolicyRule::PositionLimit { market_id: Some("A".to_string()), max_size: 500 * U }]);
    let decision = engine.evaluate(&ctx("A", 0, 600 * U, 0));
    assert_eq!(
        decision.violated_policies,
        vec!["PositionLimit (market: A): new position 600.00 exceeds max 500.00".to_string()]
    );
}

#[test]
fn kill_switch_scenario() {
    let mut engine = engine(vec![limit(10000)]);
    let c = ctx("0xabc", 0, 100 * U, 0);
    assert!(engine.evaluate(&c).allowed);
    engine.trigger_kill_switch();
    let decision = engine.evaluate(&c);
    assert!(!decision.allowed);
    assert_eq!(decision.violated_policies, vec!["KillSwitch (active)".to_string()]);
    engine.reset_kill_switch();
    assert!(engine.evaluate(&c).allowed);
}

#[test]
fn kill_switch_dominates_every_context() {
    let mut engine = engine(vec![]);
    engine.trigger_kill_switch();
    for (cur, prop, inv) in [(0, 0, 0), (-5 * U, 3 * U, 7 * U), (i64::MAX, i64::MIN, i64::MIN)] {
        let decision = engine.evaluate(&ctx("any", cur, prop, inv));
        assert!(!decision.allowed);
        assert_eq!(decision.violated_policies, vec!["KillSwitch (active)".to_string()]);
    }
}

#[test]
fn per_market_scope_scenario() {
    let engine = engine(vec![
        PolicyRule::PositionLimit { market_id: Some("A".to_string()), max_size: 500 * U },
        PolicyRule::PositionLimit { market_id: Some("B".to_string()), max_size: 1000 * U },
    ]);
    assert!(!engine.evaluate(&ctx("A", 0, 600 * U, 0)).allowed);
    assert!(engine.evaluate(&ctx("B", 0, 600 * U, 0)).allowed);
}

#[test]
fn risk_monotone_in_position_limit() {
    let engine = engine(vec![limit(1000), PolicyRule::InventoryLimit { max_value_usd: 10000 * U }]);
    for size in [0i64, 100, 499, 500, 501, 900] {
        let decision = engine.evaluate(&ctx("m", 500 * U, size * U, 0));
        assert_eq!(decision.allowed, 500 + size <= 1000);
    }
}

#[test]
fn test_policy_name() {
    assert_eq!(limit(100).name(), "PositionLimit");
    assert_eq!(PolicyRule::InventoryLimit { max_value_usd: 1000 * U }.name(), "InventoryLimit");
    assert_eq!(PolicyRule::KillSwitch { enabled: false }.name(), "KillSwitch");
}

#[test]
fn test_applies_to_market() {
    assert!(limit(100).applies_to_market(&"any_market".to_string()));
    let market_limit = PolicyRule::PositionLimit { market_id: Some("0x123".to_string()), max_size: 100 * U };
    assert!(market_limit.applies_to_market(&"0x123".to_string()));
    assert!(!market_limit.applies_to_market(&"0x456".to_string()));
    let inv_limit = PolicyRule::InventoryLimit { max_value_usd: 1000 * U };
    assert!(inv_limit.applies_to_market(&"any_market".to_string()));
}

#[test]
fn test_risk_context_creation() {
    let c = ctx("0x123", 100 * U, 50 * U, 1000 * U);
    assert_eq!(c.market_id, "0x123");
    assert_eq!(c.current_position, 100 * U);
}

#[test]
fn test_risk_decision_allow() {
    let decision = RiskDecision::allow();
    assert!(decision.allowed);
    assert!(decision.violated_policies.is_empty());
}

#[test]
fn test_risk_decision_reject() {
    let decision = RiskDecision::reject(vec!["PositionLimit".to_string()]);
    assert!(!decision.allowed);
    assert_eq!(decision.violated_policies.len(), 1);
    assert_eq!(decision.violated_policies[0], "PositionLimit");
}

#[test]
fn risk_actions_are_distinct() {
    assert_ne!(RiskAction::Allow, RiskAction::Reject);
    assert_ne!(RiskAction::Reject, RiskAction::KillSwitch);
}
