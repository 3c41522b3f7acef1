use ag_botkit::engine::{ExecutionEngine, ExecutionEngineConfig};
use ag_botkit::error::ExecError;
use ag_botkit::order::{
    CancelAck, Fill, MarketId, Order, OrderAck, OrderId, OrderStatus, OrderType, Side, TimeInForce, VenueId,
};
use ag_botkit::risk::{PolicyRule, RiskEngine, RiskPolicyConfig};
use ag_botkit::tracker::OrderTracker;
use ag_botkit::validator::OrderValidator;
use ag_botkit::venue::{from_polymarket_status, sign_request, signing_message, to_polymarket_order};

const U: i64 = 1_000_000;

fn order_with(size: i64, price: Option<i64>, order_type: OrderType) -> Order {
    Order::new(
        VenueId::new("polymarket"),
        MarketId::new("0x123abc"),
        Side::Buy,
        order_type,
        price,
        size,
        TimeInForce::GTC,
        "client-123".to_string(),
    )
}

fn create_test_order() -> Order {
    order_with(100 * U, Some(520_000), OrderType::Limit)
}

fn fill_for(order_id: OrderId, size: i64, price: i64) -> Fill {
    Fill {
        fill_id: "fill-1".to_string(),
        order_id,
        venue_order_id: None,
        price,
        size,
        fee: 10_000,
        fee_currency: "USD".to_string(),
        timestamp: 0,
        liquidity: None,
    }
}

#[test]
fn test_order_id_generation() {
    assert_ne!(OrderId::new(), OrderId::new());
}

#[test]
fn test_order_creation() {
    let order = create_test_order();
    assert_eq!(order.status, OrderStatus::Pending);
    assert_eq!(order.filled_size, 0);
    assert_eq!(order.size, 100 * U);
}

#[test]
fn test_order_fill_recording() {
    let mut order = create_test_order();
    order.record_fill(50 * U, 510_000);
    assert_eq!(order.filled_size, 50 * U);
    assert_eq!(order.status, OrderStatus::PartiallyFilled);
    assert_eq!(order.avg_fill_price, Some(510_000));
    order.record_fill(50 * U, 530_000);
    assert_eq!(order.filled_size, 100 * U);
    assert_eq!(order.status, OrderStatus::Filled);
    assert_eq!(order.avg_fill_price, Some(520_000));
}

#[test]
fn volume_weighted_average_of_uneven_fills() {
    let mut order = create_test_order();
    order.record_fill(10 * U, 400_000);
    order.record_fill(30 * U, 600_000);
    // (10 * 0.40 + 30 * 0.60) / 40 = 0.55
    assert_eq!(order.avg_fill_price, Some(550_000));
    assert_eq!(order.fill_notional, 10 * U as i128 * 400_000 + 30 * U as i128 * 600_000);
}

#[test]
fn overfill_is_clamped() {
    let mut order = create_test_order();
    let taken = order.record_fill(150 * U, 500_000);
    assert_eq!(taken, 100 * U);
    assert_eq!(order.filled_size, order.size);
    assert_eq!(order.status, OrderStatus::Filled);
    assert_eq!(order.record_fill(U, 500_000), 0);
    assert_eq!(order.filled_size, order.size);
}

#[test]
fn test_order_terminal_status() {
    let mut order = create_test_order();
    assert!(!order.is_terminal());
    order.update_status(OrderStatus::Working);
    assert!(!order.is_terminal());
    assert!(order.is_active());
    // Filled is reached through fills, which keeps the order's fill state consistent.
    order.record_fill(order.size, 520_000);
    assert!(order.is_terminal());
    assert!(!order.is_active());
}

#[test]
fn terminal_states_are_absorbing() {
    let mut order = create_test_order();
    assert!(order.update_status(OrderStatus::Cancelled));
    for s in [OrderStatus::Working, OrderStatus::Pending, OrderStatus::PartiallyFilled, OrderStatus::Filled] {
        assert!(!order.update_status(s));
        assert_eq!(order.status, OrderStatus::Cancelled);
    }
    assert_eq!(order.record_fill(U, 500_000), 0);
    assert_eq!(order.status, OrderStatus::Cancelled);
}

#[test]
fn status_names() {
    assert_eq!(OrderStatus::PartiallyFilled.as_str(), "PARTIALLY_FILLED");
    assert_eq!(Side::Sell.as_str(), "SELL");
    assert_eq!(OrderType::PostOnly.as_str(), "POST_ONLY");
    assert_eq!(TimeInForce::FOK.as_str(), "FOK");
}

#[test]
fn test_remaining_size() {
    let mut order = create_test_order();
    assert_eq!(order.remaining_size(), 100 * U);
    order.record_fill(30 * U, 510_000);
    assert_eq!(order.remaining_size(), 70 * U);
}

#[test]
fn test_track_and_retrieve_order() {
    let mut tracker = OrderTracker::new();
    let order = create_test_order();
    let order_id = order.id;
    tracker.track_order(order.clone()).unwrap();
    let retrieved = tracker.get_order(&order_id).unwrap();
    assert_eq!(retrieved.id, order_id);
    assert_eq!(retrieved.size, 100 * U);
}

#[test]
fn test_update_order_status() {
    let mut tracker = OrderTracker::new();
    let order = create_test_order();
    let order_id = order.id;
    tracker.track_order(order).unwrap();
    tracker.update_status(&order_id, OrderStatus::Working).unwrap();
    assert_eq!(tracker.get_order(&order_id).unwrap().status, OrderStatus::Working);
}

#[test]
fn test_record_fill() {
    let mut tracker = OrderTracker::new();
    let order = create_test_order();
    let order_id = order.id;
    tracker.track_order(order).unwrap();
    tracker.record_fill(&order_id, fill_for(order_id, 50 * U, 510_000)).unwrap();
    let order = tracker.get_order(&order_id).unwrap();
    assert_eq!(order.filled_size, 50 * U);
    assert_eq!(order.status, OrderStatus::PartiallyFilled);
    let fills = tracker.get_fills(&order_id);
    assert_eq!(fills.len(), 1);
    assert_eq!(fills[0].size, 50 * U);
}

#[test]
fn fill_accounting_scenario() {
    let mut tracker = OrderTracker::new();
    let order = create_test_order();
    let id = order.id;
    tracker.track_order(order).unwrap();
    tracker.record_fill(&id, fill_for(id, 50 * U, 510_000)).unwrap();
    let o = tracker.get_order(&id).unwrap();
    assert_eq!((o.status, o.filled_size, o.avg_fill_price), (OrderStatus::PartiallyFilled, 50 * U, Some(510_000)));
    tracker.record_fill(&id, fill_for(id, 50 * U, 530_000)).unwrap();
    let o = tracker.get_order(&id).unwrap();
    assert_eq!((o.status, o.avg_fill_price), (OrderStatus::Filled, Some(520_000)));
}

#[test]
fn tracker_errors() {
    let mut tracker = OrderTracker::new();
    let missing = OrderId::from_u128(7);
    assert!(matches!(tracker.get_order(&missing), Err(ExecError::OrderNotFound(_))));
    assert!(matches!(tracker.update_status(&missing, OrderStatus::Working), Err(ExecError::OrderNotFound(_))));
    assert!(matches!(tracker.record_fill(&missing, fill_for(missing, U, U)), Err(ExecError::OrderNotFound(_))));
    assert!(matches!(tracker.remove_order(&missing), Err(ExecError::OrderNotFound(_))));
    let order = create_test_order();
    let id = order.id;
    tracker.track_order(order).unwrap();
    assert!(matches!(tracker.record_fill(&id, fill_for(id, 0, U)), Err(ExecError::ValidationError(_))));
    tracker.update_status(&id, OrderStatus::Rejected).unwrap();
    assert!(matches!(
        tracker.update_status(&id, OrderStatus::Working),
        Err(ExecError::InvalidOrderState { .. })
    ));
    assert_eq!(tracker.remove_order(&id).unwrap().id, id);
    assert_eq!(tracker.count(), 0);
    let bad = order_with(0, Some(U), OrderType::Limit);
    assert!(matches!(tracker.track_order(bad), Err(ExecError::ValidationError(_))));
}

#[test]
fn test_get_active_orders() {
    let mut tracker = OrderTracker::new();
    let mut order1 = create_test_order();
    order1.update_status(OrderStatus::Working);
    tracker.track_order(order1).unwrap();
    let mut order2 = create_test_order();
    order2.update_status(OrderStatus::Filled);
    tracker.track_order(order2).unwrap();
    let active_orders = tracker.get_active_orders();
    assert_eq!(active_orders.len(), 1);
    assert_eq!(active_orders[0].status, OrderStatus::Working);
}

#[test]
fn test_clear_terminal_orders() {
    let mut tracker = OrderTracker::new();
    let order1 = create_test_order();
    let id1 = order1.id;
    tracker.track_order(order1).unwrap();
    // The first order reaches Filled through a fill of its whole size.
    tracker.record_fill(&id1, fill_for(id1, 100 * U, 520_000)).unwrap();
    let mut order2 = create_test_order();
    order2.update_status(OrderStatus::Working);
    tracker.track_order(order2).unwrap();
    assert_eq!(tracker.count(), 2);
    assert_eq!(tracker.get_terminal_orders().len(), 1);
    assert_eq!(tracker.get_all_orders().len(), 2);
    let cleared = tracker.clear_terminal_orders();
    assert_eq!(cleared, 1);
    assert_eq!(tracker.count(), 1);
}

#[test]
fn test_valid_limit_order() {
    assert!(OrderValidator::new().validate(&order_with(100 * U, Some(520_000), OrderType::Limit)).is_ok());
}

#[test]
fn test_valid_market_order() {
    assert!(OrderValidator::new().validate(&order_with(100 * U, None, OrderType::Market)).is_ok());
}

#[test]
fn test_size_too_small() {
    let result = OrderValidator::new().validate(&order_with(1_000, Some(520_000), OrderType::Limit));
    assert!(result.is_err());
    assert!(matches!(result, Err(ExecError::ValidationError(_))));
}

#[test]
fn test_size_too_large() {
    assert!(OrderValidator::new().validate(&order_with(2_000_000 * U, Some(520_000), OrderType::Limit)).is_err());
}

#[test]
fn test_negative_size() {
    assert!(OrderValidator::new().validate(&order_with(-10 * U, Some(520_000), OrderType::Limit)).is_err());
}

#[test]
fn test_limit_order_without_price() {
    let r = OrderValidator::new().validate(&order_with(100 * U, None, OrderType::Limit));
    assert!(matches!(r, Err(ExecError::ValidationError(m)) if m == "Limit order must have a price"));
}

#[test]
fn post_only_needs_positive_price() {
    let v = OrderValidator::custom(1, 10 * U, -U, U);
    let r = v.validate(&order_with(U, Some(0), OrderType::PostOnly));
    assert!(matches!(r, Err(ExecError::ValidationError(m)) if m == "Price must be positive"));
    assert!(v.validate(&order_with(U, Some(1), OrderType::PostOnly)).is_ok());
}

#[test]
fn test_market_order_with_price() {
    let r = OrderValidator::new().validate(&order_with(100 * U, Some(520_000), OrderType::Market));
    assert!(matches!(r, Err(ExecError::ValidationError(m)) if m == "Market order should not have a price"));
}

#[test]
fn test_price_too_low() {
    assert!(OrderValidator::new().validate(&order_with(100 * U, Some(10), OrderType::Limit)).is_err());
}

#[test]
fn test_price_too_high() {
    assert!(OrderValidator::new().validate(&order_with(100 * U, Some(1_500_000), OrderType::Limit)).is_err());
}

#[test]
fn test_custom_validator() {
    let validator = OrderValidator::custom(10 * U, 1000 * U, 10_000, 990_000);
    assert!(validator.validate(&order_with(50 * U, Some(500_000), OrderType::Limit)).is_ok());
    assert!(validator.validate(&order_with(5 * U, Some(500_000), OrderType::Limit)).is_err());
}

#[test]
fn validator_setters() {
    let mut v = OrderValidator::new();
    v.set_min_size(200 * U);
    assert!(v.validate(&create_test_order()).is_err());
    v.set_min_size(U);
    v.set_max_size(50 * U);
    assert!(v.validate(&create_test_order()).is_err());
    v.set_max_size(500 * U);
    v.set_min_price(600_000);
    assert!(v.validate(&create_test_order()).is_err());
    v.set_min_price(1);
    v.set_max_price(500_000);
    assert!(v.validate(&create_test_order()).is_err());
    v.set_max_price(U);
    assert!(v.validate(&create_test_order()).is_ok());
}

#[test]
fn test_empty_market_id() {
    let mut order = create_test_order();
    order.market = MarketId::new("");
    assert!(OrderValidator::new().validate(&order).is_err());
}

#[test]
fn test_empty_venue_id() {
    let mut order = create_test_order();
    order.venue = VenueId::new("");
    let r = OrderValidator::new().validate(&order);
    assert!(matches!(r, Err(ExecError::ValidationError(m)) if m == "Venue ID cannot be empty"));
}

#[test]
fn test_error_is_retryable() {
    let network_err = ExecError::NetworkError("connection lost".to_string());
    assert!(network_err.is_retryable());
    let validation_err = ExecError::ValidationError("invalid price".to_string());
    assert!(!validation_err.is_retryable());
    let rate_limit_err = ExecError::RateLimitExceeded {
        venue: "polymarket".to_string(),
        message: "too many requests".to_string(),
    };
    assert!(rate_limit_err.is_retryable());
    assert!(rate_limit_err.is_rate_limit());
}

#[test]
fn error_test_risk_rejection() {
    let risk_err = ExecError::RiskRejected { policies: vec!["PositionLimit".to_string()] };
    assert!(risk_err.is_risk_rejection());
    assert!(!risk_err.is_retryable());
}

fn engine_with_limit(max: i64) -> ExecutionEngine {
    let mut engine = ExecutionEngine::new(ExecutionEngineConfig::default());
    engine.set_risk_engine(RiskEngine::new(RiskPolicyConfig {
        policies: vec![PolicyRule::PositionLimit { market_id: None, max_size: max * U }],
    }));
    engine.register_venue(VenueId::new("polymarket"));
    engine
}

#[test]
fn test_position_tracking() {
    let mut engine = ExecutionEngine::new(ExecutionEngineConfig::default());
    let market_id = "0x123abc";
    assert_eq!(engine.get_position(market_id), 0);
    let order = create_test_order();
    let id = order.id;
    engine.begin_submission(order).unwrap();
    engine.record_fill(fill_for(id, 100 * U, 510_000)).unwrap();
    assert_eq!(engine.get_position(market_id), 100 * U);
    assert_eq!(engine.get_all_positions(), vec![(market_id.to_string(), 100 * U)]);
}

#[test]
fn sell_fills_reduce_position() {
    let mut engine = ExecutionEngine::new(ExecutionEngineConfig::default());
    let mut order = create_test_order();
    order.side = Side::Sell;
    let id = order.id;
    engine.begin_submission(order).unwrap();
    engine.record_fill(fill_for(id, 40 * U, 510_000)).unwrap();
    assert_eq!(engine.get_position("0x123abc"), -40 * U);
}

#[test]
fn engine_submission_path() {
    let mut engine = engine_with_limit(1000);
    let order = create_test_order();
    assert!(engine.check_submission(&order).is_ok());
    let id = engine.begin_submission(order).unwrap();
    assert_eq!(engine.get_order(&id).unwrap().status, OrderStatus::Submitting);
    let ack = OrderAck { order_id: id, venue_order_id: Some("v1".to_string()), status: OrderStatus::Working, timestamp: 0, message: None };
    engine.apply_order_ack(&ack).unwrap();
    assert_eq!(engine.get_active_orders().len(), 1);
    assert_eq!(engine.cached_status(&id).unwrap(), None);
    assert_eq!(engine.begin_cancel(&id).unwrap(), VenueId::new("polymarket"));
    assert_eq!(engine.get_order(&id).unwrap().status, OrderStatus::Cancelling);
    let cancel = CancelAck { order_id: id, venue_order_id: None, success: true, timestamp: 0, message: None };
    engine.apply_cancel_ack(&cancel).unwrap();
    assert_eq!(engine.cached_status(&id).unwrap(), Some(OrderStatus::Cancelled));
    assert!(matches!(engine.begin_cancel(&id), Err(ExecError::InvalidOrderState { .. })));
}

#[test]
fn engine_rejections() {
    let mut engine = engine_with_limit(1000);
    let too_big = order_with(1001 * U, Some(520_000), OrderType::Limit);
    assert!(matches!(engine.check_submission(&too_big), Err(ExecError::RiskRejected { .. })));
    let unpriced = order_with(10 * U, None, OrderType::Limit);
    assert!(matches!(engine.check_submission(&unpriced), Err(ExecError::ValidationError(_))));
    let mut elsewhere = create_test_order();
    elsewhere.venue = VenueId::new("binance");
    assert!(matches!(engine.check_submission(&elsewhere), Err(ExecError::VenueNotSupported(v)) if v == "binance"));
    engine.risk_engine_mut().unwrap().trigger_kill_switch();
    match engine.check_submission(&create_test_order()) {
        Err(ExecError::RiskRejected { policies }) => assert_eq!(policies, vec!["KillSwitch (active)".to_string()]),
        other => panic!("unexpected {:?}", other),
    }
}

#[test]
fn engine_position_limit_sees_ledger() {
    let mut engine = engine_with_limit(1000);
    let order = create_test_order();
    let id = order.id;
    engine.begin_submission(order).unwrap();
    engine.record_fill(fill_for(id, 100 * U, 510_000)).unwrap();
    let next = order_with(950 * U, Some(520_000), OrderType::Limit);
    match engine.check_submission(&next) {
        Err(ExecError::RiskRejected { policies }) => {
            assert_eq!(policies, vec!["PositionLimit: new position 1050.00 exceeds max 1000.00".to_string()])
        }
        other => panic!("unexpected {:?}", other),
    }
}

#[test]
fn test_status_conversion() {
    assert_eq!(from_polymarket_status(&"LIVE".to_string()), OrderStatus::Working);
    assert_eq!(from_polymarket_status(&"FILLED".to_string()), OrderStatus::Filled);
    assert_eq!(from_polymarket_status(&"CANCELLED".to_string()), OrderStatus::Cancelled);
    assert_eq!(from_polymarket_status(&"weird".to_string()), OrderStatus::Rejected);
}

#[test]
fn test_order_conversion() {
    let pm_order = to_polymarket_order(&create_test_order());
    assert!(pm_order.is_ok());
    let pm_order = pm_order.unwrap();
    assert_eq!(pm_order.market, "0x123abc");
    assert_eq!(pm_order.side, "BUY");
    assert_eq!(pm_order.size, "100");
    assert_eq!(pm_order.price, Some("0.52".to_string()));
    assert_eq!(pm_order.order_type, "GTC");
}

#[test]
fn post_only_is_refused_by_venue_format() {
    let r = to_polymarket_order(&order_with(U, Some(500_000), OrderType::PostOnly));
    assert!(matches!(r, Err(ExecError::ConfigError(_))));
}

#[test]
fn signing() {
    assert_eq!(signing_message(1700000000, "POST", "/order", "{}"), "1700000000POST/order{}");
    assert!(matches!(sign_request(&None, 1, "GET", "/", ""), Err(ExecError::AuthenticationError(_))));
    let sig = sign_request(&Some("key".to_string()), 1, "GET", "/", "").unwrap();
    // HMAC-SHA256("key", "1GET/") in lowercase hex.
    assert_eq!(sig, "0dd4b6274c4101282a0d4174033e80c401e89edce3c7e6d2cd8c41e2eb9c6e5d");
    assert_eq!(sig.len(), 64);
    assert!(sig.chars().all(|c| c.is_ascii_hexdigit() && !c.is_ascii_uppercase()));
    assert_ne!(sig, "1GET/");
    let again = sign_request(&Some("key".to_string()), 1, "GET", "/", "").unwrap();
    assert_eq!(sig, again);
    let other = sign_request(&Some("other".to_string()), 1, "GET", "/", "").unwrap();
    assert_ne!(sig, other);
}

#[test]
fn test_execution_engine_creation() {
    let engine = ExecutionEngine::new(ExecutionEngineConfig::default());
    assert!(engine.get_active_orders().is_empty());
    assert!(engine.get_all_positions().is_empty());
    assert_eq!(engine.order_tracker().count(), 0);
    let mut order = create_test_order();
    order.venue = VenueId::new("nowhere");
    assert!(matches!(engine.check_submission(&order), Err(ExecError::VenueNotSupported(_))));
}

#[test]
fn test_venue_config_builder() {
    let config = ag_botkit::venue::VenueConfig::new(VenueId::new("polymarket"), "https://clob.polymarket.com".to_string())
        .with_credentials("api_key".to_string(), "api_secret".to_string())
        .with_ws_endpoint("wss://ws-subscriptions.polymarket.com".to_string())
        .with_extra("chain_id".to_string(), "137".to_string());
    assert_eq!(config.venue_id.as_str(), "polymarket");
    assert_eq!(config.api_endpoint, "https://clob.polymarket.com");
    assert!(config.api_key.is_some());
    assert!(config.api_secret.is_some());
    assert!(config.ws_endpoint.is_some());
    assert_eq!(config.extra.get("chain_id"), Some("137"));
}

#[test]
fn cancel_of_terminal_order_names_state() {
    let mut engine = ExecutionEngine::new(ExecutionEngineConfig::default());
    engine.register_venue(VenueId::new("polymarket"));
    let order = create_test_order();
    let id = order.id;
    engine.begin_submission(order).unwrap();
    engine.record_fill(fill_for(id, 100 * U, 510_000)).unwrap();
    match engine.begin_cancel(&id) {
        Err(ExecError::InvalidOrderState { order_id, current_state, operation }) => {
            assert_eq!(order_id, id);
            assert_eq!(current_state, "FILLED");
            assert_eq!(operation, "cancel");
        }
        other => panic!("unexpected {:?}", other),
    }
}

#[test]
fn validation_precedes_size_check() {
    let engine = ExecutionEngine::new(ExecutionEngineConfig::default());
    let r = engine.check_submission(&order_with(-10 * U, Some(520_000), OrderType::Limit));
    assert!(matches!(r, Err(ExecError::ValidationError(m)) if m == "Order size below minimum"));
    let unchecked = ExecutionEngine::new(ExecutionEngineConfig { enable_risk_checks: false, enable_validation: false, enable_metrics: false });
    let r = unchecked.check_submission(&order_with(-10 * U, Some(520_000), OrderType::Limit));
    assert!(matches!(r, Err(ExecError::ValidationError(m)) if m == "Order size must be positive"));
}

#[test]
fn tracker_keeps_earlier_fills() {
    let mut tracker = OrderTracker::new();
    let order = create_test_order();
    let id = order.id;
    tracker.track_order(order).unwrap();
    tracker.record_fill(&id, fill_for(id, 50 * U, 510_000)).unwrap();
    tracker.record_fill(&id, fill_for(id, 50 * U, 530_000)).unwrap();
    let fills = tracker.get_fills(&id);
    assert_eq!(fills.len(), 2);
    assert_eq!((fills[0].price, fills[1].price), (510_000, 530_000));
}
