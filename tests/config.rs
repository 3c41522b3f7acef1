use ag_botkit::engine::ExecutionEngineConfig;
use ag_botkit::ratelimit::RateLimiterConfig;
use ag_botkit::storage::{
    parse_order_status, parse_order_type, parse_side, DatabaseConfig, OrderStatus, OrderType,
    RetentionConfig, Side, StorageConfig,
};

#[test]
fn test_rate_limiter_config() {
    let config = RateLimiterConfig::new(15, 30);
    assert_eq!(config.requests_per_second, 15);
    assert_eq!(config.burst_size, 30);

    let polymarket_config = RateLimiterConfig::polymarket_default();
    assert_eq!(polymarket_config.requests_per_second, 10);
    assert_eq!(polymarket_config.burst_size, 20);
}

#[test]
fn binance_defaults() {
    let c = RateLimiterConfig::binance_default();
    assert_eq!(c.requests_per_second, 20);
    assert_eq!(c.burst_size, 50);
    assert_eq!(RateLimiterConfig::default(), RateLimiterConfig::polymarket_default());
}

#[test]
fn test_config_default() {
    let config = ExecutionEngineConfig::default();
    assert!(config.enable_risk_checks);
    assert!(config.enable_validation);
    assert!(config.enable_metrics);
}

#[test]
fn test_scheduler_creation() {
    let _db_config = DatabaseConfig {
        host: "localhost".to_string(),
        port: 5432,
        database: "test".to_string(),
        user: "test".to_string(),
        password: "test".to_string(),
        max_connections: 5,
        connection_timeout_sec: 5,
        use_tls: false,
    };

    let retention_config = RetentionConfig {
        metrics_retention_days: 90,
        execution_retention_days: 365,
        compression_after_days: 7,
    };

    assert_eq!(retention_config.metrics_retention_days, 90);
}

#[test]
fn config_test_default_config() {
    let config = StorageConfig::default();
    assert_eq!(config.database.host, "localhost");
    assert_eq!(config.database.port, 5432);
    assert_eq!(config.ingestion.batch_size, 1000);
    assert_eq!(config.retention.metrics_retention_days, 90);
}

#[test]
fn lib_test_default_config() {
    let config = StorageConfig::default();
    assert_eq!(config.database.host, "localhost");
    assert_eq!(config.database.port, 5432);
}

#[test]
fn test_connection_string() {
    let config = DatabaseConfig {
        host: "db.example.com".to_string(),
        port: 5433,
        database: "testdb".to_string(),
        user: "testuser".to_string(),
        password: "testpass".to_string(),
        max_connections: 5,
        connection_timeout_sec: 10,
        use_tls: false,
    };

    let conn_str = config.connection_string();
    assert!(conn_str.contains("host=db.example.com"));
    assert!(conn_str.contains("port=5433"));
    assert!(conn_str.contains("dbname=testdb"));
}

#[test]
fn connection_string_exact() {
    let config = DatabaseConfig {
        host: "h".to_string(),
        port: 0,
        database: "d".to_string(),
        user: "u".to_string(),
        password: "p".to_string(),
        max_connections: 1,
        connection_timeout_sec: 120,
        use_tls: true,
    };
    assert_eq!(
        config.connection_string(),
        "host=h port=0 dbname=d user=u password=p connect_timeout=120"
    );
}

#[test]
fn durations_from_config() {
    let c = StorageConfig::default();
    assert_eq!(c.ingestion.flush_interval(), std::time::Duration::from_millis(100));
    assert_eq!(c.query.cache_ttl(), std::time::Duration::from_secs(60));
}

#[test]
fn test_parse_side() {
    assert_eq!(parse_side("buy"), Side::Buy);
    assert_eq!(parse_side("sell"), Side::Sell);
    assert_eq!(parse_side("BUY"), Side::Buy);
}

#[test]
fn parse_side_folds_case() {
    assert_eq!(parse_side("SeLL"), Side::Sell);
    assert_eq!(parse_side("anything"), Side::Buy);
}

#[test]
fn test_parse_order_type() {
    assert_eq!(parse_order_type("limit"), OrderType::Limit);
    assert_eq!(parse_order_type("market"), OrderType::Market);
}

#[test]
fn parse_order_type_all() {
    assert_eq!(parse_order_type("STOP_LIMIT"), OrderType::StopLimit);
    assert_eq!(parse_order_type("stop_market"), OrderType::StopMarket);
    assert_eq!(parse_order_type("other"), OrderType::Limit);
}

#[test]
fn test_parse_order_status() {
    assert_eq!(parse_order_status("open"), OrderStatus::Open);
    assert_eq!(parse_order_status("filled"), OrderStatus::Filled);
}

#[test]
fn parse_order_status_all() {
    assert_eq!(parse_order_status("Partial"), OrderStatus::Partial);
    assert_eq!(parse_order_status("CANCELLED"), OrderStatus::Cancelled);
    assert_eq!(parse_order_status("rejected"), OrderStatus::Rejected);
    assert_eq!(parse_order_status("?"), OrderStatus::Open);
}

use ag_botkit::storage::{AggregationQueryBuilder, Aggregation, QueryBuilder};

#[test]
fn test_query_builder_select() {
    let now: i64 = 1_700_000_000_000;
    let start = now - 3_600_000;
    let (query, params) = QueryBuilder::new("metrics")
        .time_range(start, now)
        .unwrap()
        .eq("metric_name", "test_metric")
        .order_by("timestamp", true)
        .limit(100)
        .build_select(&vec!["timestamp".to_string(), "value".to_string()]);
    assert!(query.contains("SELECT timestamp, value FROM metrics"));
    assert!(query.contains("WHERE"));
    assert!(query.contains("ORDER BY timestamp DESC"));
    assert!(query.contains("LIMIT 100"));
    assert_eq!(params.len(), 3);
    assert_eq!(
        query,
        "SELECT timestamp, value FROM metrics WHERE timestamp >= $1 AND timestamp <= $2 AND metric_name = $3 ORDER BY timestamp DESC LIMIT 100"
    );
    assert_eq!(params[0], "2023-11-14T21:13:20+00:00");
    assert_eq!(params[2], "test_metric");
}

#[test]
fn test_query_builder_labels() {
    let labels = vec![("venue".to_string(), "polymarket".to_string())];
    let (query, params) = QueryBuilder::new("metrics").labels(&labels).build_select(&vec!["*".to_string()]);
    assert!(query.contains("labels->>'venue' = $1"));
    assert_eq!(params.len(), 1);
    assert_eq!(params[0], "polymarket");
}

#[test]
fn query_builder_other_statements() {
    let b = QueryBuilder::new("fills")
        .in_list("venue", &vec!["a".to_string(), "b".to_string()])
        .like("market", "0x%")
        .labels_contains("{\"k\":\"v\"}");
    let (count, params) = b.build_count();
    assert_eq!(count, "SELECT COUNT(*) FROM fills WHERE venue IN ($1, $2) AND market LIKE $3 AND labels @> $4::jsonb");
    assert_eq!(params, vec!["a".to_string(), "b".to_string(), "0x%".to_string(), "{\"k\":\"v\"}".to_string()]);
    let (delete, _) = QueryBuilder::new("orders").build_delete();
    assert_eq!(delete, "DELETE FROM orders");
    let (all, _) = QueryBuilder::new("orders").in_list("x", &vec![]).order_by("id", false).build_select(&vec![]);
    assert_eq!(all, "SELECT * FROM orders ORDER BY id ASC");
}

#[test]
fn test_aggregation_builder() {
    let now: i64 = 1_700_000_000_000;
    let start = now - 86_400_000;
    let (query, params) = AggregationQueryBuilder::new("metrics", "1 hour")
        .time_range(start, now)
        .unwrap()
        .group_by("metric_name")
        .build_stats("value");
    assert!(query.contains("time_bucket('1 hour', timestamp)"));
    assert!(query.contains("AVG(value)"));
    assert!(query.contains("GROUP BY bucket, metric_name"));
    assert_eq!(params.len(), 2);
}

#[test]
fn aggregation_builder_exact_text() {
    let (query, params) = AggregationQueryBuilder::new("metrics", "5 minutes")
        .time_column("ts")
        .where_eq("metric_name", "lat")
        .build_stats("v");
    assert_eq!(
        query,
        "SELECT time_bucket('5 minutes', ts) AS bucket, AVG(v) AS avg_value, MIN(v) AS min_value, MAX(v) AS max_value, COUNT(*) AS count FROM metrics WHERE metric_name = $1 GROUP BY bucket ORDER BY bucket DESC"
    );
    assert_eq!(params, vec!["lat".to_string()]);
}

#[test]
fn out_of_range_instant_is_refused() {
    assert!(QueryBuilder::new("m").time_range(i64::MAX, i64::MAX).is_err());
}

#[test]
fn aggregation_sql() {
    assert_eq!(Aggregation::Avg.as_sql(), "AVG");
    assert_eq!(Aggregation::P95.as_sql(), "PERCENTILE_CONT(0.95) WITHIN GROUP (ORDER BY value)");
    assert_eq!(Aggregation::StdDev.as_sql(), "STDDEV");
}
