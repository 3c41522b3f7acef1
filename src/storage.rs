//! Persistence-side configuration, record enums and SQL text for the
//! time-series store.
use vstd::prelude::*;
use vstd::string::*;
use crate::decimal::{decimal_text, push_decimal};
use crate::text::{join, joined, lower_of, lowercase, string_eq};

verus! {

/// The duration of a number of milliseconds.
pub uninterp spec fn duration_of_millis(ms: int) -> std::time::Duration;

/// The duration of a number of seconds.
pub uninterp spec fn duration_of_secs(s: int) -> std::time::Duration;

/// Relies on `Duration::from_millis`.
#[verifier::external_body]
fn millis_duration(ms: u64) -> (r: std::time::Duration)
    ensures
        r == duration_of_millis(ms as int),
{
    std::time::Duration::from_millis(ms)
}

/// Relies on `Duration::from_secs`.
#[verifier::external_body]
fn secs_duration(s: u64) -> (r: std::time::Duration)
    ensures
        r == duration_of_secs(s as int),
{
    std::time::Duration::from_secs(s)
}

/// The RFC 3339 text of an instant given in milliseconds since the epoch.
pub uninterp spec fn rfc3339_of(ms: int) -> Seq<char>;

/// Relies on chrono's `DateTime::<Utc>::from_timestamp_millis` (none outside
/// chrono's range) and `to_rfc3339`: the text depends on the instant alone.
#[verifier::external_body]
fn rfc3339_millis(ms: i64) -> (r: Option<String>)
    ensures
        r is Some ==> r->0@ == rfc3339_of(ms as int),
{
    chrono::DateTime::<chrono::Utc>::from_timestamp_millis(ms).map(|t| t.to_rfc3339())
}

/// `$n`, the placeholder of the n-th query parameter.
pub open spec fn placeholder(n: nat) -> Seq<char> {
    "$"@ + decimal_text(n)
}

fn push_placeholder(s: &mut String, n: usize)
    ensures
        final(s)@ == old(s)@ + placeholder(n as nat),
{
    s.append("$");
    push_decimal(s, n as u128);
    assert(final(s)@ =~= old(s)@ + placeholder(n as nat)) by {
        reveal_strlit("$");
    }
}

/// Database connection settings.
#[derive(Debug, Clone)]
pub struct DatabaseConfig {
    pub host: String,
    pub port: u16,
    pub database: String,
    pub user: String,
    pub password: String,
    pub max_connections: usize,
    pub connection_timeout_sec: u64,
    pub use_tls: bool,
}

pub open spec fn connection_text(c: DatabaseConfig) -> Seq<char> {
    "host="@ + c.host@ + " port="@ + decimal_text(c.port as nat) + " dbname="@ + c.database@
        + " user="@ + c.user@ + " password="@ + c.password@ + " connect_timeout="@ + decimal_text(
        c.connection_timeout_sec as nat,
    )
}

impl DatabaseConfig {
    /// The PostgreSQL key-value connection string.
    pub fn connection_string(&self) -> (r: String)
        ensures
            r@ == connection_text(*self),
    {
        let mut s = String::from_str("host=");
        s.append(self.host.as_str());
        s.append(" port=");
        push_decimal(&mut s, self.port as u128);
        s.append(" dbname=");
        s.append(self.database.as_str());
        s.append(" user=");
        s.append(self.user.as_str());
        s.append(" password=");
        s.append(self.password.as_str());
        s.append(" connect_timeout=");
        push_decimal(&mut s, self.connection_timeout_sec as u128);
        assert(s@ =~= connection_text(*self));
        s
    }
}

/// Batching of metric writes.
#[derive(Debug, Clone, Copy, PartialEq, Eq, Structural)]
pub struct IngestionConfig {
    pub batch_size: usize,
    pub flush_interval_ms: u64,
    pub max_buffer_size: usize,
}

impl IngestionConfig {
    pub fn flush_interval(&self) -> (r: std::time::Duration)
        ensures
            r == duration_of_millis(self.flush_interval_ms as int),
    {
        millis_duration(self.flush_interval_ms)
    }
}

/// How long data is kept, in days.
#[derive(Debug, Clone, Copy, PartialEq, Eq, Structural)]
pub struct RetentionConfig {
    pub metrics_retention_days: u32,
    pub execution_retention_days: u32,
    pub compression_after_days: u32,
}

/// Query limits and caching.
#[derive(Debug, Clone, Copy, PartialEq, Eq, Structural)]
pub struct QueryConfig {
    pub max_results: usize,
    pub cache_ttl_sec: u64,
    pub enable_cache: bool,
}

impl QueryConfig {
    pub fn cache_ttl(&self) -> (r: std::time::Duration)
        ensures
            r == duration_of_secs(self.cache_ttl_sec as int),
    {
        secs_duration(self.cache_ttl_sec)
    }
}

/// Everything the storage engine is configured with.
#[derive(Debug, Clone)]
pub struct StorageConfig {
    pub database: DatabaseConfig,
    pub ingestion: IngestionConfig,
    pub retention: RetentionConfig,
    pub query: QueryConfig,
}

pub fn default_max_connections() -> (r: usize)
    ensures
        r == 10,
{
    10
}

pub fn default_connection_timeout_sec() -> (r: u64)
    ensures
        r == 5,
{
    5
}

pub fn default_batch_size() -> (r: usize)
    ensures
        r == 1000,
{
    1000
}

pub fn default_flush_interval_ms() -> (r: u64)
    ensures
        r == 100,
{
    100
}

pub fn default_max_buffer_size() -> (r: usize)
    ensures
        r == 10000,
{
    10000
}

pub fn default_metrics_retention_days() -> (r: u32)
    ensures
        r == 90,
{
    90
}

pub fn default_execution_retention_days() -> (r: u32)
    ensures
        r == 365,
{
    365
}

pub fn default_compression_after_days() -> (r: u32)
    ensures
        r == 7,
{
    7
}

pub fn default_max_results() -> (r: usize)
    ensures
        r == 10000,
{
    10000
}

pub fn default_cache_ttl_sec() -> (r: u64)
    ensures
        r == 60,
{
    60
}

pub fn default_enable_cache() -> (r: bool)
    ensures
        r,
{
    true
}

impl Default for StorageConfig {
    /// A local database `ag_botkit` as `postgres`, with the default limits.
    fn default() -> (r: StorageConfig)
        ensures
            r.database.host@ == "localhost"@,
            r.database.port == 5432,
            r.database.database@ == "ag_botkit"@,
            r.database.user@ == "postgres"@,
            r.database.password@ == "postgres"@,
            r.database.max_connections == 10,
            r.database.connection_timeout_sec == 5,
            !r.database.use_tls,
            r.ingestion == (IngestionConfig { batch_size: 1000, flush_interval_ms: 100, max_buffer_size: 10000 }),
            r.retention == (RetentionConfig {
                metrics_retention_days: 90,
                execution_retention_days: 365,
                compression_after_days: 7,
            }),
            r.query == (QueryConfig { max_results: 10000, cache_ttl_sec: 60, enable_cache: true }),
    {
        StorageConfig {
            database: DatabaseConfig {
                host: String::from_str("localhost"),
                port: 5432,
                database: String::from_str("ag_botkit"),
                user: String::from_str("postgres"),
                password: String::from_str("postgres"),
                max_connections: default_max_connections(),
                connection_timeout_sec: default_connection_timeout_sec(),
                use_tls: false,
            },
            ingestion: IngestionConfig {
                batch_size: default_batch_size(),
                flush_interval_ms: default_flush_interval_ms(),
                max_buffer_size: default_max_buffer_size(),
            },
            retention: RetentionConfig {
                metrics_retention_days: default_metrics_retention_days(),
                execution_retention_days: default_execution_retention_days(),
                compression_after_days: default_compression_after_days(),
            },
            query: QueryConfig {
                max_results: default_max_results(),
                cache_ttl_sec: default_cache_ttl_sec(),
                enable_cache: default_enable_cache(),
            },
        }
    }
}

/// Errors of the storage layer.
#[derive(Debug, Clone)]
pub enum StorageError {
    ConnectionError(String),
    QueryError(String),
    PoolError(String),
    ConfigError(String),
    SerializationError(String),
    InvalidParameters(String),
    NotFound(String),
    SchemaError(String),
    RetentionError(String),
    Internal(String),
}

/// Sizes (bytes) and row counts of the stored tables.
#[derive(Debug, Clone, Copy, PartialEq, Eq, Structural)]
pub struct StorageStats {
    pub metrics_size_bytes: i64,
    pub orders_size_bytes: i64,
    pub fills_size_bytes: i64,
    pub positions_size_bytes: i64,
    pub total_size_bytes: i64,
    pub metrics_count: i64,
    pub orders_count: i64,
    pub fills_count: i64,
    pub positions_count: i64,
}

/// Occupancy of the connection pool.
#[derive(Debug, Clone, Copy, PartialEq, Eq, Structural)]
pub struct PoolStatus {
    pub size: usize,
    pub available: usize,
    pub waiting: usize,
    pub max_size: usize,
}

/// Side of a stored order.
#[derive(Debug, Clone, Copy, PartialEq, Eq, Structural)]
pub enum Side {
    Buy,
    Sell,
}

/// Type of a stored order.
#[derive(Debug, Clone, Copy, PartialEq, Eq, Structural)]
pub enum OrderType {
    Limit,
    Market,
    StopLimit,
    StopMarket,
}

/// Status of a stored order.
#[derive(Debug, Clone, Copy, PartialEq, Eq, Structural)]
pub enum OrderStatus {
    Open,
    Partial,
    Filled,
    Cancelled,
    Rejected,
}

pub open spec fn side_named(l: Seq<char>) -> Side {
    if l == "sell"@ { Side::Sell } else { Side::Buy }
}

pub open spec fn order_type_named(l: Seq<char>) -> OrderType {
    if l == "market"@ {
        OrderType::Market
    } else if l == "stop_limit"@ {
        OrderType::StopLimit
    } else if l == "stop_market"@ {
        OrderType::StopMarket
    } else {
        OrderType::Limit
    }
}

pub open spec fn order_status_named(l: Seq<char>) -> OrderStatus {
    if l == "partial"@ {
        OrderStatus::Partial
    } else if l == "filled"@ {
        OrderStatus::Filled
    } else if l == "cancelled"@ {
        OrderStatus::Cancelled
    } else if l == "rejected"@ {
        OrderStatus::Rejected
    } else {
        OrderStatus::Open
    }
}

/// The side named by lowercase text; anything unknown reads as a buy.
pub fn side_from_lowercase(l: &String) -> (r: Side)
    ensures
        r == side_named(l@),
{
    if string_eq(l, "sell") { Side::Sell } else { Side::Buy }
}

/// The order type named by lowercase text; anything unknown reads as limit.
pub fn order_type_from_lowercase(l: &String) -> (r: OrderType)
    ensures
        r == order_type_named(l@),
{
    if string_eq(l, "market") {
        OrderType::Market
    } else if string_eq(l, "stop_limit") {
        OrderType::StopLimit
    } else if string_eq(l, "stop_market") {
        OrderType::StopMarket
    } else {
        OrderType::Limit
    }
}

/// The status named by lowercase text; anything unknown reads as open.
pub fn order_status_from_lowercase(l: &String) -> (r: OrderStatus)
    ensures
        r == order_status_named(l@),
{
    if string_eq(l, "partial") {
        OrderStatus::Partial
    } else if string_eq(l, "filled") {
        OrderStatus::Filled
    } else if string_eq(l, "cancelled") {
        OrderStatus::Cancelled
    } else if string_eq(l, "rejected") {
        OrderStatus::Rejected
    } else {
        OrderStatus::Open
    }
}

/// Reads a side, ignoring case.
pub fn parse_side(s: &str) -> (r: Side)
    ensures
        r == side_named(lower_of(s@)),
{
    side_from_lowercase(&lowercase(s))
}

/// Reads an order type, ignoring case.
pub fn parse_order_type(s: &str) -> (r: OrderType)
    ensures
        r == order_type_named(lower_of(s@)),
{
    order_type_from_lowercase(&lowercase(s))
}

/// Reads an order status, ignoring case.
pub fn parse_order_status(s: &str) -> (r: OrderStatus)
    ensures
        r == order_status_named(lower_of(s@)),
{
    order_status_from_lowercase(&lowercase(s))
}

/// Statistic computed over a metric's values.
#[derive(Debug, Clone, Copy, PartialEq, Eq, Structural)]
pub enum Aggregation {
    Avg,
    Min,
    Max,
    Sum,
    Count,
    Median,
    P95,
    P99,
    StdDev,
}

impl Aggregation {
    /// The SQL aggregate that computes it.
    pub fn as_sql(&self) -> (r: &'static str)
        ensures
            r@ == match *self {
                Aggregation::Avg => "AVG"@,
                Aggregation::Min => "MIN"@,
                Aggregation::Max => "MAX"@,
                Aggregation::Sum => "SUM"@,
                Aggregation::Count => "COUNT"@,
                Aggregation::Median => "PERCENTILE_CONT(0.5) WITHIN GROUP (ORDER BY value)"@,
                Aggregation::P95 => "PERCENTILE_CONT(0.95) WITHIN GROUP (ORDER BY value)"@,
                Aggregation::P99 => "PERCENTILE_CONT(0.99) WITHIN GROUP (ORDER BY value)"@,
                Aggregation::StdDev => "STDDEV"@,
            },
    {
        match self {
            Aggregation::Avg => "AVG",
            Aggregation::Min => "MIN",
            Aggregation::Max => "MAX",
            Aggregation::Sum => "SUM",
            Aggregation::Count => "COUNT",
            Aggregation::Median => "PERCENTILE_CONT(0.5) WITHIN GROUP (ORDER BY value)",
            Aggregation::P95 => "PERCENTILE_CONT(0.95) WITHIN GROUP (ORDER BY value)",
            Aggregation::P99 => "PERCENTILE_CONT(0.99) WITHIN GROUP (ORDER BY value)",
            Aggregation::StdDev => "STDDEV",
        }
    }
}

pub open spec fn views(v: Seq<String>) -> Seq<Seq<char>> {
    v.map_values(|s: String| s@)
}

fn copy_strings(v: &Vec<String>) -> (r: Vec<String>)
    ensures
        r@ == v@,
{
    let mut out: Vec<String> = Vec::new();
    let mut i: usize = 0;
    while i < v.len()
        invariant
            i <= v@.len(),
            out@ == v@.subrange(0, i as int),
        decreases v.len() - i,
    {
        out.push(v[i].clone());
        assert(out@ =~= v@.subrange(0, i + 1));
        i += 1;
    }
    assert(v@.subrange(0, v@.len() as int) =~= v@);
    out
}

/// Builds a time-bucketed statistics query with positional parameters.
pub struct AggregationQueryBuilder {
    table: String,
    time_column: String,
    bucket_interval: String,
    group_by: Vec<String>,
    conditions: Vec<String>,
    params: Vec<String>,
}

impl AggregationQueryBuilder {
    pub closed spec fn table_name(&self) -> Seq<char> {
        self.table@
    }

    pub closed spec fn time_col(&self) -> Seq<char> {
        self.time_column@
    }

    pub closed spec fn interval(&self) -> Seq<char> {
        self.bucket_interval@
    }

    pub closed spec fn group_cols(&self) -> Seq<Seq<char>> {
        views(self.group_by@)
    }

    pub closed spec fn conds(&self) -> Seq<Seq<char>> {
        views(self.conditions@)
    }

    pub closed spec fn param_values(&self) -> Seq<Seq<char>> {
        views(self.params@)
    }

    /// The SELECT list of the statistics query.
    pub open spec fn select_list(&self, value_col: Seq<char>) -> Seq<Seq<char>> {
        seq![
            "time_bucket('"@ + self.interval() + "', "@ + self.time_col() + ") AS bucket"@,
            "AVG("@ + value_col + ") AS avg_value"@,
            "MIN("@ + value_col + ") AS min_value"@,
            "MAX("@ + value_col + ") AS max_value"@,
            "COUNT(*) AS count"@,
        ] + self.group_cols()
    }

    /// The statistics query text.
    pub open spec fn stats_text(&self, value_col: Seq<char>) -> Seq<char> {
        let where_part = if self.conds().len() == 0 {
            Seq::<char>::empty()
        } else {
            " WHERE "@ + joined(self.conds(), " AND "@)
        };
        "SELECT "@ + joined(self.select_list(value_col), ", "@) + " FROM "@ + self.table_name()
            + where_part + " GROUP BY "@ + joined(seq!["bucket"@] + self.group_cols(), ", "@)
            + " ORDER BY bucket DESC"@
    }

    /// A builder over `table` with buckets of `bucket_interval` on column
    /// `timestamp`, and no grouping or conditions.
    pub fn new(table: &str, bucket_interval: &str) -> (r: AggregationQueryBuilder)
        ensures
            r.table_name() == table@,
            r.interval() == bucket_interval@,
            r.time_col() == "timestamp"@,
            r.group_cols().len() == 0,
            r.conds().len() == 0,
            r.param_values().len() == 0,
    {
        AggregationQueryBuilder {
            table: String::from_str(table),
            time_column: String::from_str("timestamp"),
            bucket_interval: String::from_str(bucket_interval),
            group_by: Vec::new(),
            conditions: Vec::new(),
            params: Vec::new(),
        }
    }

    /// Buckets on `column` instead.
    pub fn time_column(self, column: &str) -> (r: AggregationQueryBuilder)
        ensures
            r.time_col() == column@,
            r.table_name() == self.table_name(),
            r.interval() == self.interval(),
            r.group_cols() == self.group_cols(),
            r.conds() == self.conds(),
            r.param_values() == self.param_values(),
    {
        let mut b = self;
        b.time_column = String::from_str(column);
        b
    }

    /// Adds `<time column> >= $n AND <time column> <= $n+1` with the two
    /// instants (milliseconds since the epoch) as RFC 3339 parameters; an
    /// instant that has no calendar date is refused.
    pub fn time_range(self, start_ms: i64, end_ms: i64) -> (r: Result<AggregationQueryBuilder, StorageError>)
        requires
            self.param_values().len() + 2 <= usize::MAX,
        ensures
            r is Ok ==> ({
                let b = r->Ok_0;
                let k = self.param_values().len();
                &&& b.conds() == self.conds().push(
                    self.time_col() + " >= "@ + placeholder((k + 1) as nat) + " AND "@ + self.time_col() + " <= "@ + placeholder((k + 2) as nat),
                )
                &&& b.param_values() == self.param_values().push(rfc3339_of(start_ms as int)).push(rfc3339_of(end_ms as int))
                &&& b.group_cols() == self.group_cols() && b.time_col() == self.time_col()
                &&& b.table_name() == self.table_name() && b.interval() == self.interval()
            }),
            r is Err ==> r->Err_0 is InvalidParameters,
    {
        let (start, end) = match (rfc3339_millis(start_ms), rfc3339_millis(end_ms)) {
            (Some(a), Some(b)) => (a, b),
            _ => {
                return Err(StorageError::InvalidParameters(String::from_str("Timestamp out of range")));
            },
        };
        let mut b = self;
        let k = b.params.len();
        let mut cond = b.time_column.clone();
        cond.append(" >= ");
        push_placeholder(&mut cond, k + 1);
        cond.append(" AND ");
        cond.append(b.time_column.as_str());
        cond.append(" <= ");
        push_placeholder(&mut cond, k + 2);
        let ghost c0 = b.conditions@;
        let ghost p0 = b.params@;
        b.conditions.push(cond);
        b.params.push(start);
        b.params.push(end);
        assert(views(b.conditions@) =~= views(c0).push(cond@));
        assert(views(b.params@) =~= views(p0).push(rfc3339_of(start_ms as int)).push(rfc3339_of(end_ms as int)));
        assert(cond@ =~= self.time_col() + " >= "@ + placeholder((k + 1) as nat) + " AND "@ + self.time_col() + " <= "@ + placeholder((k + 2) as nat));
        Ok(b)
    }

    /// Also groups by `column`.
    pub fn group_by(self, column: &str) -> (r: AggregationQueryBuilder)
        ensures
            r.group_cols() == self.group_cols().push(column@),
            r.time_col() == self.time_col(),
            r.table_name() == self.table_name(),
            r.interval() == self.interval(),
            r.conds() == self.conds(),
            r.param_values() == self.param_values(),
    {
        let mut b = self;
        b.group_by.push(String::from_str(column));
        assert(views(b.group_by@) =~= views(self.group_by@).push(column@));
        b
    }

    /// Adds the condition `column = $n`, with `value` as the n-th parameter.
    pub fn where_eq(self, column: &str, value: &str) -> (r: AggregationQueryBuilder)
        requires
            self.param_values().len() < usize::MAX,
        ensures
            r.conds() == self.conds().push(column@ + " = $"@ + decimal_text((self.param_values().len() + 1) as nat)),
            r.param_values() == self.param_values().push(value@),
            r.group_cols() == self.group_cols(),
            r.time_col() == self.time_col(),
            r.table_name() == self.table_name(),
            r.interval() == self.interval(),
    {
        let mut b = self;
        let mut cond = String::from_str(column);
        cond.append(" = $");
        push_decimal(&mut cond, (b.params.len() + 1) as u128);
        assert(cond@ =~= column@ + " = $"@ + decimal_text((self.param_values().len() + 1) as nat));
        b.conditions.push(cond);
        b.params.push(String::from_str(value));
        assert(views(b.conditions@) =~= views(self.conditions@).push(cond@));
        assert(views(b.params@) =~= views(self.params@).push(value@));
        b
    }

    /// The statistics query over `value_column` and its parameters.
    pub fn build_stats(&self, value_column: &str) -> (r: (String, Vec<String>))
        ensures
            r.0@ == self.stats_text(value_column@),
            views(r.1@) == self.param_values(),
    {
        let mut select: Vec<String> = Vec::new();
        let mut bucket = String::from_str("time_bucket('");
        bucket.append(self.bucket_interval.as_str());
        bucket.append("', ");
        bucket.append(self.time_column.as_str());
        bucket.append(") AS bucket");
        select.push(bucket);
        let mut avg = String::from_str("AVG(");
        avg.append(value_column);
        avg.append(") AS avg_value");
        select.push(avg);
        let mut min = String::from_str("MIN(");
        min.append(value_column);
        min.append(") AS min_value");
        select.push(min);
        let mut max = String::from_str("MAX(");
        max.append(value_column);
        max.append(") AS max_value");
        select.push(max);
        select.push(String::from_str("COUNT(*) AS count"));
        let mut group: Vec<String> = Vec::new();
        group.push(String::from_str("bucket"));
        let ghost head = views(select@);
        let mut i: usize = 0;
        while i < self.group_by.len()
            invariant
                i <= self.group_by@.len(),
                head.len() == 5,
                views(select@) == head + views(self.group_by@).subrange(0, i as int),
                views(group@) == seq!["bucket"@] + views(self.group_by@).subrange(0, i as int),
            decreases self.group_by.len() - i,
        {
            let ghost s0 = select@;
            let ghost g0 = group@;
            let col = self.group_by[i].clone();
            let col2 = self.group_by[i].clone();
            select.push(col);
            group.push(col2);
            assert(select@ == s0.push(self.group_by@[i as int]));
            assert(views(select@) =~= views(s0).push(self.group_by@[i as int]@));
            assert(views(group@) =~= views(g0).push(self.group_by@[i as int]@));
            assert(views(self.group_by@).subrange(0, i + 1) =~= views(self.group_by@).subrange(0, i as int).push(self.group_by@[i as int]@));
            assert(views(select@) =~= head + views(self.group_by@).subrange(0, i + 1));
            assert(views(group@) =~= seq!["bucket"@] + views(self.group_by@).subrange(0, i + 1));
            i += 1;
        }
        assert(views(self.group_by@).subrange(0, self.group_by@.len() as int) =~= views(self.group_by@));
        assert(views(select@) =~= self.select_list(value_column@));
        let mut query = String::from_str("SELECT ");
        let list = join(&select, ", ");
        query.append(list.as_str());
        query.append(" FROM ");
        query.append(self.table.as_str());
        let ghost before_where = query@;
        if self.conditions.len() > 0 {
            query.append(" WHERE ");
            let conds = join(&self.conditions, " AND ");
            query.append(conds.as_str());
        }
        query.append(" GROUP BY ");
        let groups = join(&group, ", ");
        query.append(groups.as_str());
        query.append(" ORDER BY bucket DESC");
        assert(query@ =~= self.stats_text(value_column@));
        (query, copy_strings(&self.params))
    }
}

/// Builds SELECT, COUNT and DELETE statements over one table with
/// positional parameters.
pub struct QueryBuilder {
    table: String,
    conditions: Vec<String>,
    params: Vec<String>,
    order_by: Option<String>,
    limit: Option<usize>,
}

/// ` WHERE c1 AND c2 ...`, or nothing without conditions.
pub open spec fn where_text(conds: Seq<Seq<char>>) -> Seq<char> {
    if conds.len() == 0 { Seq::empty() } else { " WHERE "@ + joined(conds, " AND "@) }
}

/// `$k+1, $k+2, ...` for `n` parameters after the first `k`.
pub open spec fn placeholders(k: nat, n: nat) -> Seq<Seq<char>>
    decreases n,
{
    if n == 0 { Seq::empty() } else { placeholders(k, (n - 1) as nat).push(placeholder(k + n)) }
}

impl QueryBuilder {
    pub closed spec fn table_name(&self) -> Seq<char> {
        self.table@
    }

    pub closed spec fn conds(&self) -> Seq<Seq<char>> {
        views(self.conditions@)
    }

    pub closed spec fn param_values(&self) -> Seq<Seq<char>> {
        views(self.params@)
    }

    pub closed spec fn order(&self) -> Option<Seq<char>> {
        match self.order_by {
            Some(o) => Some(o@),
            None => None,
        }
    }

    pub closed spec fn row_limit(&self) -> Option<usize> {
        self.limit
    }

    /// The SELECT statement over `cols` (all columns when empty).
    pub open spec fn select_text(&self, cols: Seq<Seq<char>>) -> Seq<char> {
        let c = if cols.len() == 0 { "*"@ } else { joined(cols, ", "@) };
        let order = match self.order() { Some(o) => " ORDER BY "@ + o, None => Seq::<char>::empty() };
        let lim = match self.row_limit() { Some(l) => " LIMIT "@ + decimal_text(l as nat), None => Seq::<char>::empty() };
        "SELECT "@ + c + " FROM "@ + self.table_name() + where_text(self.conds()) + order + lim
    }

    pub fn new(table: &str) -> (r: QueryBuilder)
        ensures
            r.table_name() == table@,
            r.conds().len() == 0 && r.param_values().len() == 0,
            r.order() is None && r.row_limit() is None,
    {
        QueryBuilder { table: String::from_str(table), conditions: Vec::new(), params: Vec::new(), order_by: None, limit: None }
    }

    fn add(self, cond: String, value: String) -> (r: QueryBuilder)
        ensures
            r.conds() == self.conds().push(cond@),
            r.param_values() == self.param_values().push(value@),
            r.table_name() == self.table_name() && r.order() == self.order() && r.row_limit() == self.row_limit(),
    {
        let mut b = self;
        b.conditions.push(cond);
        b.params.push(value);
        assert(views(b.conditions@) =~= views(self.conditions@).push(cond@));
        assert(views(b.params@) =~= views(self.params@).push(value@));
        b
    }

    /// Adds `timestamp >= $n AND timestamp <= $n+1` with the two instants
    /// (milliseconds since the epoch) as RFC 3339 parameters; an instant that
    /// has no calendar date is refused.
    pub fn time_range(self, start_ms: i64, end_ms: i64) -> (r: Result<QueryBuilder, StorageError>)
        requires
            self.param_values().len() + 2 <= usize::MAX,
        ensures
            r is Ok ==> ({
                let k = self.param_values().len();
                &&& r->Ok_0.conds() == self.conds().push(
                    "timestamp >= "@ + placeholder((k + 1) as nat) + " AND timestamp <= "@ + placeholder((k + 2) as nat),
                )
                &&& r->Ok_0.param_values() == self.param_values().push(rfc3339_of(start_ms as int)).push(rfc3339_of(end_ms as int))
                &&& r->Ok_0.table_name() == self.table_name() && r->Ok_0.order() == self.order() && r->Ok_0.row_limit() == self.row_limit()
            }),
            r is Err ==> r->Err_0 is InvalidParameters,
    {
        let (start, end) = match (rfc3339_millis(start_ms), rfc3339_millis(end_ms)) {
            (Some(a), Some(b)) => (a, b),
            _ => {
                return Err(StorageError::InvalidParameters(String::from_str("Timestamp out of range")));
            },
        };
        let k = self.params.len();
        let mut cond = String::from_str("timestamp >= ");
        push_placeholder(&mut cond, k + 1);
        cond.append(" AND timestamp <= ");
        push_placeholder(&mut cond, k + 2);
        assert(cond@ =~= "timestamp >= "@ + placeholder((k + 1) as nat) + " AND timestamp <= "@ + placeholder((k + 2) as nat));
        let mut b = self;
        let ghost c0 = b.conditions@;
        let ghost p0 = b.params@;
        b.conditions.push(cond);
        b.params.push(start);
        b.params.push(end);
        assert(views(b.conditions@) =~= views(c0).push(cond@));
        assert(views(b.params@) =~= views(p0).push(rfc3339_of(start_ms as int)).push(rfc3339_of(end_ms as int)));
        Ok(b)
    }

    /// Adds `column = $n` with `value` as its parameter.
    pub fn eq(self, column: &str, value: &str) -> (r: QueryBuilder)
        requires
            self.param_values().len() < usize::MAX,
        ensures
            r.conds() == self.conds().push(column@ + " = "@ + placeholder((self.param_values().len() + 1) as nat)),
            r.param_values() == self.param_values().push(value@),
            r.table_name() == self.table_name() && r.order() == self.order() && r.row_limit() == self.row_limit(),
    {
        let mut cond = String::from_str(column);
        cond.append(" = ");
        push_placeholder(&mut cond, self.params.len() + 1);
        assert(cond@ =~= column@ + " = "@ + placeholder((self.param_values().len() + 1) as nat));
        self.add(cond, String::from_str(value))
    }

    /// Adds `column LIKE $n` with `pattern` as its parameter.
    pub fn like(self, column: &str, pattern: &str) -> (r: QueryBuilder)
        requires
            self.param_values().len() < usize::MAX,
        ensures
            r.conds() == self.conds().push(column@ + " LIKE "@ + placeholder((self.param_values().len() + 1) as nat)),
            r.param_values() == self.param_values().push(pattern@),
            r.table_name() == self.table_name() && r.order() == self.order() && r.row_limit() == self.row_limit(),
    {
        let mut cond = String::from_str(column);
        cond.append(" LIKE ");
        push_placeholder(&mut cond, self.params.len() + 1);
        assert(cond@ =~= column@ + " LIKE "@ + placeholder((self.param_values().len() + 1) as nat));
        self.add(cond, String::from_str(pattern))
    }

    /// Adds `column IN ($n, ...)` with `values` as parameters; nothing for
    /// no values.
    pub fn in_list(self, column: &str, values: &Vec<String>) -> (r: QueryBuilder)
        requires
            self.param_values().len() + values@.len() <= usize::MAX,
        ensures
            values@.len() == 0 ==> r.conds() == self.conds() && r.param_values() == self.param_values(),
            values@.len() > 0 ==> r.conds() == self.conds().push(
                column@ + " IN ("@ + joined(placeholders(self.param_values().len(), values@.len()), ", "@) + ")"@,
            ) && r.param_values() == self.param_values() + views(values@),
            r.table_name() == self.table_name() && r.order() == self.order() && r.row_limit() == self.row_limit(),
    {
        if values.len() == 0 {
            return self;
        }
        let k = self.params.len();
        let mut marks: Vec<String> = Vec::new();
        let mut i: usize = 0;
        while i < values.len()
            invariant
                i <= values@.len(),
                k + values@.len() <= usize::MAX,
                views(marks@) == placeholders(k as nat, i as nat),
            decreases values.len() - i,
        {
            let mut m = String::new();
            push_placeholder(&mut m, k + i + 1);
            let ghost m0 = marks@;
            marks.push(m);
            assert(views(marks@) =~= views(m0).push(m@));
            assert(m@ =~= placeholder((k + i + 1) as nat));
            i += 1;
        }
        let mut cond = String::from_str(column);
        cond.append(" IN (");
        let list = join(&marks, ", ");
        cond.append(list.as_str());
        cond.append(")");
        let mut b = self;
        b.conditions.push(cond);
        let ghost p0 = b.params@;
        let mut j: usize = 0;
        while j < values.len()
            invariant
                j <= values@.len(),
                b.params@ == p0 + values@.subrange(0, j as int),
                b.table@ == self.table@,
                b.order_by == self.order_by,
                b.limit == self.limit,
                views(b.conditions@) == views(self.conditions@).push(cond@),
            decreases values.len() - j,
        {
            b.params.push(values[j].clone());
            assert(b.params@ =~= p0 + values@.subrange(0, j + 1));
            j += 1;
        }
        assert(values@.subrange(0, values@.len() as int) =~= values@);
        assert(views(b.params@) =~= views(p0) + views(values@));
        assert(cond@ =~= column@ + " IN ("@ + joined(placeholders(self.param_values().len(), values@.len()), ", "@) + ")"@);
        b
    }

    /// Adds `labels->>'key' = $n` for each (key, value) pair, in order.
    pub fn labels(self, labels: &Vec<(String, String)>) -> (r: QueryBuilder)
        requires
            self.param_values().len() + labels@.len() <= usize::MAX,
        ensures
            r.conds().len() == self.conds().len() + labels@.len(),
            r.conds().subrange(0, self.conds().len() as int) == self.conds(),
            forall|j: int| 0 <= j < labels@.len() ==> #[trigger] r.conds()[self.conds().len() + j]
                == "labels->>'"@ + labels@[j].0@ + "' = "@ + placeholder((self.param_values().len() + j + 1) as nat),
            r.param_values().len() == self.param_values().len() + labels@.len(),
            r.param_values().subrange(0, self.param_values().len() as int) == self.param_values(),
            forall|j: int| 0 <= j < labels@.len() ==> #[trigger] r.param_values()[self.param_values().len() + j] == labels@[j].1@,
            r.table_name() == self.table_name() && r.order() == self.order() && r.row_limit() == self.row_limit(),
    {
        let mut b = self;
        let mut j: usize = 0;
        while j < labels.len()
            invariant
                j <= labels@.len(),
                self.param_values().len() + labels@.len() <= usize::MAX,
                b.conds().len() == self.conds().len() + j,
                b.param_values().len() == self.param_values().len() + j,
                b.conds().subrange(0, self.conds().len() as int) == self.conds(),
                b.param_values().subrange(0, self.param_values().len() as int) == self.param_values(),
                forall|i: int| 0 <= i < j ==> #[trigger] b.conds()[self.conds().len() + i]
                    == "labels->>'"@ + labels@[i].0@ + "' = "@ + placeholder((self.param_values().len() + i + 1) as nat),
                forall|i: int| 0 <= i < j ==> #[trigger] b.param_values()[self.param_values().len() + i] == labels@[i].1@,
                b.table_name() == self.table_name() && b.order() == self.order() && b.row_limit() == self.row_limit(),
            decreases labels.len() - j,
        {
            let mut cond = String::from_str("labels->>'");
            cond.append(labels[j].0.as_str());
            cond.append("' = ");
            push_placeholder(&mut cond, b.params.len() + 1);
            assert(cond@ =~= "labels->>'"@ + labels@[j as int].0@ + "' = "@ + placeholder((self.param_values().len() + j + 1) as nat));
            let ghost b0 = b;
            b = b.add(cond, labels[j].1.clone());
            assert(b.conds().subrange(0, self.conds().len() as int) =~= b0.conds().subrange(0, self.conds().len() as int));
            assert(b.param_values().subrange(0, self.param_values().len() as int) =~= b0.param_values().subrange(0, self.param_values().len() as int));
            j += 1;
        }
        b
    }

    /// Adds `labels @> $n::jsonb` with `labels_json` as its parameter.
    pub fn labels_contains(self, labels_json: &str) -> (r: QueryBuilder)
        requires
            self.param_values().len() < usize::MAX,
        ensures
            r.conds() == self.conds().push("labels @> "@ + placeholder((self.param_values().len() + 1) as nat) + "::jsonb"@),
            r.param_values() == self.param_values().push(labels_json@),
            r.table_name() == self.table_name() && r.order() == self.order() && r.row_limit() == self.row_limit(),
    {
        let mut cond = String::from_str("labels @> ");
        push_placeholder(&mut cond, self.params.len() + 1);
        cond.append("::jsonb");
        assert(cond@ =~= "labels @> "@ + placeholder((self.param_values().len() + 1) as nat) + "::jsonb"@);
        self.add(cond, String::from_str(labels_json))
    }

    /// Orders by `column`, descending when `desc`.
    pub fn order_by(self, column: &str, desc: bool) -> (r: QueryBuilder)
        ensures
            r.order() == Some(column@ + if desc { " DESC"@ } else { " ASC"@ }),
            r.conds() == self.conds() && r.param_values() == self.param_values(),
            r.table_name() == self.table_name() && r.row_limit() == self.row_limit(),
    {
        let mut b = self;
        let mut o = String::from_str(column);
        o.append(if desc { " DESC" } else { " ASC" });
        b.order_by = Some(o);
        b
    }

    pub fn limit(self, limit: usize) -> (r: QueryBuilder)
        ensures
            r.row_limit() == Some(limit),
            r.conds() == self.conds() && r.param_values() == self.param_values(),
            r.table_name() == self.table_name() && r.order() == self.order(),
    {
        let mut b = self;
        b.limit = Some(limit);
        b
    }

    fn push_where(&self, q: &mut String)
        ensures
            final(q)@ == old(q)@ + where_text(self.conds()),
    {
        if self.conditions.len() > 0 {
            q.append(" WHERE ");
            let c = join(&self.conditions, " AND ");
            q.append(c.as_str());
        }
    }

    /// The SELECT statement over `columns` (all when empty) and its
    /// parameters.
    pub fn build_select(&self, columns: &Vec<String>) -> (r: (String, Vec<String>))
        ensures
            r.0@ == self.select_text(views(columns@)),
            views(r.1@) == self.param_values(),
    {
        let mut q = String::from_str("SELECT ");
        if columns.len() == 0 {
            q.append("*");
        } else {
            let c = join(columns, ", ");
            q.append(c.as_str());
        }
        q.append(" FROM ");
        q.append(self.table.as_str());
        self.push_where(&mut q);
        match &self.order_by {
            Some(o) => {
                q.append(" ORDER BY ");
                q.append(o.as_str());
            },
            None => {},
        }
        match self.limit {
            Some(l) => {
                q.append(" LIMIT ");
                push_decimal(&mut q, l as u128);
            },
            None => {},
        }
        assert(q@ =~= self.select_text(views(columns@)));
        (q, copy_strings(&self.params))
    }

    /// `SELECT COUNT(*) FROM table` with the conditions, and its parameters.
    pub fn build_count(&self) -> (r: (String, Vec<String>))
        ensures
            r.0@ == "SELECT COUNT(*) FROM "@ + self.table_name() + where_text(self.conds()),
            views(r.1@) == self.param_values(),
    {
        let mut q = String::from_str("SELECT COUNT(*) FROM ");
        q.append(self.table.as_str());
        self.push_where(&mut q);
        (q, copy_strings(&self.params))
    }

    /// `DELETE FROM table` with the conditions, and its parameters.
    pub fn build_delete(&self) -> (r: (String, Vec<String>))
        ensures
            r.0@ == "DELETE FROM "@ + self.table_name() + where_text(self.conds()),
            views(r.1@) == self.param_values(),
    {
        let mut q = String::from_str("DELETE FROM ");
        q.append(self.table.as_str());
        self.push_where(&mut q);
        (q, copy_strings(&self.params))
    }
}

} // verus!
