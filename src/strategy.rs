//! Strategy-facing value types: orders, fills, positions, ticks, parameters
//! and metrics. Prices and sizes are fixed-point units.
use vstd::prelude::*;
use vstd::string::*;
use crate::decimal::{abs, BPS_DENOM, SCALE};
use crate::text::string_eq;
use crate::order::clone_opt_string;

verus! {

#[derive(Debug, Clone, Copy, PartialEq, Eq, Structural)]
pub enum Side {
    Buy,
    Sell,
}

#[derive(Debug, Clone, Copy, PartialEq, Eq, Structural)]
pub enum OrderType {
    Market,
    Limit,
    Stop,
    StopLimit,
}

#[derive(Debug, Clone, Copy, PartialEq, Eq, Structural)]
pub enum TimeInForce {
    GTC,
    IOC,
    FOK,
    GTD,
}

#[derive(Debug, Clone, Copy, PartialEq, Eq, Structural)]
pub enum OrderStatus {
    Pending,
    Submitted,
    Acknowledged,
    PartiallyFilled,
    Filled,
    Cancelled,
    Rejected,
    Expired,
}

/// Errors a strategy sees.
#[derive(Debug, Clone)]
pub enum StrategyError {
    RiskRejected { policies: Vec<String> },
    ExecutionError(String),
    OrderNotFound(String),
    MarketNotFound(String),
    InvalidParameter(String),
    InitializationFailed(String),
    NotInitialized,
    ConfigError(String),
    InsufficientData(String),
    SignalError(String),
    BacktestError(String),
    Other(String),
}

/// An order as a strategy writes it.
#[derive(Debug)]
pub struct Order {
    /// Assigned on submission.
    pub id: Option<String>,
    pub venue: String,
    pub market: String,
    pub side: Side,
    pub order_type: OrderType,
    pub price: Option<i64>,
    pub size: i64,
    pub time_in_force: TimeInForce,
    pub client_order_id: Option<String>,
    pub timestamp: i64,
    pub status: OrderStatus,
}

impl Clone for Order {
    fn clone(&self) -> (r: Order)
        ensures
            r == *self,
    {
        Order {
            id: clone_opt_string(&self.id),
            venue: self.venue.clone(),
            market: self.market.clone(),
            side: self.side,
            order_type: self.order_type,
            price: self.price,
            size: self.size,
            time_in_force: self.time_in_force,
            client_order_id: clone_opt_string(&self.client_order_id),
            timestamp: self.timestamp,
            status: self.status,
        }
    }
}

/// An execution reported to a strategy.
#[derive(Debug)]
pub struct Fill {
    pub order_id: String,
    pub market: String,
    pub price: i64,
    pub size: i64,
    pub side: Side,
    pub fee: i64,
    pub timestamp: i64,
}

impl Clone for Fill {
    fn clone(&self) -> (r: Fill)
        ensures
            r == *self,
    {
        Fill {
            order_id: self.order_id.clone(),
            market: self.market.clone(),
            price: self.price,
            size: self.size,
            side: self.side,
            fee: self.fee,
            timestamp: self.timestamp,
        }
    }
}

/// `a / b` rounded toward zero, as integer division does.
pub open spec fn trunc_div(a: int, b: int) -> int {
    if b == 0 {
        0
    } else {
        let q = (abs(a) / abs(b)) as int;
        if (a < 0) != (b < 0) { -q } else { q }
    }
}

/// `a / b` rounded toward zero.
pub fn trunc_div_i128(a: i128, b: i128) -> (r: i128)
    requires
        b != 0,
        a > i128::MIN,
        b > i128::MIN,
    ensures
        r == trunc_div(a as int, b as int),
        abs(r as int) <= abs(a as int),
{
    let ua: u128 = if a < 0 { (-a) as u128 } else { a as u128 };
    let ub: u128 = if b < 0 { (-b) as u128 } else { b as u128 };
    let q = ua / ub;
    proof {
        assert(q <= ua) by (nonlinear_arith)
            requires q == ua / ub, ub >= 1;
    }
    if (a < 0) != (b < 0) {
        -(q as i128)
    } else {
        q as i128
    }
}

proof fn lemma_i64_product(a: int, b: int)
    requires
        -0x8000_0000_0000_0000 <= a <= 0x8000_0000_0000_0000,
        -0x8000_0000_0000_0000 <= b <= 0x8000_0000_0000_0000,
    ensures
        -0x4000_0000_0000_0000_0000_0000_0000_0000 <= a * b <= 0x4000_0000_0000_0000_0000_0000_0000_0000,
{
    assert(-0x4000_0000_0000_0000_0000_0000_0000_0000 <= a * b <= 0x4000_0000_0000_0000_0000_0000_0000_0000) by (nonlinear_arith)
        requires
            -0x8000_0000_0000_0000 <= a <= 0x8000_0000_0000_0000,
            -0x8000_0000_0000_0000 <= b <= 0x8000_0000_0000_0000;
}

proof fn lemma_wide_product(a: int, b: int)
    requires
        -0x8000_0000_0000_0000 <= a <= 0x8000_0000_0000_0000,
        -0xffff_ffff_ffff_ffff <= b <= 0xffff_ffff_ffff_ffff,
    ensures
        -0x7fff_ffff_ffff_ffff_8000_0000_0000_0000 <= a * b <= 0x7fff_ffff_ffff_ffff_8000_0000_0000_0000,
{
    assert(-0x7fff_ffff_ffff_ffff_8000_0000_0000_0000 <= a * b <= 0x7fff_ffff_ffff_ffff_8000_0000_0000_0000) by (nonlinear_arith)
        requires
            -0x8000_0000_0000_0000 <= a <= 0x8000_0000_0000_0000,
            -0xffff_ffff_ffff_ffff <= b <= 0xffff_ffff_ffff_ffff;
}

/// A position in one market.
#[derive(Debug)]
pub struct Position {
    pub market: String,
    /// Positive long, negative short.
    pub size: i64,
    /// Volume-weighted entry price: the cost basis over the size, rounded
    /// toward zero; zero when flat.
    pub entry_price: i64,
    /// Sum of size times price over the trades since the position was last
    /// flat (`SCALE * SCALE` units); zero when flat.
    pub cost_basis: i128,
    pub mark_price: i64,
    pub unrealized_pnl: i64,
    pub realized_pnl: i64,
    /// `|size| * mark_price`.
    pub value_usd: i64,
    pub timestamp: i64,
}

impl Clone for Position {
    fn clone(&self) -> (r: Position)
        ensures
            r == *self,
    {
        Position {
            market: self.market.clone(),
            size: self.size,
            entry_price: self.entry_price,
            cost_basis: self.cost_basis,
            mark_price: self.mark_price,
            unrealized_pnl: self.unrealized_pnl,
            realized_pnl: self.realized_pnl,
            value_usd: self.value_usd,
            timestamp: self.timestamp,
        }
    }
}

/// Size after adding `delta`.
pub open spec fn next_size(size: int, delta: int) -> int {
    size + delta
}

/// Cost basis after adding `delta` at `price`: it grows by `delta * price`,
/// and is zero once the position is flat.
pub open spec fn next_cost(size: int, cost: int, delta: int, price: int) -> int {
    if size + delta == 0 { 0 } else { cost + delta * price }
}

/// Entry price of `size` with cost basis `cost`: their ratio rounded toward
/// zero, zero when flat.
pub open spec fn entry_of(size: int, cost: int) -> int {
    if size != 0 { trunc_div(cost, size) } else { 0 }
}

/// Unrealized PnL of `size` entered at `entry` and marked at `price`.
pub open spec fn pnl_at(size: int, entry: int, price: int) -> int {
    if size != 0 {
        trunc_div(size * (price - entry), SCALE as int)
    } else {
        0
    }
}

/// Value of `size` at `price`.
pub open spec fn value_at(size: int, price: int) -> int {
    trunc_div(abs(size) * price, SCALE as int)
}

pub open spec fn fits(v: int) -> bool {
    i64::MIN <= v <= i64::MAX
}

pub open spec fn fits_wide(v: int) -> bool {
    i128::MIN < v <= i128::MAX
}

/// Whether the position update by `delta` at `price` stays representable.
pub open spec fn update_fits(size: int, cost: int, delta: int, price: int) -> bool {
    let n = next_size(size, delta);
    let c = next_cost(size, cost, delta, price);
    let e = entry_of(n, c);
    fits(n) && fits_wide(c) && fits(e) && fits(pnl_at(n, e, price)) && fits(value_at(n, price))
}

impl Position {
    /// A flat position in `market`.
    pub fn new(market: String) -> (r: Position)
        ensures
            r.market == market,
            r.size == 0 && r.entry_price == 0 && r.cost_basis == 0 && r.mark_price == 0,
            r.unrealized_pnl == 0 && r.realized_pnl == 0 && r.value_usd == 0,
    {
        Position {
            market,
            size: 0,
            entry_price: 0,
            cost_basis: 0,
            mark_price: 0,
            unrealized_pnl: 0,
            realized_pnl: 0,
            value_usd: 0,
            timestamp: crate::order::now_millis(),
        }
    }

    pub fn is_flat(&self) -> (r: bool)
        ensures
            r == (self.size == 0),
    {
        self.size == 0
    }

    pub fn is_long(&self) -> (r: bool)
        ensures
            r == (self.size > 0),
    {
        self.size > 0
    }

    pub fn is_short(&self) -> (r: bool)
        ensures
            r == (self.size < 0),
    {
        self.size < 0
    }

    /// Adds `delta` at `price`: the size moves by `delta`, the entry price is
    /// re-weighted by volume (zero when flat), the mark becomes `price`, and
    /// PnL and value are recomputed. Returns false, leaving the position as it
    /// was, when a result would not fit.
    pub fn apply(&mut self, delta: i64, price: i64) -> (r: bool)
        ensures
            r == update_fits(old(self).size as int, old(self).cost_basis as int, delta as int, price as int),
            !r ==> *final(self) == *old(self),
            r ==> final(self).size == next_size(old(self).size as int, delta as int),
            r ==> final(self).cost_basis == next_cost(old(self).size as int, old(self).cost_basis as int, delta as int, price as int),
            r ==> final(self).entry_price == entry_of(final(self).size as int, final(self).cost_basis as int),
            r ==> final(self).mark_price == price,
            r ==> final(self).unrealized_pnl == pnl_at(final(self).size as int, final(self).entry_price as int, price as int),
            r ==> final(self).value_usd == value_at(final(self).size as int, price as int),
            final(self).realized_pnl == old(self).realized_pnl,
            final(self).market == old(self).market,
    {
        let n: i128 = self.size as i128 + delta as i128;
        if n < i64::MIN as i128 || n > i64::MAX as i128 {
            return false;
        }
        let mut c: i128 = 0;
        let mut e: i128 = 0;
        if n != 0 {
            proof {
                lemma_i64_product(delta as int, price as int);
            }
            c = match self.cost_basis.checked_add(delta as i128 * price as i128) {
                Some(v) => v,
                None => {
                    return false;
                },
            };
            if c == i128::MIN {
                return false;
            }
            e = trunc_div_i128(c, n);
        }
        if e < i64::MIN as i128 || e > i64::MAX as i128 {
            return false;
        }
        let mut pnl: i128 = 0;
        if n != 0 {
            let diff = price as i128 - e;
            proof {
                lemma_wide_product(n as int, diff as int);
            }
            pnl = trunc_div_i128(n * diff, SCALE as i128);
        }
        if pnl < i64::MIN as i128 || pnl > i64::MAX as i128 {
            return false;
        }
        let an: i128 = if n < 0 { -n } else { n };
        proof {
            lemma_i64_product(an as int, price as int);
        }
        let v = trunc_div_i128(an * price as i128, SCALE as i128);
        if v < i64::MIN as i128 || v > i64::MAX as i128 {
            return false;
        }
        self.size = n as i64;
        self.cost_basis = c;
        self.entry_price = e as i64;
        self.mark_price = price;
        self.unrealized_pnl = pnl as i64;
        self.value_usd = v as i64;
        self.timestamp = crate::order::now_millis();
        true
    }
}

/// Net size and cost basis after applying `steps` (size change, price) in
/// turn to a position of `size` with cost basis `cost`.
pub open spec fn run_steps(size: int, cost: int, steps: Seq<(int, int)>) -> (int, int)
    decreases steps.len(),
{
    if steps.len() == 0 {
        (size, cost)
    } else {
        let (s, c) = run_steps(size, cost, steps.drop_last());
        (next_size(s, steps.last().0), next_cost(s, c, steps.last().0, steps.last().1))
    }
}

pub open spec fn total_delta(steps: Seq<(int, int)>) -> int
    decreases steps.len(),
{
    if steps.len() == 0 {
        0
    } else {
        total_delta(steps.drop_last()) + steps.last().0
    }
}

/// Sum of size times price over `steps`.
pub open spec fn total_notional(steps: Seq<(int, int)>) -> int
    decreases steps.len(),
{
    if steps.len() == 0 {
        0
    } else {
        total_notional(steps.drop_last()) + steps.last().0 * steps.last().1
    }
}

/// A position opened by any sequence of fills and then closed completely
/// (the size changes sum to zero) ends flat with a zero cost basis and a
/// zero entry price.
pub proof fn lemma_round_trip_ends_flat(steps: Seq<(int, int)>)
    requires
        steps.len() > 0,
        total_delta(steps) == 0,
    ensures
        run_steps(0, 0, steps) == (0int, 0int),
        entry_of(run_steps(0, 0, steps).0, run_steps(0, 0, steps).1) == 0,
{
    lemma_run_size(0, 0, steps);
}

proof fn lemma_run_size(size: int, cost: int, steps: Seq<(int, int)>)
    ensures
        run_steps(size, cost, steps).0 == size + total_delta(steps),
    decreases steps.len(),
{
    if steps.len() > 0 {
        lemma_run_size(size, cost, steps.drop_last());
    }
}

/// Volume-weighted entry price: after buys `(s_i, p_i)` from flat, the size
/// is the sum of the `s_i`, the cost basis the sum of the `s_i * p_i`, and
/// the entry price their ratio (rounded toward zero).
pub proof fn lemma_buys_are_volume_weighted(steps: Seq<(int, int)>)
    requires
        forall|i: int| 0 <= i < steps.len() ==> (#[trigger] steps[i]).0 > 0,
    ensures
        run_steps(0, 0, steps) == (total_delta(steps), total_notional(steps)),
        steps.len() > 0 ==> entry_of(run_steps(0, 0, steps).0, run_steps(0, 0, steps).1)
            == trunc_div(total_notional(steps), total_delta(steps)),
        steps.len() > 0 ==> total_delta(steps) > 0,
    decreases steps.len(),
{
    if steps.len() > 0 {
        let p = steps.drop_last();
        assert forall|i: int| 0 <= i < p.len() implies (#[trigger] p[i]).0 > 0 by {
            assert(p[i] == steps[i]);
        }
        lemma_buys_are_volume_weighted(p);
        assert(steps[steps.len() - 1].0 > 0);
    }
}

/// A market snapshot.
#[derive(Debug)]
pub struct MarketTick {
    pub market: String,
    pub timestamp: i64,
    pub bid: Option<i64>,
    pub bid_size: Option<i64>,
    pub ask: Option<i64>,
    pub ask_size: Option<i64>,
    pub last: Option<i64>,
    pub volume_24h: Option<i64>,
}

impl Clone for MarketTick {
    fn clone(&self) -> (r: MarketTick)
        ensures
            r == *self,
    {
        MarketTick {
            market: self.market.clone(),
            timestamp: self.timestamp,
            bid: self.bid,
            bid_size: self.bid_size,
            ask: self.ask,
            ask_size: self.ask_size,
            last: self.last,
            volume_24h: self.volume_24h,
        }
    }
}

/// Mid price: the mean of bid and ask (rounded down), else whichever side is
/// quoted, else the last trade, else zero.
pub open spec fn mid_of(t: MarketTick) -> int {
    match (t.bid, t.ask) {
        (Some(b), Some(a)) => (b + a) / 2,
        (Some(b), None) => b as int,
        (None, Some(a)) => a as int,
        (None, None) => match t.last {
            Some(l) => l as int,
            None => 0,
        },
    }
}

impl MarketTick {
    pub fn mid_price(&self) -> (r: i64)
        ensures
            r == mid_of(*self),
    {
        match (self.bid, self.ask) {
            (Some(b), Some(a)) => {
                let s = b as i128 + a as i128;
                let m = if s >= 0 {
                    s / 2
                } else {
                    -((-s + 1) / 2)
                };
                m as i64
            },
            (Some(b), None) => b,
            (None, Some(a)) => a,
            (None, None) => match self.last {
                Some(l) => l,
                None => 0,
            },
        }
    }

    /// `ask - bid` when both are quoted.
    pub fn spread(&self) -> (r: Option<i64>)
        ensures
            r == match (self.bid, self.ask) {
                (Some(b), Some(a)) => if fits(a - b) { Some((a - b) as i64) } else { None },
                _ => None,
            },
    {
        match (self.bid, self.ask) {
            (Some(b), Some(a)) => {
                let d = a as i128 - b as i128;
                if d < i64::MIN as i128 || d > i64::MAX as i128 {
                    None
                } else {
                    Some(d as i64)
                }
            },
            _ => None,
        }
    }

    /// The spread in basis points of the mid price (rounded toward zero),
    /// when both sides are quoted and the mid is positive.
    pub fn spread_bps(&self) -> (r: Option<i64>)
        ensures
            r == match (self.bid, self.ask) {
                (Some(b), Some(a)) => if fits(a - b) && mid_of(*self) > 0 && fits(
                    trunc_div((a - b) * BPS_DENOM, mid_of(*self)),
                ) {
                    Some(trunc_div((a - b) * BPS_DENOM, mid_of(*self)) as i64)
                } else {
                    None
                },
                _ => None,
            },
    {
        match self.spread() {
            Some(s) => {
                let m = self.mid_price();
                if m <= 0 {
                    return None;
                }
                proof {
                    assert(abs(s * BPS_DENOM) <= 0x4000_0000_0000_0000_0000_0000_0000) by (nonlinear_arith)
                        requires i64::MIN <= s <= i64::MAX;
                }
                let q = trunc_div_i128(s as i128 * BPS_DENOM as i128, m as i128);
                if q < i64::MIN as i128 || q > i64::MAX as i128 {
                    None
                } else {
                    Some(q as i64)
                }
            },
            None => None,
        }
    }
}

/// Direction of a trading signal.
#[derive(Debug, Clone, Copy, PartialEq, Eq, Structural)]
pub enum SignalType {
    Long,
    Short,
    Neutral,
    Close,
}

/// Description of a signal generator.
#[derive(Debug, Clone)]
pub struct SignalMetadata {
    pub name: String,
    pub description: String,
    pub params: Vec<(String, String)>,
}

/// Description of a strategy.
#[derive(Debug, Clone)]
pub struct StrategyMetadata {
    pub name: String,
    pub version: String,
    pub description: String,
    pub markets: Vec<String>,
    pub required_params: Vec<String>,
}

/// Named parameters of a strategy, one value per key.
#[derive(Debug)]
pub struct StrategyParams {
    pub params: Vec<(String, String)>,
}

pub open spec fn keys_distinct(s: Seq<(String, String)>) -> bool {
    forall|i: int, j: int| 0 <= i < j < s.len() ==> (#[trigger] s[i]).0@ != (#[trigger] s[j]).0@
}

/// The value stored under `key`, if any.
pub open spec fn param_lookup(s: Seq<(String, String)>, key: Seq<char>) -> Option<Seq<char>>
    decreases s.len(),
{
    if s.len() == 0 {
        None
    } else if s.last().0@ == key {
        Some(s.last().1@)
    } else {
        param_lookup(s.drop_last(), key)
    }
}

impl StrategyParams {
    pub open spec fn wf(&self) -> bool {
        keys_distinct(self.params@)
    }

    pub open spec fn lookup(&self, key: Seq<char>) -> Option<Seq<char>> {
        param_lookup(self.params@, key)
    }

    pub fn new() -> (r: StrategyParams)
        ensures
            r.wf(),
            forall|k: Seq<char>| r.lookup(k) is None,
    {
        StrategyParams { params: Vec::new() }
    }

    /// The value stored under `key`.
    pub fn get(&self, key: &str) -> (r: Option<&str>)
        ensures
            match r {
                Some(v) => self.lookup(key@) == Some(v@),
                None => self.lookup(key@) is None,
            },
    {
        let mut i = self.params.len();
        assert(self.params@.subrange(0, i as int) =~= self.params@);
        while i > 0
            invariant
                i <= self.params@.len(),
                param_lookup(self.params@, key@) == param_lookup(self.params@.subrange(0, i as int), key@),
            decreases i,
        {
            let ghost pre = self.params@.subrange(0, i as int);
            assert(pre.drop_last() =~= self.params@.subrange(0, i - 1));
            if string_eq(&self.params[i - 1].0, key) {
                return Some(self.params[i - 1].1.as_str());
            }
            i -= 1;
        }
        None
    }

    fn find_key(&self, key: &str) -> (r: Option<usize>)
        ensures
            r is Some ==> r->0 < self.params@.len() && self.params@[r->0 as int].0@ == key@,
            r is None ==> forall|k: int| 0 <= k < self.params@.len() ==> (#[trigger] self.params@[k]).0@ != key@,
    {
        let mut i: usize = 0;
        while i < self.params.len()
            invariant
                i <= self.params@.len(),
                forall|k: int| 0 <= k < i ==> (#[trigger] self.params@[k]).0@ != key@,
            decreases self.params.len() - i,
        {
            if string_eq(&self.params[i].0, key) {
                return Some(i);
            }
            i += 1;
        }
        None
    }

    /// Stores `value` under `key`, replacing an earlier value.
    pub fn set(&mut self, key: String, value: String)
        requires
            old(self).wf(),
        ensures
            final(self).wf(),
            final(self).lookup(key@) == Some(value@),
            forall|k: Seq<char>| k != key@ ==> final(self).lookup(k) == old(self).lookup(k),
    {
        let found = self.find_key(key.as_str());
        let ghost s = self.params@;
        let ghost kv = key@;
        let ghost vv = value@;
        if let Some(i) = found {
            self.params.remove(i);
            proof {
                assert forall|a: int, b: int| 0 <= a < b < self.params@.len() implies (#[trigger] self.params@[a]).0@ != (#[trigger] self.params@[b]).0@ by {
                    let a0 = if a < i { a } else { a + 1 };
                    let b0 = if b < i { b } else { b + 1 };
                    assert(self.params@[a] == s[a0]);
                    assert(self.params@[b] == s[b0]);
                }
                assert forall|k: Seq<char>| k != kv implies param_lookup(self.params@, k) == param_lookup(s, k) by {
                    lemma_lookup_remove(s, i as int, k);
                }
                assert forall|k: int| 0 <= k < self.params@.len() implies (#[trigger] self.params@[k]).0@ != kv by {
                    let k0 = if k < i { k } else { k + 1 };
                    assert(self.params@[k] == s[k0]);
                    if k0 != i as int {
                        if k0 < i { } else { assert(s[i as int].0@ != s[k0].0@); }
                    }
                }
            }
        }
        let ghost s1 = self.params@;
        self.params.push((key, value));
        proof {
            assert(self.params@.drop_last() =~= s1);
            assert forall|a: int, b: int| 0 <= a < b < self.params@.len() implies (#[trigger] self.params@[a]).0@ != (#[trigger] self.params@[b]).0@ by {
                if b == self.params@.len() - 1 {
                    assert(self.params@[a] == s1[a]);
                } else {
                    assert(self.params@[a] == s1[a]);
                    assert(self.params@[b] == s1[b]);
                }
            }
        }
    }
}

impl Default for StrategyParams {
    fn default() -> (r: StrategyParams)
        ensures
            r.wf(),
            forall|k: Seq<char>| r.lookup(k) is None,
    {
        StrategyParams::new()
    }
}

proof fn lemma_lookup_remove(s: Seq<(String, String)>, i: int, k: Seq<char>)
    requires
        0 <= i < s.len(),
        s[i].0@ != k,
    ensures
        param_lookup(s.remove(i), k) == param_lookup(s, k),
    decreases s.len(),
{
    if i == s.len() - 1 {
        assert(s.remove(i) =~= s.drop_last());
    } else {
        assert(s.remove(i).drop_last() =~= s.drop_last().remove(i));
        assert(s.remove(i).last() == s.last());
        lemma_lookup_remove(s.drop_last(), i, k);
    }
}

/// Kind of a metric.
#[derive(Debug, Clone, Copy, PartialEq, Eq, Structural)]
pub enum MetricType {
    Counter,
    Gauge,
    Histogram,
}

/// One metric sample emitted by a strategy.
#[derive(Debug)]
pub struct StrategyMetric {
    pub timestamp: i64,
    pub strategy_id: String,
    pub metric_type: MetricType,
    pub metric_name: String,
    /// Fixed-point value.
    pub value: i64,
    pub labels: Vec<(String, String)>,
}

impl StrategyMetric {
    fn make(strategy_id: String, metric_type: MetricType, name: String, value: i64, labels: Vec<(String, String)>) -> (r: StrategyMetric)
        ensures
            r.strategy_id == strategy_id && r.metric_type == metric_type && r.metric_name == name
                && r.value == value && r.labels == labels,
    {
        StrategyMetric { timestamp: crate::order::now_millis(), strategy_id, metric_type, metric_name: name, value, labels }
    }

    /// A counter sample, stamped now.
    pub fn counter(strategy_id: String, name: String, value: i64, labels: Vec<(String, String)>) -> (r: StrategyMetric)
        ensures
            r.strategy_id == strategy_id && r.metric_type == MetricType::Counter && r.metric_name == name
                && r.value == value && r.labels == labels,
    {
        StrategyMetric::make(strategy_id, MetricType::Counter, name, value, labels)
    }

    /// A gauge sample, stamped now.
    pub fn gauge(strategy_id: String, name: String, value: i64, labels: Vec<(String, String)>) -> (r: StrategyMetric)
        ensures
            r.strategy_id == strategy_id && r.metric_type == MetricType::Gauge && r.metric_name == name
                && r.value == value && r.labels == labels,
    {
        StrategyMetric::make(strategy_id, MetricType::Gauge, name, value, labels)
    }

    /// A histogram sample, stamped now.
    pub fn histogram(strategy_id: String, name: String, value: i64, labels: Vec<(String, String)>) -> (r: StrategyMetric)
        ensures
            r.strategy_id == strategy_id && r.metric_type == MetricType::Histogram && r.metric_name == name
                && r.value == value && r.labels == labels,
    {
        StrategyMetric::make(strategy_id, MetricType::Histogram, name, value, labels)
    }
}

/// Makes the common metrics of one strategy.
#[derive(Debug)]
pub struct MetricBuilder {
    strategy_id: String,
}

impl MetricBuilder {
    pub closed spec fn id(&self) -> Seq<char> {
        self.strategy_id@
    }

    pub fn new(strategy_id: String) -> (r: MetricBuilder)
        ensures
            r.id() == strategy_id@,
    {
        MetricBuilder { strategy_id }
    }

    fn metric(&self, metric_type: MetricType, name: &str, value: i64, labels: Vec<(String, String)>) -> (r: StrategyMetric)
        ensures
            r.strategy_id@ == self.id(),
            r.metric_type == metric_type,
            r.metric_name@ == name@,
            r.value == value,
            r.labels@ == labels@,
    {
        StrategyMetric::make(self.strategy_id.clone(), metric_type, String::from_str(name), value, labels)
    }

    /// Gauge `strategy.pnl_usd` labelled with the market.
    pub fn pnl(&self, market_id: &str, value: i64) -> (r: StrategyMetric)
        ensures
            r.strategy_id@ == self.id(),
            r.metric_type == MetricType::Gauge,
            r.metric_name@ == "strategy.pnl_usd"@,
            r.value == value,
            r.labels@.len() == 1 && r.labels@[0].0@ == "market"@ && r.labels@[0].1@ == market_id@,
    {
        let mut labels: Vec<(String, String)> = Vec::new();
        labels.push((String::from_str("market"), String::from_str(market_id)));
        self.metric(MetricType::Gauge, "strategy.pnl_usd", value, labels)
    }

    /// Gauge `strategy.position_size` labelled with the market.
    pub fn position_size(&self, market_id: &str, size: i64) -> (r: StrategyMetric)
        ensures
            r.strategy_id@ == self.id(),
            r.metric_type == MetricType::Gauge,
            r.metric_name@ == "strategy.position_size"@,
            r.value == size,
            r.labels@.len() == 1 && r.labels@[0].0@ == "market"@ && r.labels@[0].1@ == market_id@,
    {
        let mut labels: Vec<(String, String)> = Vec::new();
        labels.push((String::from_str("market"), String::from_str(market_id)));
        self.metric(MetricType::Gauge, "strategy.position_size", size, labels)
    }

    /// Counter `strategy.signals_generated` (one) labelled with market and kind.
    pub fn signal_generated(&self, market_id: &str, signal_type: &str) -> (r: StrategyMetric)
        ensures
            r.strategy_id@ == self.id(),
            r.metric_type == MetricType::Counter,
            r.metric_name@ == "strategy.signals_generated"@,
            r.value == SCALE,
            r.labels@.len() == 2 && r.labels@[0].0@ == "market"@ && r.labels@[0].1@ == market_id@
                && r.labels@[1].0@ == "signal_type"@ && r.labels@[1].1@ == signal_type@,
    {
        let mut labels: Vec<(String, String)> = Vec::new();
        labels.push((String::from_str("market"), String::from_str(market_id)));
        labels.push((String::from_str("signal_type"), String::from_str(signal_type)));
        self.metric(MetricType::Counter, "strategy.signals_generated", SCALE, labels)
    }

    /// Counter `strategy.orders_placed` (one) labelled with market and side.
    pub fn order_placed(&self, market_id: &str, side: &str) -> (r: StrategyMetric)
        ensures
            r.strategy_id@ == self.id(),
            r.metric_type == MetricType::Counter,
            r.metric_name@ == "strategy.orders_placed"@,
            r.value == SCALE,
            r.labels@.len() == 2 && r.labels@[0].0@ == "market"@ && r.labels@[0].1@ == market_id@
                && r.labels@[1].0@ == "side"@ && r.labels@[1].1@ == side@,
    {
        let mut labels: Vec<(String, String)> = Vec::new();
        labels.push((String::from_str("market"), String::from_str(market_id)));
        labels.push((String::from_str("side"), String::from_str(side)));
        self.metric(MetricType::Counter, "strategy.orders_placed", SCALE, labels)
    }

    /// Counter `strategy.orders_filled` (one) labelled with the market.
    pub fn order_filled(&self, market_id: &str) -> (r: StrategyMetric)
        ensures
            r.strategy_id@ == self.id(),
            r.metric_type == MetricType::Counter,
            r.metric_name@ == "strategy.orders_filled"@,
            r.value == SCALE,
            r.labels@.len() == 1 && r.labels@[0].0@ == "market"@ && r.labels@[0].1@ == market_id@,
    {
        let mut labels: Vec<(String, String)> = Vec::new();
        labels.push((String::from_str("market"), String::from_str(market_id)));
        self.metric(MetricType::Counter, "strategy.orders_filled", SCALE, labels)
    }
}

} // verus!
