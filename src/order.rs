//! Orders, fills and acknowledgements, venue-agnostic.
use vstd::prelude::*;
use vstd::string::*;

verus! {

/// Relies on uuid's `Uuid::new_v4` (a random version-4 UUID) and `as_u128`;
/// nothing is promised of the value.
#[verifier::external_body]
fn fresh_uuid() -> (r: u128) {
    uuid::Uuid::new_v4().as_u128()
}

/// Relies on chrono's `Utc::now` and `timestamp_millis`: milliseconds since
/// the Unix epoch; nothing is promised of the value.
#[verifier::external_body]
pub(crate) fn now_millis() -> (r: i64) {
    chrono::Utc::now().timestamp_millis()
}

/// Unique identifier of an order: the 128 bits of a UUID.
#[derive(Debug, Clone, Copy, PartialEq, Eq, Hash, Structural)]
pub struct OrderId(pub u128);

impl OrderId {
    /// A fresh random identifier.
    pub fn new() -> (r: OrderId) {
        OrderId(fresh_uuid())
    }

    pub fn from_u128(v: u128) -> (r: OrderId)
        ensures
            r.0 == v,
    {
        OrderId(v)
    }

    pub fn as_u128(&self) -> (r: u128)
        ensures
            r == self.0,
    {
        self.0
    }
}

/// Venue identifier (case-sensitive).
#[derive(Debug, PartialEq, Eq, Hash)]
pub struct VenueId(pub String);

impl Clone for VenueId {
    fn clone(&self) -> (r: VenueId)
        ensures
            r == *self,
    {
        VenueId(self.0.clone())
    }
}

impl VenueId {
    pub fn new(id: &str) -> (r: VenueId)
        ensures
            r.0@ == id@,
    {
        VenueId(String::from_str(id))
    }

    pub fn as_str(&self) -> (r: &str)
        ensures
            r@ == self.0@,
    {
        self.0.as_str()
    }
}

/// Market identifier (case-sensitive).
#[derive(Debug, PartialEq, Eq, Hash)]
pub struct MarketId(pub String);

impl Clone for MarketId {
    fn clone(&self) -> (r: MarketId)
        ensures
            r == *self,
    {
        MarketId(self.0.clone())
    }
}

/// A copy of an optional text.
pub fn clone_opt_string(s: &Option<String>) -> (r: Option<String>)
    ensures
        r == *s,
{
    match s {
        Some(v) => Some(v.clone()),
        None => None,
    }
}

impl MarketId {
    pub fn new(id: &str) -> (r: MarketId)
        ensures
            r.0@ == id@,
    {
        MarketId(String::from_str(id))
    }

    pub fn as_str(&self) -> (r: &str)
        ensures
            r@ == self.0@,
    {
        self.0.as_str()
    }
}

#[derive(Debug, Clone, Copy, PartialEq, Eq, Structural)]
pub enum Side {
    Buy,
    Sell,
}

impl Side {
    pub fn as_str(&self) -> (r: &'static str)
        ensures
            r@ == if *self == Side::Buy { "BUY"@ } else { "SELL"@ },
    {
        match self {
            Side::Buy => "BUY",
            Side::Sell => "SELL",
        }
    }
}

#[derive(Debug, Clone, Copy, PartialEq, Eq, Structural)]
pub enum OrderType {
    Limit,
    Market,
    PostOnly,
}

impl OrderType {
    pub fn as_str(&self) -> (r: &'static str)
        ensures
            r@ == match *self {
                OrderType::Limit => "LIMIT"@,
                OrderType::Market => "MARKET"@,
                OrderType::PostOnly => "POST_ONLY"@,
            },
    {
        match self {
            OrderType::Limit => "LIMIT",
            OrderType::Market => "MARKET",
            OrderType::PostOnly => "POST_ONLY",
        }
    }
}

#[derive(Debug, Clone, Copy, PartialEq, Eq, Structural)]
pub enum TimeInForce {
    GTC,
    IOC,
    FOK,
}

impl TimeInForce {
    pub fn as_str(&self) -> (r: &'static str)
        ensures
            r@ == match *self {
                TimeInForce::GTC => "GTC"@,
                TimeInForce::IOC => "IOC"@,
                TimeInForce::FOK => "FOK"@,
            },
    {
        match self {
            TimeInForce::GTC => "GTC",
            TimeInForce::IOC => "IOC",
            TimeInForce::FOK => "FOK",
        }
    }
}

/// Lifecycle state of an order.
#[derive(Debug, Clone, Copy, PartialEq, Eq, Structural)]
pub enum OrderStatus {
    Pending,
    Submitting,
    Working,
    PartiallyFilled,
    Filled,
    Cancelling,
    Cancelled,
    Rejected,
    Expired,
}

pub open spec fn status_terminal(s: OrderStatus) -> bool {
    s == OrderStatus::Filled || s == OrderStatus::Cancelled || s == OrderStatus::Rejected
        || s == OrderStatus::Expired
}

pub open spec fn status_active(s: OrderStatus) -> bool {
    s == OrderStatus::Working || s == OrderStatus::PartiallyFilled
}

/// The name of a status (`PARTIALLY_FILLED`).
pub open spec fn status_text(s: OrderStatus) -> Seq<char> {
    match s {
        OrderStatus::Pending => "PENDING"@,
        OrderStatus::Submitting => "SUBMITTING"@,
        OrderStatus::Working => "WORKING"@,
        OrderStatus::PartiallyFilled => "PARTIALLY_FILLED"@,
        OrderStatus::Filled => "FILLED"@,
        OrderStatus::Cancelling => "CANCELLING"@,
        OrderStatus::Cancelled => "CANCELLED"@,
        OrderStatus::Rejected => "REJECTED"@,
        OrderStatus::Expired => "EXPIRED"@,
    }
}

impl OrderStatus {
    pub fn is_terminal(&self) -> (r: bool)
        ensures
            r == status_terminal(*self),
    {
        match self {
            OrderStatus::Filled | OrderStatus::Cancelled | OrderStatus::Rejected
            | OrderStatus::Expired => true,
            _ => false,
        }
    }

    pub fn is_active(&self) -> (r: bool)
        ensures
            r == status_active(*self),
    {
        match self {
            OrderStatus::Working | OrderStatus::PartiallyFilled => true,
            _ => false,
        }
    }

    pub fn as_str(&self) -> (r: &'static str)
        ensures
            r@ == match *self {
                OrderStatus::Pending => "PENDING"@,
                OrderStatus::Submitting => "SUBMITTING"@,
                OrderStatus::Working => "WORKING"@,
                OrderStatus::PartiallyFilled => "PARTIALLY_FILLED"@,
                OrderStatus::Filled => "FILLED"@,
                OrderStatus::Cancelling => "CANCELLING"@,
                OrderStatus::Cancelled => "CANCELLED"@,
                OrderStatus::Rejected => "REJECTED"@,
                OrderStatus::Expired => "EXPIRED"@,
            },
    {
        match self {
            OrderStatus::Pending => "PENDING",
            OrderStatus::Submitting => "SUBMITTING",
            OrderStatus::Working => "WORKING",
            OrderStatus::PartiallyFilled => "PARTIALLY_FILLED",
            OrderStatus::Filled => "FILLED",
            OrderStatus::Cancelling => "CANCELLING",
            OrderStatus::Cancelled => "CANCELLED",
            OrderStatus::Rejected => "REJECTED",
            OrderStatus::Expired => "EXPIRED",
        }
    }
}

/// A status change that the lifecycle permits: none out of a terminal state,
/// and `Filled` only through fills.
pub open spec fn status_change_allowed(from: OrderStatus, to: OrderStatus) -> bool {
    !status_terminal(from) && to != OrderStatus::Filled
}

/// Terminal states are absorbing: no status change leaves one.
pub proof fn lemma_terminal_absorbing(from: OrderStatus, to: OrderStatus)
    requires
        status_terminal(from),
    ensures
        !status_change_allowed(from, to),
{
}

/// Liquidity role of a fill.
#[derive(Debug, Clone, Copy, PartialEq, Eq, Structural)]
pub enum Liquidity {
    Maker,
    Taker,
}

/// An order. Prices and sizes are fixed-point units, times are milliseconds
/// since the Unix epoch.
#[derive(Debug)]
pub struct Order {
    pub id: OrderId,
    pub venue: VenueId,
    pub market: MarketId,
    pub side: Side,
    pub order_type: OrderType,
    /// Limit price; none for market orders.
    pub price: Option<i64>,
    pub size: i64,
    pub time_in_force: TimeInForce,
    pub client_order_id: String,
    pub status: OrderStatus,
    pub filled_size: i64,
    /// Average fill price: `fill_notional / filled_size`, rounded down.
    pub avg_fill_price: Option<i64>,
    /// Sum over the fills of size times price (`SCALE * SCALE` units).
    pub fill_notional: i128,
    pub created_at: i64,
    pub updated_at: i64,
}

impl Clone for Order {
    fn clone(&self) -> (r: Order)
        ensures
            r == *self,
    {
        Order {
            id: self.id,
            venue: self.venue.clone(),
            market: self.market.clone(),
            side: self.side,
            order_type: self.order_type,
            price: self.price,
            size: self.size,
            time_in_force: self.time_in_force,
            client_order_id: self.client_order_id.clone(),
            status: self.status,
            filled_size: self.filled_size,
            avg_fill_price: self.avg_fill_price,
            fill_notional: self.fill_notional,
            created_at: self.created_at,
            updated_at: self.updated_at,
        }
    }
}

impl Order {
    /// Checks the order invariant.
    pub fn is_well_formed(&self) -> (r: bool)
        ensures
            r == self.wf(),
    {
        if self.size <= 0 || self.filled_size < 0 || self.filled_size > self.size {
            return false;
        }
        if (self.status == OrderStatus::Filled) != (self.filled_size == self.size) {
            return false;
        }
        let cap = self.filled_size as i128 * i64::MAX as i128;
        proof {
            assert(self.filled_size * (i64::MAX as int) <= (i64::MAX as int) * (i64::MAX as int)) by (nonlinear_arith)
                requires 0 <= self.filled_size <= i64::MAX;
        }
        if self.fill_notional < 0 || self.fill_notional > cap {
            return false;
        }
        if self.filled_size == 0 {
            return self.avg_fill_price.is_none();
        }
        let avg = self.fill_notional / self.filled_size as i128;
        proof {
            assert(avg <= i64::MAX) by (nonlinear_arith)
                requires avg == (self.fill_notional as int) / (self.filled_size as int),
                    0 <= self.fill_notional <= self.filled_size * (i64::MAX as int), self.filled_size > 0;
            assert(avg >= 0) by (nonlinear_arith)
                requires avg == (self.fill_notional as int) / (self.filled_size as int),
                    0 <= self.fill_notional, self.filled_size > 0;
        }
        match self.avg_fill_price {
            Some(a) => a as i128 == avg,
            None => false,
        }
    }

    /// The order invariant: fills stay within the size, `Filled` exactly when
    /// the whole size is filled, and the average price agrees with the fills.
    pub open spec fn wf(&self) -> bool {
        &&& self.size > 0
        &&& 0 <= self.filled_size <= self.size
        &&& (self.status == OrderStatus::Filled <==> self.filled_size == self.size)
        &&& 0 <= self.fill_notional <= self.filled_size * (i64::MAX as int)
        &&& self.avg_fill_price == if self.filled_size > 0 {
            Some(((self.fill_notional as int) / (self.filled_size as int)) as i64)
        } else {
            None::<i64>
        }
    }

    /// A new pending, unfilled order with a fresh id.
    pub fn new(
        venue: VenueId,
        market: MarketId,
        side: Side,
        order_type: OrderType,
        price: Option<i64>,
        size: i64,
        time_in_force: TimeInForce,
        client_order_id: String,
    ) -> (r: Order)
        ensures
            r.venue == venue,
            r.market == market,
            r.side == side,
            r.order_type == order_type,
            r.price == price,
            r.size == size,
            r.time_in_force == time_in_force,
            r.client_order_id == client_order_id,
            r.status == OrderStatus::Pending,
            r.filled_size == 0,
            r.fill_notional == 0,
            r.avg_fill_price is None,
            r.created_at == r.updated_at,
            size > 0 ==> r.wf(),
    {
        let now = now_millis();
        Order {
            id: OrderId::new(),
            venue,
            market,
            side,
            order_type,
            price,
            size,
            time_in_force,
            client_order_id,
            status: OrderStatus::Pending,
            filled_size: 0,
            avg_fill_price: None,
            fill_notional: 0,
            created_at: now,
            updated_at: now,
        }
    }

    pub fn is_terminal(&self) -> (r: bool)
        ensures
            r == status_terminal(self.status),
    {
        self.status.is_terminal()
    }

    pub fn is_active(&self) -> (r: bool)
        ensures
            r == status_active(self.status),
    {
        self.status.is_active()
    }

    /// Moves the order to `status` where the lifecycle permits it; returns
    /// whether it did. A terminal order never changes.
    pub fn update_status(&mut self, status: OrderStatus) -> (r: bool)
        requires
            old(self).wf(),
        ensures
            final(self).wf(),
            r == status_change_allowed(old(self).status, status),
            !r ==> *final(self) == *old(self),
            final(self).status == if r { status } else { old(self).status },
            final(self).id == old(self).id,
            final(self).market == old(self).market,
            final(self).venue == old(self).venue,
            final(self).side == old(self).side,
            final(self).size == old(self).size,
            final(self).filled_size == old(self).filled_size,
            final(self).fill_notional == old(self).fill_notional,
            final(self).avg_fill_price == old(self).avg_fill_price,
    {
        if self.status.is_terminal() || status == OrderStatus::Filled {
            return false;
        }
        self.status = status;
        self.updated_at = now_millis();
        true
    }

    /// Records a fill of `fill_size` at `fill_price` and returns the size
    /// taken: the fill clamped to what remains, or nothing on a terminal order.
    pub fn record_fill(&mut self, fill_size: i64, fill_price: i64) -> (applied: i64)
        requires
            old(self).wf(),
            fill_size > 0,
            fill_price > 0,
        ensures
            final(self).wf(),
            applied == if status_terminal(old(self).status) {
                0
            } else if fill_size < old(self).size - old(self).filled_size {
                fill_size as int
            } else {
                old(self).size - old(self).filled_size
            },
            final(self).filled_size == old(self).filled_size + applied,
            final(self).fill_notional == old(self).fill_notional + applied * fill_price,
            status_terminal(old(self).status) ==> final(self).status == old(self).status,
            !status_terminal(old(self).status) ==> final(self).status == if final(self).filled_size
                == final(self).size {
                OrderStatus::Filled
            } else {
                OrderStatus::PartiallyFilled
            },
            final(self).id == old(self).id,
            final(self).market == old(self).market,
            final(self).venue == old(self).venue,
            final(self).side == old(self).side,
            final(self).size == old(self).size,
            final(self).price == old(self).price,
            final(self).order_type == old(self).order_type,
    {
        if self.status.is_terminal() {
            return 0;
        }
        let remaining = self.size - self.filled_size;
        let applied = if fill_size < remaining { fill_size } else { remaining };
        let filled = self.filled_size + applied;
        proof {
            assert(applied * fill_price <= (i64::MAX as int) * (i64::MAX as int)) by (nonlinear_arith)
                requires 0 <= applied <= i64::MAX, 0 < fill_price <= i64::MAX;
        }
        let added = applied as i128 * fill_price as i128;
        proof {
            assert(added <= applied * (i64::MAX as int)) by (nonlinear_arith)
                requires added == applied * fill_price, fill_price <= i64::MAX, applied >= 0;
            assert(added >= 0) by (nonlinear_arith)
                requires added == applied * fill_price, fill_price > 0, applied >= 0;
            assert(self.filled_size * (i64::MAX as int) + applied * (i64::MAX as int) == filled * (
            i64::MAX as int)) by (nonlinear_arith)
                requires filled == self.filled_size + applied;
            assert(filled * (i64::MAX as int) <= (i64::MAX as int) * (i64::MAX as int)) by (nonlinear_arith)
                requires 0 < filled <= i64::MAX;
        }
        let notional = self.fill_notional + added;
        let avg = notional / filled as i128;
        proof {
            assert(avg <= i64::MAX) by (nonlinear_arith)
                requires avg == (notional as int) / (filled as int), 0 <= notional <= filled * (i64::MAX as int), filled > 0;
            assert(avg >= 0) by (nonlinear_arith)
                requires avg == (notional as int) / (filled as int), 0 <= notional, filled > 0;
        }
        self.filled_size = filled;
        self.fill_notional = notional;
        self.avg_fill_price = Some(avg as i64);
        self.status = if filled == self.size {
            OrderStatus::Filled
        } else {
            OrderStatus::PartiallyFilled
        };
        self.updated_at = now_millis();
        applied
    }

    /// Size not yet filled.
    pub fn remaining_size(&self) -> (r: i64)
        requires
            self.wf(),
        ensures
            r == self.size - self.filled_size,
    {
        self.size - self.filled_size
    }
}

/// A venue's answer to an order placement.
#[derive(Debug, Clone)]
pub struct OrderAck {
    pub order_id: OrderId,
    pub venue_order_id: Option<String>,
    pub status: OrderStatus,
    pub timestamp: i64,
    pub message: Option<String>,
}

/// A venue's answer to a cancel request.
#[derive(Debug, Clone)]
pub struct CancelAck {
    pub order_id: OrderId,
    pub venue_order_id: Option<String>,
    pub success: bool,
    pub timestamp: i64,
    pub message: Option<String>,
}

/// An execution against an order.
#[derive(Debug)]
pub struct Fill {
    pub fill_id: String,
    pub order_id: OrderId,
    pub venue_order_id: Option<String>,
    pub price: i64,
    pub size: i64,
    pub fee: i64,
    pub fee_currency: String,
    pub timestamp: i64,
    pub liquidity: Option<Liquidity>,
}

impl Clone for Fill {
    fn clone(&self) -> (r: Fill)
        ensures
            r == *self,
    {
        Fill {
            fill_id: self.fill_id.clone(),
            order_id: self.order_id,
            venue_order_id: clone_opt_string(&self.venue_order_id),
            price: self.price,
            size: self.size,
            fee: self.fee,
            fee_currency: self.fee_currency.clone(),
            timestamp: self.timestamp,
            liquidity: self.liquidity,
        }
    }
}

} // verus!
