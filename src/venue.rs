//! The Polymarket order book's wire conventions: request signing, order
//! requests and status names.
use vstd::prelude::*;
use vstd::string::*;
use crate::decimal::{decimal_text, digit_char, push_decimal, SCALE};
use crate::error::ExecError;
use crate::order::{Order, OrderStatus, OrderType, Side, VenueId};
use crate::strategy::StrategyParams;
use crate::text::string_eq;

verus! {

/// How to reach and authenticate with a venue.
#[derive(Debug)]
pub struct VenueConfig {
    pub venue_id: VenueId,
    pub api_endpoint: String,
    pub ws_endpoint: Option<String>,
    pub api_key: Option<String>,
    pub api_secret: Option<String>,
    /// Venue-specific settings, one value per key.
    pub extra: StrategyParams,
}

impl VenueConfig {
    /// A venue at `api_endpoint` with no credentials, stream or extras.
    pub fn new(venue_id: VenueId, api_endpoint: String) -> (r: VenueConfig)
        ensures
            r.venue_id == venue_id && r.api_endpoint == api_endpoint,
            r.ws_endpoint is None && r.api_key is None && r.api_secret is None,
            r.extra.wf() && forall|k: Seq<char>| r.extra.lookup(k) is None,
    {
        VenueConfig { venue_id, api_endpoint, ws_endpoint: None, api_key: None, api_secret: None, extra: StrategyParams::new() }
    }

    pub fn with_credentials(self, api_key: String, api_secret: String) -> (r: VenueConfig)
        ensures
            r.api_key == Some(api_key) && r.api_secret == Some(api_secret),
            r.venue_id == self.venue_id && r.api_endpoint == self.api_endpoint && r.ws_endpoint == self.ws_endpoint
                && r.extra == self.extra,
    {
        let mut c = self;
        c.api_key = Some(api_key);
        c.api_secret = Some(api_secret);
        c
    }

    pub fn with_ws_endpoint(self, ws_endpoint: String) -> (r: VenueConfig)
        ensures
            r.ws_endpoint == Some(ws_endpoint),
            r.venue_id == self.venue_id && r.api_endpoint == self.api_endpoint && r.api_key == self.api_key
                && r.api_secret == self.api_secret && r.extra == self.extra,
    {
        let mut c = self;
        c.ws_endpoint = Some(ws_endpoint);
        c
    }

    /// Sets the extra setting `key` to `value`, replacing an earlier value.
    pub fn with_extra(self, key: String, value: String) -> (r: VenueConfig)
        requires
            self.extra.wf(),
        ensures
            r.extra.wf(),
            r.extra.lookup(key@) == Some(value@),
            forall|k: Seq<char>| k != key@ ==> r.extra.lookup(k) == self.extra.lookup(k),
            r.venue_id == self.venue_id && r.api_endpoint == self.api_endpoint && r.ws_endpoint == self.ws_endpoint
                && r.api_key == self.api_key && r.api_secret == self.api_secret,
    {
        let mut c = self;
        c.extra.set(key, value);
        c
    }
}

/// HMAC-SHA256 of the UTF-8 bytes of `message` keyed by those of `key`.
pub uninterp spec fn hmac_sha256_of(key: Seq<char>, message: Seq<char>) -> Seq<u8>;

/// Relies on hmac's `Hmac<Sha256>` (`new_from_slice`, which accepts keys of
/// any length, then `update` and `finalize`): the 32-byte tag, a function of
/// key and message alone.
#[verifier::external_body]
fn hmac_sha256(key: &str, message: &str) -> (r: Vec<u8>)
    ensures
        r@ == hmac_sha256_of(key@, message@),
        r@.len() == 32,
{
    let mut mac = <hmac::Hmac<sha2::Sha256> as hmac::Mac>::new_from_slice(key.as_bytes())
        .expect("HMAC takes keys of any length");
    hmac::Mac::update(&mut mac, message.as_bytes());
    hmac::Mac::finalize(mac).into_bytes().to_vec()
}

pub open spec fn hex_digit(d: int) -> char {
    seq!['0', '1', '2', '3', '4', '5', '6', '7', '8', '9', 'a', 'b', 'c', 'd', 'e', 'f'][d]
}

/// Two lowercase hex digits per byte, high nibble first.
pub open spec fn hex_text(b: Seq<u8>) -> Seq<char>
    decreases b.len(),
{
    if b.len() == 0 {
        Seq::empty()
    } else {
        hex_text(b.drop_last()) + seq![hex_digit(b.last() as int / 16), hex_digit(b.last() as int % 16)]
    }
}

/// Relies on `hex::encode`: each byte as two lowercase hex digits.
#[verifier::external_body]
fn to_hex(b: &Vec<u8>) -> (r: String)
    ensures
        r@ == hex_text(b@),
{
    hex::encode(b)
}

/// `v` in decimal with a leading `-` when negative.
pub open spec fn signed_text(v: int) -> Seq<char> {
    if v < 0 { seq!['-'] + decimal_text((-v) as nat) } else { decimal_text(v as nat) }
}

fn push_signed(s: &mut String, v: i64)
    ensures
        final(s)@ == old(s)@ + signed_text(v as int),
{
    if v < 0 {
        s.append("-");
        proof { reveal_strlit("-"); }
        let ghost mid = s@;
        push_decimal(s, (0 - (v as i128)) as u128);
        assert(s@ =~= old(s)@ + signed_text(v as int));
    } else {
        push_decimal(s, v as u128);
    }
}

/// The text that is signed: timestamp, method, path and body, run together.
pub open spec fn signing_text(timestamp: int, method: Seq<char>, path: Seq<char>, body: Seq<char>) -> Seq<char> {
    signed_text(timestamp) + method + path + body
}

/// The message signed for a request.
pub fn signing_message(timestamp: i64, method: &str, path: &str, body: &str) -> (r: String)
    ensures
        r@ == signing_text(timestamp as int, method@, path@, body@),
{
    let mut s = String::new();
    push_signed(&mut s, timestamp);
    s.append(method);
    s.append(path);
    s.append(body);
    assert(s@ =~= signing_text(timestamp as int, method@, path@, body@));
    s
}

/// The `X-Signature` of a request: hex of the HMAC-SHA256, keyed by the API
/// secret, of timestamp, method, path and body. Without a secret the request
/// cannot be authenticated.
pub fn sign_request(api_secret: &Option<String>, timestamp: i64, method: &str, path: &str, body: &str) -> (r: Result<String, ExecError>)
    ensures
        api_secret is None ==> r is Err && r->Err_0 is AuthenticationError,
        api_secret is Some ==> r is Ok && r->Ok_0@ == hex_text(
            hmac_sha256_of(api_secret->0@, signing_text(timestamp as int, method@, path@, body@)),
        ),
        api_secret is Some ==> r->Ok_0@.len() == 64,
{
    match api_secret {
        Some(secret) => {
            let message = signing_message(timestamp, method, path, body);
            let tag = hmac_sha256(secret.as_str(), message.as_str());
            let text = to_hex(&tag);
            proof {
                lemma_hex_len(tag@);
            }
            Ok(text)
        },
        None => Err(ExecError::AuthenticationError(String::from_str("API secret not configured"))),
    }
}

proof fn lemma_hex_len(b: Seq<u8>)
    ensures
        hex_text(b).len() == 2 * b.len(),
    decreases b.len(),
{
    if b.len() > 0 {
        lemma_hex_len(b.drop_last());
    }
}

/// The status a Polymarket status name stands for; an unknown name reads as
/// rejected.
pub open spec fn status_named(s: Seq<char>) -> OrderStatus {
    if s == "PENDING"@ {
        OrderStatus::Pending
    } else if s == "LIVE"@ {
        OrderStatus::Working
    } else if s == "PARTIALLY_FILLED"@ {
        OrderStatus::PartiallyFilled
    } else if s == "FILLED"@ {
        OrderStatus::Filled
    } else if s == "CANCELLED"@ {
        OrderStatus::Cancelled
    } else if s == "EXPIRED"@ {
        OrderStatus::Expired
    } else {
        OrderStatus::Rejected
    }
}

pub fn from_polymarket_status(status: &String) -> (r: OrderStatus)
    ensures
        r == status_named(status@),
{
    if string_eq(status, "PENDING") {
        OrderStatus::Pending
    } else if string_eq(status, "LIVE") {
        OrderStatus::Working
    } else if string_eq(status, "PARTIALLY_FILLED") {
        OrderStatus::PartiallyFilled
    } else if string_eq(status, "FILLED") {
        OrderStatus::Filled
    } else if string_eq(status, "CANCELLED") {
        OrderStatus::Cancelled
    } else if string_eq(status, "EXPIRED") {
        OrderStatus::Expired
    } else {
        OrderStatus::Rejected
    }
}

/// `n` in exactly `width` decimal digits (leading zeros kept).
pub open spec fn padded_text(n: nat, width: nat) -> Seq<char>
    decreases width,
{
    if width == 0 {
        Seq::empty()
    } else {
        padded_text(n / 10, (width - 1) as nat) + seq![digit_char((n % 10) as int)]
    }
}

/// A fraction `f` of `10^w` with its trailing zeros removed: the digits kept
/// and their count.
pub open spec fn trimmed(f: nat, w: nat) -> (nat, nat)
    decreases w,
{
    if w > 0 && f % 10 == 0 {
        trimmed(f / 10, (w - 1) as nat)
    } else {
        (f, w)
    }
}

/// A fixed-point amount in plain decimal: `100`, `0.52`, `-1.5`.
pub open spec fn units_text(v: int) -> Seq<char> {
    let m = crate::decimal::abs(v);
    let sign = if v < 0 { seq!['-'] } else { Seq::<char>::empty() };
    let whole = decimal_text(m / (SCALE as nat));
    let frac = m % (SCALE as nat);
    if frac == 0 {
        sign + whole
    } else {
        let (f, w) = trimmed(frac, 6);
        sign + whole + seq!['.'] + padded_text(f, w)
    }
}

fn push_padded(s: &mut String, n: u64, width: u32)
    ensures
        final(s)@ == old(s)@ + padded_text(n as nat, width as nat),
    decreases width,
{
    if width > 0 {
        push_padded(s, n / 10, width - 1);
        let d = n % 10;
        let mut one = String::new();
        push_decimal(&mut one, d as u128);
        assert(one@ =~= seq![digit_char(d as int)]);
        s.append(one.as_str());
    }
}

/// Appends `v` units in plain decimal.
pub fn push_units(s: &mut String, v: i64)
    ensures
        final(s)@ == old(s)@ + units_text(v as int),
{
    let m: u64 = if v < 0 { (0 - (v as i128)) as u64 } else { v as u64 };
    assert(m as nat == crate::decimal::abs(v as int));
    let ghost start = s@;
    if v < 0 {
        s.append("-");
        proof { reveal_strlit("-"); }
    }
    push_decimal(s, (m / SCALE as u64) as u128);
    let frac = m % SCALE as u64;
    if frac != 0 {
        let mut f = frac;
        let mut w: u32 = 6;
        while w > 0 && f % 10 == 0
            invariant
                w <= 6,
                trimmed(f as nat, w as nat) == trimmed(frac as nat, 6),
            decreases w,
        {
            f = f / 10;
            w = w - 1;
        }
        s.append(".");
        proof { reveal_strlit("."); }
        push_padded(s, f, w);
    }
    assert(s@ =~= start + units_text(v as int));
}

/// An order request as the venue takes it (serialised by the caller).
#[derive(Debug, Clone)]
pub struct PolymarketOrderRequest {
    pub market: String,
    /// `BUY` or `SELL`.
    pub side: String,
    pub price: Option<String>,
    pub size: String,
    /// `GTC` for limit orders, `FOK` for market orders.
    pub order_type: String,
    pub client_order_id: Option<String>,
}

/// Writes `order` as a venue request. Post-only orders have no counterpart
/// in this request format and are refused.
pub fn to_polymarket_order(order: &Order) -> (r: Result<PolymarketOrderRequest, ExecError>)
    ensures
        order.order_type == OrderType::PostOnly ==> r is Err && r->Err_0 is ConfigError,
        order.order_type != OrderType::PostOnly ==> r is Ok && ({
            let q = r->Ok_0;
            &&& q.market@ == order.market.0@
            &&& q.side@ == if order.side == Side::Buy { "BUY"@ } else { "SELL"@ }
            &&& q.order_type@ == if order.order_type == OrderType::Limit { "GTC"@ } else { "FOK"@ }
            &&& q.size@ == units_text(order.size as int)
            &&& (q.price is Some <==> order.price is Some)
            &&& q.price is Some ==> q.price->0@ == units_text(order.price->0 as int)
            &&& q.client_order_id == Some(order.client_order_id)
        }),
{
    let order_type = match order.order_type {
        OrderType::Limit => "GTC",
        OrderType::Market => "FOK",
        OrderType::PostOnly => {
            return Err(ExecError::ConfigError(String::from_str("Post-only orders are not supported by this venue")));
        },
    };
    let side = match order.side {
        Side::Buy => "BUY",
        Side::Sell => "SELL",
    };
    let price = match order.price {
        Some(p) => {
            let mut t = String::new();
            push_units(&mut t, p);
            assert(t@ =~= units_text(p as int));
            Some(t)
        },
        None => None,
    };
    let mut size = String::new();
    push_units(&mut size, order.size);
    assert(size@ =~= units_text(order.size as int));
    Ok(PolymarketOrderRequest {
        market: order.market.0.clone(),
        side: String::from_str(side),
        price,
        size,
        order_type: String::from_str(order_type),
        client_order_id: Some(order.client_order_id.clone()),
    })
}

} // verus!
