//! Per-venue token-bucket settings.
use vstd::prelude::*;

verus! {

/// Token-bucket parameters of one venue.
#[derive(Debug, Clone, Copy, PartialEq, Eq, Structural)]
pub struct RateLimiterConfig {
    /// Sustained refill rate.
    pub requests_per_second: u32,
    /// Requests allowed at once before refill dominates.
    pub burst_size: u32,
}

impl RateLimiterConfig {
    pub fn new(requests_per_second: u32, burst_size: u32) -> (r: RateLimiterConfig)
        ensures
            r.requests_per_second == requests_per_second,
            r.burst_size == burst_size,
    {
        RateLimiterConfig { requests_per_second, burst_size }
    }

    /// Limits for the Polymarket order book: 10 per second, bursts of 20.
    pub fn polymarket_default() -> (r: RateLimiterConfig)
        ensures
            r.requests_per_second == 10,
            r.burst_size == 20,
    {
        RateLimiterConfig { requests_per_second: 10, burst_size: 20 }
    }

    /// Limits for Binance: 20 per second, bursts of 50.
    pub fn binance_default() -> (r: RateLimiterConfig)
        ensures
            r.requests_per_second == 20,
            r.burst_size == 50,
    {
        RateLimiterConfig { requests_per_second: 20, burst_size: 50 }
    }
}

impl Default for RateLimiterConfig {
    fn default() -> (r: RateLimiterConfig)
        ensures
            r.requests_per_second == 10,
            r.burst_size == 20,
    {
        RateLimiterConfig { requests_per_second: 10, burst_size: 20 }
    }
}

} // verus!
