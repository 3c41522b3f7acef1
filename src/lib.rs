//! Order execution, pre-trade risk and strategy support for prediction and
//! derivative markets.
//!
//! Amounts are fixed-point integers (see `decimal`). The layers, leaves first:
//! - `order`, `error`: identifiers, orders, fills and the order lifecycle;
//! - `risk`, `simulator`: declarative risk policies with a kill-switch, and
//!   per-market position tracking that feeds them;
//! - `validator`, `tracker`, `engine`: the execution path's checks, the order
//!   store and the position ledger; venue calls and rate-limit waits happen
//!   between the engine's steps, in the caller;
//! - `ratelimit`, `venue`: per-venue limits and the venue's wire conventions;
//! - `strategy`, `context`, `coordinator`: what strategies see, their state
//!   and the routing of market events to them;
//! - `market_maker`, `arb`: two strategies;
//! - `fill_sim`, `backtest`: simulated fills and backtest runs;
//! - `storage`: persistence settings and SQL text;
//! - `text`: string helpers.
use vstd::prelude::*;

pub mod arb;
pub mod backtest;
pub mod context;
pub mod coordinator;
pub mod decimal;
pub mod engine;
pub mod error;
pub mod fill_sim;
pub mod market_maker;
pub mod order;
pub mod ratelimit;
pub mod risk;
pub mod simulator;
pub mod storage;
pub mod strategy;
pub mod text;
pub mod tracker;
pub mod validator;
pub mod venue;

verus! {

} // verus!
