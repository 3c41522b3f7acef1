//! Errors of the execution path.
use vstd::prelude::*;
use crate::order::OrderId;

verus! {

/// What can go wrong on the way from a strategy to a venue.
#[derive(Debug, Clone)]
pub enum ExecError {
    /// The order breaks a static bound.
    ValidationError(String),
    /// Pre-trade risk denied the order; one message per violated policy.
    RiskRejected { policies: Vec<String> },
    /// The venue's token bucket is empty (non-blocking check only).
    RateLimitExceeded { venue: String, message: String },
    /// The venue reported a failure.
    VenueError { venue: String, message: String, code: Option<String> },
    OrderNotFound(OrderId),
    VenueNotSupported(String),
    NetworkError(String),
    AuthenticationError(String),
    InvalidResponse(String),
    /// The operation is illegal in the order's current state.
    InvalidOrderState { order_id: OrderId, current_state: String, operation: String },
    ConfigError(String),
    Timeout(String),
    InternalError(String),
    WebSocketError(String),
}

pub open spec fn error_retryable(e: ExecError) -> bool {
    e is NetworkError || e is Timeout || e is RateLimitExceeded
}

pub type ExecResult<T> = Result<T, ExecError>;

impl ExecError {
    /// Transport failures and rate limiting may succeed when retried.
    pub fn is_retryable(&self) -> (r: bool)
        ensures
            r == error_retryable(*self),
    {
        match self {
            ExecError::NetworkError(_) | ExecError::Timeout(_)
            | ExecError::RateLimitExceeded { .. } => true,
            _ => false,
        }
    }

    pub fn is_rate_limit(&self) -> (r: bool)
        ensures
            r == (*self is RateLimitExceeded),
    {
        match self {
            ExecError::RateLimitExceeded { .. } => true,
            _ => false,
        }
    }

    pub fn is_risk_rejection(&self) -> (r: bool)
        ensures
            r == (*self is RiskRejected),
    {
        match self {
            ExecError::RiskRejected { .. } => true,
            _ => false,
        }
    }
}

} // verus!
