//! Stateless bounds and consistency checks on new orders.
use vstd::prelude::*;
use vstd::string::*;
use crate::error::ExecError;
use crate::order::{Order, OrderType};

verus! {

/// Bounds that a new order must respect (fixed-point units).
#[derive(Debug, Clone)]
pub struct OrderValidator {
    min_size: i64,
    max_size: i64,
    min_price: i64,
    max_price: i64,
}

pub open spec fn needs_price(t: OrderType) -> bool {
    t == OrderType::Limit || t == OrderType::PostOnly
}

impl OrderValidator {
    pub closed spec fn bounds(&self) -> (int, int, int, int) {
        (self.min_size as int, self.max_size as int, self.min_price as int, self.max_price as int)
    }

    /// The first check that `o` fails, in the order the checks are made.
    pub open spec fn failure(&self, o: Order) -> Option<Seq<char>> {
        let (min_size, max_size, min_price, max_price) = self.bounds();
        if o.size < min_size {
            Some("Order size below minimum"@)
        } else if o.size > max_size {
            Some("Order size exceeds maximum"@)
        } else if o.size <= 0 {
            Some("Order size must be positive"@)
        } else if needs_price(o.order_type) && o.price is None {
            Some("Limit order must have a price"@)
        } else if needs_price(o.order_type) && o.price->0 < min_price {
            Some("Price below minimum"@)
        } else if needs_price(o.order_type) && o.price->0 > max_price {
            Some("Price exceeds maximum"@)
        } else if needs_price(o.order_type) && o.price->0 <= 0 {
            Some("Price must be positive"@)
        } else if o.order_type == OrderType::Market && o.price is Some {
            Some("Market order should not have a price"@)
        } else if o.market.0@.len() == 0 {
            Some("Market ID cannot be empty"@)
        } else if o.venue.0@.len() == 0 {
            Some("Venue ID cannot be empty"@)
        } else {
            None
        }
    }

    /// Default bounds: size in [0.01, 1 000 000], price in [0.0001, 1].
    pub fn new() -> (r: OrderValidator)
        ensures
            r.bounds() == (10_000int, 1_000_000_000_000int, 100int, 1_000_000int),
    {
        OrderValidator {
            min_size: 10_000,
            max_size: 1_000_000_000_000,
            min_price: 100,
            max_price: 1_000_000,
        }
    }

    pub fn custom(min_size: i64, max_size: i64, min_price: i64, max_price: i64) -> (r: OrderValidator)
        ensures
            r.bounds() == (min_size as int, max_size as int, min_price as int, max_price as int),
    {
        OrderValidator { min_size, max_size, min_price, max_price }
    }

    /// Accepts `order` or names the first bound it breaks. An accepted order
    /// has a positive size, a positive price when it is a limit or post-only
    /// order, and no price when it is a market order.
    pub fn validate(&self, order: &Order) -> (r: Result<(), ExecError>)
        ensures
            r is Ok <==> self.failure(*order) is None,
            r is Err ==> r->Err_0 is ValidationError
                && Some(r->Err_0->ValidationError_0@) == self.failure(*order),
            r is Ok ==> order.size > 0,
            r is Ok && needs_price(order.order_type) ==> order.price is Some && order.price->0 > 0,
            r is Ok && order.order_type == OrderType::Market ==> order.price is None,
    {
        if order.size < self.min_size {
            return Err(ExecError::ValidationError(String::from_str("Order size below minimum")));
        }
        if order.size > self.max_size {
            return Err(ExecError::ValidationError(String::from_str("Order size exceeds maximum")));
        }
        if order.size <= 0 {
            return Err(ExecError::ValidationError(String::from_str("Order size must be positive")));
        }
        if order.order_type == OrderType::Limit || order.order_type == OrderType::PostOnly {
            match order.price {
                Some(price) => {
                    if price < self.min_price {
                        return Err(ExecError::ValidationError(String::from_str("Price below minimum")));
                    }
                    if price > self.max_price {
                        return Err(
                            ExecError::ValidationError(String::from_str("Price exceeds maximum")),
                        );
                    }
                    if price <= 0 {
                        return Err(
                            ExecError::ValidationError(String::from_str("Price must be positive")),
                        );
                    }
                },
                None => {
                    return Err(
                        ExecError::ValidationError(String::from_str("Limit order must have a price")),
                    );
                },
            }
        }
        if order.order_type == OrderType::Market && order.price.is_some() {
            return Err(
                ExecError::ValidationError(String::from_str("Market order should not have a price")),
            );
        }
        if order.market.as_str().is_empty() {
            return Err(ExecError::ValidationError(String::from_str("Market ID cannot be empty")));
        }
        if order.venue.as_str().is_empty() {
            return Err(ExecError::ValidationError(String::from_str("Venue ID cannot be empty")));
        }
        Ok(())
    }

    pub fn set_min_size(&mut self, min_size: i64)
        ensures
            final(self).bounds() == (min_size as int, old(self).bounds().1, old(self).bounds().2, old(self).bounds().3),
    {
        self.min_size = min_size;
    }

    pub fn set_max_size(&mut self, max_size: i64)
        ensures
            final(self).bounds() == (old(self).bounds().0, max_size as int, old(self).bounds().2, old(self).bounds().3),
    {
        self.max_size = max_size;
    }

    pub fn set_min_price(&mut self, min_price: i64)
        ensures
            final(self).bounds() == (old(self).bounds().0, old(self).bounds().1, min_price as int, old(self).bounds().3),
    {
        self.min_price = min_price;
    }

    pub fn set_max_price(&mut self, max_price: i64)
        ensures
            final(self).bounds() == (old(self).bounds().0, old(self).bounds().1, old(self).bounds().2, max_price as int),
    {
        self.max_price = max_price;
    }
}

impl Default for OrderValidator {
    fn default() -> (r: OrderValidator)
        ensures
            r.bounds() == (10_000int, 1_000_000_000_000int, 100int, 1_000_000int),
    {
        OrderValidator::new()
    }
}

} // verus!
