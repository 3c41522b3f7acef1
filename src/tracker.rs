//! The order management store: live orders and the fills recorded on them.
use vstd::prelude::*;
use vstd::string::*;
use crate::error::ExecError;
use crate::order::{status_active, status_change_allowed, status_terminal, Fill, Order, OrderId, OrderStatus};

verus! {

/// An order together with the fills recorded on it, oldest first.
#[derive(Debug)]
pub struct TrackedOrder {
    pub order: Order,
    pub fills: Vec<Fill>,
}

/// Total size of `fills`.
pub open spec fn fills_size(fills: Seq<Fill>) -> int
    decreases fills.len(),
{
    if fills.len() == 0 {
        0
    } else {
        fills_size(fills.drop_last()) + fills.last().size
    }
}

/// Total of size times price over `fills`.
pub open spec fn fills_value(fills: Seq<Fill>) -> int
    decreases fills.len(),
{
    if fills.len() == 0 {
        0
    } else {
        fills_value(fills.drop_last()) + fills.last().size * fills.last().price
    }
}

/// Which orders a listing returns.
#[derive(Debug, Clone, Copy, PartialEq, Eq, Structural)]
pub enum Selection {
    All,
    Active,
    Terminal,
}

pub open spec fn selects(sel: Selection, s: OrderStatus) -> bool {
    match sel {
        Selection::All => true,
        Selection::Active => status_active(s),
        Selection::Terminal => status_terminal(s),
    }
}

/// The orders of `es` that `sel` picks, in tracking order.
pub open spec fn selected(es: Seq<TrackedOrder>, sel: Selection) -> Seq<Order>
    decreases es.len(),
{
    if es.len() == 0 {
        Seq::empty()
    } else {
        let prev = selected(es.drop_last(), sel);
        if selects(sel, es.last().order.status) {
            prev.push(es.last().order)
        } else {
            prev
        }
    }
}

/// The entries of `es` whose order is not terminal.
pub open spec fn live_entries(es: Seq<TrackedOrder>) -> Seq<TrackedOrder>
    decreases es.len(),
{
    if es.len() == 0 {
        Seq::empty()
    } else {
        let prev = live_entries(es.drop_last());
        if !status_terminal(es.last().order.status) {
            prev.push(es.last())
        } else {
            prev
        }
    }
}

pub open spec fn entry_wf(e: TrackedOrder) -> bool {
    &&& e.order.wf()
    &&& e.order.filled_size == fills_size(e.fills@)
    &&& e.order.fill_notional == fills_value(e.fills@)
    &&& forall|j: int| 0 <= j < e.fills@.len() ==> (#[trigger] e.fills@[j]).order_id == e.order.id
}

/// Holds orders keyed by id, in the order they were first tracked.
pub struct OrderTracker {
    entries: Vec<TrackedOrder>,
}

impl OrderTracker {
    pub closed spec fn entries(&self) -> Seq<TrackedOrder> {
        self.entries@
    }

    /// Ids are unique, every order is well formed, and its filled size and
    /// notional are the totals of its recorded fills.
    pub open spec fn inv(&self) -> bool {
        &&& forall|i: int, j: int|
            0 <= i < j < self.entries().len() ==> (#[trigger] self.entries()[i]).order.id
                != (#[trigger] self.entries()[j]).order.id
        &&& forall|i: int| 0 <= i < self.entries().len() ==> entry_wf(#[trigger] self.entries()[i])
    }

    pub open spec fn has(&self, id: OrderId) -> bool {
        exists|i: int| 0 <= i < self.entries().len() && (#[trigger] self.entries()[i]).order.id == id
    }

    /// Position of the order `id` among the entries.
    pub open spec fn slot(&self, id: OrderId) -> int {
        choose|i: int| 0 <= i < self.entries().len() && (#[trigger] self.entries()[i]).order.id == id
    }

    pub fn new() -> (r: OrderTracker)
        ensures
            r.inv(),
            r.entries().len() == 0,
    {
        OrderTracker { entries: Vec::new() }
    }

    proof fn lemma_slot_unique(&self, id: OrderId, i: int)
        requires
            self.inv(),
            0 <= i < self.entries().len(),
            self.entries()[i].order.id == id,
        ensures
            self.has(id),
            self.slot(id) == i,
    {
        assert(self.has(id));
        let j = self.slot(id);
        if j < i {
            assert(self.entries()[j].order.id != self.entries()[i].order.id);
        } else if i < j {
            assert(self.entries()[i].order.id != self.entries()[j].order.id);
        }
    }

    fn find(&self, id: &OrderId) -> (r: Option<usize>)
        requires
            self.inv(),
        ensures
            r is None <==> !self.has(*id),
            r is Some ==> r->0 == self.slot(*id) && 0 <= r->0 < self.entries().len()
                && self.entries()[r->0 as int].order.id == *id,
    {
        let mut i: usize = 0;
        while i < self.entries.len()
            invariant
                self.inv(),
                i <= self.entries@.len(),
                forall|k: int| 0 <= k < i ==> (#[trigger] self.entries@[k]).order.id != *id,
            decreases self.entries.len() - i,
        {
            if self.entries[i].order.id == *id {
                proof {
                    self.lemma_slot_unique(*id, i as int);
                }
                return Some(i);
            }
            i += 1;
        }
        None
    }

    /// Starts tracking `order`, replacing any order with the same id (and its
    /// fills). Only a well-formed order with nothing filled is accepted.
    pub fn track_order(&mut self, order: Order) -> (r: Result<(), ExecError>)
        requires
            old(self).inv(),
        ensures
            final(self).inv(),
            r is Ok <==> order.wf() && order.filled_size == 0,
            r is Err ==> r->Err_0 is ValidationError && final(self).entries() == old(self).entries(),
            r is Ok ==> final(self).has(order.id) && final(self).entries()[final(self).slot(order.id)].order
                == order && final(self).entries()[final(self).slot(order.id)].fills@.len() == 0,
            r is Ok ==> forall|id: OrderId|
                id != order.id ==> (final(self).has(id) == old(self).has(id)) && (old(self).has(id)
                    ==> final(self).entries()[final(self).slot(id)] == old(self).entries()[old(
                    self,
                ).slot(id)]),
    {
        if !order.is_well_formed() || order.filled_size != 0 {
            return Err(ExecError::ValidationError(String::from_str("Order is not well formed")));
        }
        let id = order.id;
        let entry = TrackedOrder { order, fills: Vec::new() };
        assert(entry.fills@ =~= Seq::<Fill>::empty());
        let idx: usize;
        match self.find(&id) {
            Some(i) => {
                self.entries.set(i, entry);
                idx = i;
            },
            None => {
                self.entries.push(entry);
                idx = (self.entries.len() - 1) as usize;
            },
        }
        assert(self.inv());
        proof {
            self.lemma_slot_unique(id, idx as int);
        }
        assert forall|k: OrderId| k != id implies (self.has(k) == old(self).has(k)) && (old(self).has(k)
            ==> self.entries()[self.slot(k)] == old(self).entries()[old(self).slot(k)]) by {
            if old(self).has(k) {
                let j = old(self).slot(k);
                assert(self.entries()[j].order.id == k);
                self.lemma_slot_unique(k, j);
            }
            if self.has(k) {
                let j = self.slot(k);
                assert(old(self).entries()[j].order.id == k);
            }
        }
        Ok(())
    }

    /// A copy of the order `order_id`.
    pub fn get_order(&self, order_id: &OrderId) -> (r: Result<Order, ExecError>)
        requires
            self.inv(),
        ensures
            r is Ok <==> self.has(*order_id),
            r is Ok ==> r->Ok_0 == self.entries()[self.slot(*order_id)].order,
            r is Err ==> r->Err_0 == ExecError::OrderNotFound(*order_id),
    {
        match self.find(order_id) {
            Some(i) => Ok(self.entries[i].order.clone()),
            None => Err(ExecError::OrderNotFound(*order_id)),
        }
    }

    /// Moves the order to `status` where the lifecycle permits it.
    pub fn update_status(&mut self, order_id: &OrderId, status: OrderStatus) -> (r: Result<(), ExecError>)
        requires
            old(self).inv(),
        ensures
            final(self).inv(),
            r is Err && !old(self).has(*order_id) ==> r->Err_0 == ExecError::OrderNotFound(*order_id),
            old(self).has(*order_id) ==> (r is Ok <==> status_change_allowed(
                old(self).entries()[old(self).slot(*order_id)].order.status,
                status,
            )),
            !old(self).has(*order_id) ==> r is Err,
            r is Err ==> final(self).entries() == old(self).entries(),
            r is Ok ==> final(self).entries().len() == old(self).entries().len()
                && final(self).entries()[old(self).slot(*order_id)].order.status == status
                && forall|i: int|
                0 <= i < old(self).entries().len() && i != old(self).slot(*order_id)
                    ==> final(self).entries()[i] == old(self).entries()[i],
    {
        match self.find(order_id) {
            Some(i) => {
                let mut entry = self.entries.remove(i);
                let current = entry.order.status;
                let ok = entry.order.update_status(status);
                assert(entry_wf(entry));
                self.entries.insert(i, entry);
                assert(self.entries@ =~= old(self).entries@.update(i as int, entry)) ;
                if ok {
                    Ok(())
                } else {
                    assert(entry == old(self).entries@[i as int]);
                    assert(self.entries@ =~= old(self).entries@);
                    Err(
                        ExecError::InvalidOrderState {
                            order_id: *order_id,
                            current_state: String::from_str(current.as_str()),
                            operation: String::from_str("update_status"),
                        },
                    )
                }
            },
            None => Err(ExecError::OrderNotFound(*order_id)),
        }
    }

    /// Records `fill` on the order `order_id` and returns the size taken:
    /// the fill clamped to what remains of the order, or nothing on a
    /// terminal order. The fill is kept with the size taken.
    pub fn record_fill(&mut self, order_id: &OrderId, fill: Fill) -> (r: Result<i64, ExecError>)
        requires
            old(self).inv(),
        ensures
            final(self).inv(),
            !old(self).has(*order_id) ==> r == Err::<i64, ExecError>(ExecError::OrderNotFound(*order_id)),
            old(self).has(*order_id) ==> (r is Ok <==> fill.size > 0 && fill.price > 0),
            r is Err ==> final(self).entries() == old(self).entries(),
            r is Ok ==> ({
                let k = old(self).slot(*order_id);
                let before = old(self).entries()[k];
                let after = final(self).entries()[k];
                let applied = r->Ok_0;
                &&& final(self).entries().len() == old(self).entries().len()
                &&& forall|i: int|
                    0 <= i < old(self).entries().len() && i != k ==> final(self).entries()[i]
                        == old(self).entries()[i]
                &&& applied == if status_terminal(before.order.status) {
                    0
                } else if fill.size < before.order.size - before.order.filled_size {
                    fill.size as int
                } else {
                    before.order.size - before.order.filled_size
                }
                &&& after.order.filled_size == before.order.filled_size + applied
                &&& after.order.id == before.order.id
                &&& status_terminal(before.order.status) ==> after == before
                &&& !status_terminal(before.order.status) ==> after.order.status == if after.order.filled_size
                    == after.order.size {
                    OrderStatus::Filled
                } else {
                    OrderStatus::PartiallyFilled
                }
                &&& !status_terminal(before.order.status) ==> after.fills@.len() == before.fills@.len() + 1
                    && after.fills@.drop_last() == before.fills@
                    && after.fills@.last().size == applied && after.fills@.last().price == fill.price
                    && after.fills@.last().order_id == *order_id && after.fills@.last().fill_id == fill.fill_id
            }),
    {
        let i = match self.find(order_id) {
            Some(i) => i,
            None => {
                return Err(ExecError::OrderNotFound(*order_id));
            },
        };
        if fill.size <= 0 || fill.price <= 0 {
            return Err(ExecError::ValidationError(String::from_str("Fill size and price must be positive")));
        }
        if self.entries[i].order.is_terminal() {
            return Ok(0);
        }
        let mut entry = self.entries.remove(i);
        let ghost before = entry;
        let applied = entry.order.record_fill(fill.size, fill.price);
        let kept = Fill {
            fill_id: fill.fill_id,
            order_id: *order_id,
            venue_order_id: fill.venue_order_id,
            price: fill.price,
            size: applied,
            fee: fill.fee,
            fee_currency: fill.fee_currency,
            timestamp: fill.timestamp,
            liquidity: fill.liquidity,
        };
        entry.fills.push(kept);
        assert(entry.fills@.drop_last() =~= before.fills@);
        assert(entry_wf(entry));
        self.entries.insert(i, entry);
        assert(self.entries@ =~= old(self).entries@.update(i as int, entry));
        Ok(applied)
    }

    /// Copies of the fills recorded on `order_id`, oldest first; empty for an
    /// unknown order.
    pub fn get_fills(&self, order_id: &OrderId) -> (r: Vec<Fill>)
        requires
            self.inv(),
        ensures
            self.has(*order_id) ==> r@ == self.entries()[self.slot(*order_id)].fills@,
            !self.has(*order_id) ==> r@.len() == 0,
    {
        match self.find(order_id) {
            Some(i) => {
                let src = &self.entries[i].fills;
                let mut out: Vec<Fill> = Vec::new();
                let mut j: usize = 0;
                while j < src.len()
                    invariant
                        j <= src@.len(),
                        out@ == src@.subrange(0, j as int),
                    decreases src.len() - j,
                {
                    out.push(src[j].clone());
                    assert(out@ =~= src@.subrange(0, j + 1));
                    j += 1;
                }
                assert(src@.subrange(0, src@.len() as int) =~= src@);
                out
            },
            None => Vec::new(),
        }
    }

    /// Copies of the orders that `sel` picks, in tracking order.
    pub fn orders(&self, sel: Selection) -> (r: Vec<Order>)
        requires
            self.inv(),
        ensures
            r@ == selected(self.entries(), sel),
    {
        let mut out: Vec<Order> = Vec::new();
        let mut i: usize = 0;
        while i < self.entries.len()
            invariant
                i <= self.entries@.len(),
                out@ == selected(self.entries@.subrange(0, i as int), sel),
            decreases self.entries.len() - i,
        {
            let o = &self.entries[i].order;
            assert(self.entries@.subrange(0, i + 1).drop_last() =~= self.entries@.subrange(0, i as int));
            let pick = match sel {
                Selection::All => true,
                Selection::Active => o.is_active(),
                Selection::Terminal => o.is_terminal(),
            };
            if pick {
                out.push(o.clone());
            }
            i += 1;
        }
        assert(self.entries@.subrange(0, self.entries@.len() as int) =~= self.entries@);
        out
    }

    pub fn get_all_orders(&self) -> (r: Vec<Order>)
        requires
            self.inv(),
        ensures
            r@ == selected(self.entries(), Selection::All),
    {
        self.orders(Selection::All)
    }

    /// Orders that are working or partially filled.
    pub fn get_active_orders(&self) -> (r: Vec<Order>)
        requires
            self.inv(),
        ensures
            r@ == selected(self.entries(), Selection::Active),
    {
        self.orders(Selection::Active)
    }

    /// Orders that are filled, cancelled, rejected or expired.
    pub fn get_terminal_orders(&self) -> (r: Vec<Order>)
        requires
            self.inv(),
        ensures
            r@ == selected(self.entries(), Selection::Terminal),
    {
        self.orders(Selection::Terminal)
    }

    /// Stops tracking `order_id` and hands its order back.
    pub fn remove_order(&mut self, order_id: &OrderId) -> (r: Result<Order, ExecError>)
        requires
            old(self).inv(),
        ensures
            final(self).inv(),
            r is Ok <==> old(self).has(*order_id),
            r is Ok ==> r->Ok_0 == old(self).entries()[old(self).slot(*order_id)].order
                && final(self).entries() == old(self).entries().remove(old(self).slot(*order_id)),
            r is Err ==> r->Err_0 == ExecError::OrderNotFound(*order_id) && final(self).entries()
                == old(self).entries(),
    {
        match self.find(order_id) {
            Some(i) => {
                let e = self.entries.remove(i);
                assert forall|a: int, b: int|
                    0 <= a < b < self.entries().len() implies (#[trigger] self.entries()[a]).order.id
                    != (#[trigger] self.entries()[b]).order.id by {
                    let a0 = if a < i { a } else { a + 1 };
                    let b0 = if b < i { b } else { b + 1 };
                    assert(self.entries()[a] == old(self).entries()[a0]);
                    assert(self.entries()[b] == old(self).entries()[b0]);
                }
                Ok(e.order)
            },
            None => Err(ExecError::OrderNotFound(*order_id)),
        }
    }

    /// Drops every terminal order with its fills; returns how many went.
    pub fn clear_terminal_orders(&mut self) -> (r: usize)
        requires
            old(self).inv(),
        ensures
            final(self).inv(),
            final(self).entries() == live_entries(old(self).entries()),
            r == old(self).entries().len() - final(self).entries().len(),
    {
        let ghost src = self.entries@;
        let n = self.entries.len();
        let mut kept: Vec<TrackedOrder> = Vec::new();
        let mut removed: usize = 0;
        let mut i: usize = 0;
        while i < n
            invariant
                n == src.len(),
                i <= n,
                self.entries@ == src.subrange(i as int, n as int),
                kept@ == live_entries(src.subrange(0, i as int)),
                removed == i - kept@.len(),
                kept@.len() <= i,
            decreases n - i,
        {
            let e = self.entries.remove(0);
            assert(e == src[i as int]);
            assert(src.subrange(0, i + 1).drop_last() =~= src.subrange(0, i as int));
            assert(self.entries@ =~= src.subrange(i + 1, n as int));
            if e.order.is_terminal() {
                removed += 1;
            } else {
                kept.push(e);
            }
            i += 1;
        }
        assert(src.subrange(0, n as int) =~= src);
        self.entries = kept;
        proof {
            self.lemma_live_entries_inv(src);
        }
        removed
    }

    proof fn lemma_live_entries_inv(&self, src: Seq<TrackedOrder>)
        requires
            self.entries() == live_entries(src),
            forall|i: int, j: int| 0 <= i < j < src.len() ==> (#[trigger] src[i]).order.id != (#[trigger] src[j]).order.id,
            forall|i: int| 0 <= i < src.len() ==> entry_wf(#[trigger] src[i]),
        ensures
            self.inv(),
    {
        lemma_live_entries_sub(src);
    }

    /// Number of tracked orders.
    pub fn count(&self) -> (r: usize)
        ensures
            r == self.entries().len(),
    {
        self.entries.len()
    }
}

/// The live entries of `src` are an order-preserving selection of it.
proof fn lemma_live_entries_sub(src: Seq<TrackedOrder>)
    requires
        forall|i: int, j: int| 0 <= i < j < src.len() ==> (#[trigger] src[i]).order.id != (#[trigger] src[j]).order.id,
        forall|i: int| 0 <= i < src.len() ==> entry_wf(#[trigger] src[i]),
    ensures
        forall|i: int, j: int| 0 <= i < j < live_entries(src).len() ==> (#[trigger] live_entries(src)[i]).order.id
            != (#[trigger] live_entries(src)[j]).order.id,
        forall|i: int| 0 <= i < live_entries(src).len() ==> entry_wf(#[trigger] live_entries(src)[i]),
        forall|i: int| 0 <= i < live_entries(src).len() ==> exists|m: int| 0 <= m < src.len() && #[trigger] live_entries(src)[i] == src[m],
    decreases src.len(),
{
    if src.len() > 0 {
        let p = src.drop_last();
        lemma_live_entries_sub(p);
        let lp = live_entries(p);
        if !status_terminal(src.last().order.status) {
            let l = live_entries(src);
            assert(l == lp.push(src.last()));
            assert forall|i: int| 0 <= i < l.len() implies exists|m: int| 0 <= m < src.len() && #[trigger] l[i] == src[m] by {
                if i < lp.len() {
                    let m = choose|m: int| 0 <= m < p.len() && lp[i] == p[m];
                    assert(l[i] == src[m]);
                } else {
                    assert(l[i] == src[src.len() - 1]);
                }
            }
            assert forall|i: int, j: int| 0 <= i < j < l.len() implies (#[trigger] l[i]).order.id != (#[trigger] l[j]).order.id by {
                if j == l.len() - 1 {
                    let m = choose|m: int| 0 <= m < p.len() && lp[i] == p[m];
                    assert(src[m] == p[m]);
                } else {
                    assert(l[i] == lp[i]);
                    assert(l[j] == lp[j]);
                }
            }
            assert forall|i: int| 0 <= i < l.len() implies entry_wf(#[trigger] l[i]) by {
                if i < lp.len() {
                    assert(l[i] == lp[i]);
                }
            }
        } else {
            assert forall|i: int| 0 <= i < lp.len() implies exists|m: int| 0 <= m < src.len() && #[trigger] lp[i] == src[m] by {
                let m = choose|m: int| 0 <= m < p.len() && lp[i] == p[m];
                assert(lp[i] == src[m]);
            }
        }
    }
}

impl Default for OrderTracker {
    fn default() -> (r: OrderTracker)
        ensures
            r.inv(),
            r.entries().len() == 0,
    {
        OrderTracker::new()
    }
}

/// The average fill price of a tracked order is the volume-weighted mean of
/// its recorded fills: `(sum of size * price) / (sum of size)`, rounded down
/// to a unit, and absent while nothing is filled.
pub proof fn lemma_average_is_volume_weighted(t: OrderTracker, i: int)
    requires
        t.inv(),
        0 <= i < t.entries().len(),
    ensures
        fills_size(t.entries()[i].fills@) > 0 ==> t.entries()[i].order.avg_fill_price == Some(
            (fills_value(t.entries()[i].fills@) / fills_size(t.entries()[i].fills@)) as i64,
        ),
        fills_size(t.entries()[i].fills@) == 0 ==> t.entries()[i].order.avg_fill_price is None,
{
    assert(entry_wf(t.entries()[i]));
}

} // verus!
