//! Position and PnL tracking per market for binary-outcome markets, used to
//! feed risk checks.
use vstd::prelude::*;
use vstd::string::*;
use crate::decimal::{abs, SCALE};
use crate::strategy::{fits, trunc_div, trunc_div_i128};
use crate::text::string_eq;

verus! {

/// One market's holding. `invested_capital` is in `SCALE * SCALE` units
/// (size times price).
#[derive(Debug, Clone, Copy, PartialEq, Eq, Structural)]
pub struct MarketPosition {
    pub size: i64,
    pub avg_price: i64,
    pub invested_capital: i128,
    pub current_price: i64,
}

pub open spec fn capital_bounded(p: MarketPosition) -> bool {
    abs(p.invested_capital as int) <= abs(p.size as int) * (i64::MAX as int)
}

/// The holding after trading `size` at `price` (also the new mark): flat
/// when the size nets to zero; opened at `price` from flat or when the sign
/// flips; on adding in the same direction the capital grows and the average
/// is capital over size; on reducing the capital shrinks in proportion and
/// the average stays. `None` for a price that is not positive, or when the
/// size or average would not fit.
pub open spec fn sim_step(p: MarketPosition, size: int, price: int) -> Option<MarketPosition> {
    let n = p.size + size;
    if price <= 0 || !fits(n) {
        None
    } else if n == 0 {
        Some(MarketPosition { size: 0, avg_price: 0, invested_capital: 0, current_price: price as i64 })
    } else if p.size == 0 || (p.size > 0) != (n > 0) {
        Some(MarketPosition { size: n as i64, avg_price: price as i64, invested_capital: (n * price) as i128, current_price: price as i64 })
    } else if (size >= 0) == (p.size > 0) {
        let capital = p.invested_capital + size * price;
        let avg = trunc_div(capital, n);
        if fits(avg) {
            Some(MarketPosition { size: n as i64, avg_price: avg as i64, invested_capital: capital as i128, current_price: price as i64 })
        } else {
            None
        }
    } else {
        let capital = trunc_div(p.invested_capital as int, abs(p.size as int) as int) * (abs(p.size as int) - abs(size));
        Some(MarketPosition { size: n as i64, avg_price: p.avg_price, invested_capital: capital as i128, current_price: price as i64 })
    }
}

/// Unrealized PnL of a holding: market value less invested capital, in units.
pub open spec fn pnl_of(p: MarketPosition) -> int {
    if p.size == 0 { 0 } else { trunc_div(p.size * p.current_price - p.invested_capital, SCALE as int) }
}

/// Value of a holding at its mark, in units.
pub open spec fn value_of(p: MarketPosition) -> int {
    trunc_div(abs(p.size * p.current_price) as int, SCALE as int)
}

pub open spec fn index_of(s: Seq<(String, MarketPosition)>, m: Seq<char>) -> Option<int>
    decreases s.len(),
{
    if s.len() == 0 {
        None
    } else if s.last().0@ == m {
        Some(s.len() - 1)
    } else {
        index_of(s.drop_last(), m)
    }
}

pub open spec fn total_value(s: Seq<(String, MarketPosition)>) -> int
    decreases s.len(),
{
    if s.len() == 0 { 0 } else { total_value(s.drop_last()) + value_of(s.last().1) }
}

pub open spec fn total_pnl(s: Seq<(String, MarketPosition)>) -> int
    decreases s.len(),
{
    if s.len() == 0 { 0 } else { total_pnl(s.drop_last()) + pnl_of(s.last().1) }
}

/// Markets of `s` holding a position, in order.
pub open spec fn active(s: Seq<(String, MarketPosition)>) -> Seq<Seq<char>>
    decreases s.len(),
{
    if s.len() == 0 {
        Seq::empty()
    } else if s.last().1.size != 0 {
        active(s.drop_last()).push(s.last().0@)
    } else {
        active(s.drop_last())
    }
}

proof fn lemma_index(s: Seq<(String, MarketPosition)>, m: Seq<char>)
    ensures
        index_of(s, m) is Some ==> 0 <= index_of(s, m)->0 < s.len() && s[index_of(s, m)->0].0@ == m,
        index_of(s, m) is None ==> forall|k: int| 0 <= k < s.len() ==> (#[trigger] s[k]).0@ != m,
    decreases s.len(),
{
    if s.len() > 0 {
        lemma_index(s.drop_last(), m);
        if s.last().0@ != m {
            if let Some(k) = index_of(s.drop_last(), m) {
                assert(s.drop_last()[k] == s[k]);
            } else {
                assert forall|k: int| 0 <= k < s.len() implies (#[trigger] s[k]).0@ != m by {
                    if k < s.len() - 1 {
                        assert(s.drop_last()[k] == s[k]);
                    }
                }
            }
        }
    }
}

proof fn lemma_index_update(s: Seq<(String, MarketPosition)>, i: int, p: MarketPosition, m: Seq<char>)
    requires
        0 <= i < s.len(),
    ensures
        index_of(s.update(i, (s[i].0, p)), m) == index_of(s, m),
    decreases s.len(),
{
    let t = s.update(i, (s[i].0, p));
    if i < s.len() - 1 {
        assert(t.drop_last() =~= s.drop_last().update(i, (s[i].0, p)));
        assert(s.drop_last()[i] == s[i]);
        lemma_index_update(s.drop_last(), i, p, m);
    } else {
        assert(t.drop_last() =~= s.drop_last());
    }
}

proof fn lemma_totals_bounded(s: Seq<(String, MarketPosition)>)
    requires
        forall|i: int| 0 <= i < s.len() ==> capital_bounded(#[trigger] s[i].1),
    ensures
        abs(total_value(s)) <= s.len() * 0x4000_0000_0000_0000_0000_0000_0000,
        abs(total_pnl(s)) <= s.len() * 0x4000_0000_0000_0000_0000_0000_0000,
    decreases s.len(),
{
    if s.len() > 0 {
        assert forall|i: int| 0 <= i < s.drop_last().len() implies capital_bounded(#[trigger] s.drop_last()[i].1) by {
            assert(s.drop_last()[i] == s[i]);
        }
        lemma_totals_bounded(s.drop_last());
        let p = s.last().1;
        assert(capital_bounded(s[s.len() - 1].1));
        assert(abs(p.size as int) * (i64::MAX as int) <= 0x4000_0000_0000_0000_0000_0000_0000_0000) by (nonlinear_arith)
            requires i64::MIN <= p.size <= i64::MAX;
        let a = abs(p.size * p.current_price);
        assert(a <= 0x4000_0000_0000_0000_0000_0000_0000_0000) by (nonlinear_arith)
            requires i64::MIN <= p.size <= i64::MAX, i64::MIN <= p.current_price <= i64::MAX, a == abs(p.size * p.current_price);
        assert(a / 1_000_000 <= 0x4000_0000_0000_0000_0000_0000_0000) by (nonlinear_arith)
            requires a <= 0x4000_0000_0000_0000_0000_0000_0000_0000;
        let b = abs(p.size * p.current_price - p.invested_capital);
        assert(b <= 0x8000_0000_0000_0000_0000_0000_0000_0000 + abs(p.invested_capital as int));
        assert(b / 1_000_000 <= 0x4000_0000_0000_0000_0000_0000_0000) by (nonlinear_arith)
            requires b <= 0x8000_0000_0000_0000_0000_0000_0000_0000 + 0x8000_0000_0000_0000_0000_0000_0000_0000;
    }
}

/// Holdings per market, in the order markets were first traded.
pub struct PolymarketSimulator {
    positions: Vec<(String, MarketPosition)>,
}

impl PolymarketSimulator {
    pub closed spec fn holdings(&self) -> Seq<(String, MarketPosition)> {
        self.positions@
    }

    pub open spec fn holding(&self, m: Seq<char>) -> Option<MarketPosition> {
        match index_of(self.holdings(), m) {
            Some(i) => Some(self.holdings()[i].1),
            None => None,
        }
    }

    pub open spec fn inv(&self) -> bool {
        &&& forall|i: int, j: int| 0 <= i < j < self.holdings().len() ==> (#[trigger] self.holdings()[i]).0@ != (#[trigger] self.holdings()[j]).0@
        &&& forall|i: int| 0 <= i < self.holdings().len() ==> capital_bounded(#[trigger] self.holdings()[i].1)
    }

    pub fn new() -> (r: PolymarketSimulator)
        ensures
            r.inv(),
            r.holdings().len() == 0,
    {
        PolymarketSimulator { positions: Vec::new() }
    }

    fn find(&self, market_id: &str) -> (r: Option<usize>)
        ensures
            r is Some <==> index_of(self.holdings(), market_id@) is Some,
            r is Some ==> r->0 as int == index_of(self.holdings(), market_id@)->0,
    {
        let mut i = self.positions.len();
        assert(self.positions@.subrange(0, i as int) =~= self.positions@);
        while i > 0
            invariant
                i <= self.positions@.len(),
                index_of(self.positions@, market_id@) == index_of(self.positions@.subrange(0, i as int), market_id@),
            decreases i,
        {
            assert(self.positions@.subrange(0, i as int).drop_last() =~= self.positions@.subrange(0, i - 1));
            if string_eq(&self.positions[i - 1].0, market_id) {
                return Some(i - 1);
            }
            i -= 1;
        }
        None
    }

    /// Trades `size` (signed) in `market_id` at `price`, which also becomes
    /// the mark (see `sim_step`); a market is opened flat at `price` first.
    /// Returns false, changing nothing but that opening, when a figure would
    /// not fit.
    pub fn update_position(&mut self, market_id: &str, size: i64, price: i64) -> (r: bool)
        requires
            old(self).inv(),
        ensures
            final(self).inv(),
            ({
                let before = match old(self).holding(market_id@) {
                    Some(p) => p,
                    None => MarketPosition { size: 0, avg_price: 0, invested_capital: 0, current_price: price },
                };
                &&& r == sim_step(before, size as int, price as int) is Some
                &&& r ==> final(self).holding(market_id@) == sim_step(before, size as int, price as int)
            }),
            forall|m: Seq<char>| m != market_id@ ==> final(self).holding(m) == old(self).holding(m),
    {
        proof {
            lemma_index(self.positions@, market_id@);
        }
        let i = match self.find(market_id) {
            Some(i) => i,
            None => {
                let ghost s0 = self.positions@;
                let key = String::from_str(market_id);
                let fresh = MarketPosition { size: 0, avg_price: 0, invested_capital: 0, current_price: price };
                self.positions.push((key, fresh));
                proof {
                    assert(self.positions@.drop_last() =~= s0);
                    assert forall|a: int, b: int| 0 <= a < b < self.positions@.len() implies (#[trigger] self.positions@[a]).0@ != (#[trigger] self.positions@[b]).0@ by {
                        assert(self.positions@[a] == s0[a]);
                        if b < s0.len() {
                            assert(self.positions@[b] == s0[b]);
                        }
                    }
                    assert forall|k: int| 0 <= k < self.positions@.len() implies capital_bounded(#[trigger] self.positions@[k].1) by {
                        if k < s0.len() {
                            assert(self.positions@[k] == s0[k]);
                        }
                    }
                    assert forall|m: Seq<char>| m != market_id@ implies self.holding(m) == old(self).holding(m) by {
                        lemma_index(s0, m);
                        if let Some(k) = index_of(s0, m) {
                            assert(self.positions@[k] == s0[k]);
                        }
                    }
                    assert(index_of(self.positions@, market_id@) == Some(s0.len() as int));
                }
                (self.positions.len() - 1) as usize
            },
        };
        let ghost s1 = self.positions@;
        proof {
            lemma_index(s1, market_id@);
            assert(s1[i as int].0@ == market_id@);
        }
        let p = self.positions[i].1;
        assert(p == (match old(self).holding(market_id@) {
            Some(q) => q,
            None => MarketPosition { size: 0, avg_price: 0, invested_capital: 0, current_price: price },
        }));
        let next = match step(p, size, price) {
            Some(q) => q,
            None => {
                return false;
            },
        };
        let key = self.positions[i].0.clone();
        self.positions.set(i, (key, next));
        proof {
            assert(self.positions@ == s1.update(i as int, (s1[i as int].0, next)));
            assert forall|a: int, b: int| 0 <= a < b < self.positions@.len() implies (#[trigger] self.positions@[a]).0@ != (#[trigger] self.positions@[b]).0@ by {
                assert(s1[a].0@ != s1[b].0@);
            }
            lemma_index_update(s1, i as int, next, market_id@);
            assert forall|m: Seq<char>| m != market_id@ implies self.holding(m) == old(self).holding(m) by {
                lemma_index_update(s1, i as int, next, m);
                lemma_index(s1, m);
                if index_of(s1, m) is Some {
                    assert(index_of(s1, m)->0 != i);
                }
            }
        }
        true
    }

    /// Size held in `market_id` (zero when none).
    pub fn get_position(&self, market_id: &str) -> (r: i64)
        ensures
            r == match self.holding(market_id@) { Some(p) => p.size, None => 0 },
    {
        proof {
            lemma_index(self.positions@, market_id@);
        }
        match self.find(market_id) {
            Some(i) => self.positions[i].1.size,
            None => 0,
        }
    }

    /// Average entry price in `market_id` (zero when none).
    pub fn get_avg_price(&self, market_id: &str) -> (r: i64)
        ensures
            r == match self.holding(market_id@) { Some(p) => p.avg_price, None => 0 },
    {
        proof {
            lemma_index(self.positions@, market_id@);
        }
        match self.find(market_id) {
            Some(i) => self.positions[i].1.avg_price,
            None => 0,
        }
    }

    /// Unrealized PnL in `market_id` (zero when none).
    pub fn get_unrealized_pnl(&self, market_id: &str) -> (r: i128)
        requires
            self.inv(),
        ensures
            r == match self.holding(market_id@) { Some(p) => pnl_of(p), None => 0 },
    {
        match self.find(market_id) {
            Some(i) => {
                proof {
                    lemma_index(self.positions@, market_id@);
                }
                pnl(&self.positions[i].1)
            },
            None => 0,
        }
    }

    /// Sum over markets of the absolute value held at the mark.
    pub fn get_inventory_value_usd(&self) -> (r: i128)
        requires
            self.inv(),
            self.holdings().len() < 0x1000,
        ensures
            r == total_value(self.holdings()),
    {
        let mut total: i128 = 0;
        let mut i: usize = 0;
        while i < self.positions.len()
            invariant
                self.inv(),
                i <= self.positions@.len(),
                self.positions@.len() < 0x1000,
                total == total_value(self.positions@.subrange(0, i as int)),
            decreases self.positions.len() - i,
        {
            let ghost next = self.positions@.subrange(0, i + 1);
            assert(next.drop_last() =~= self.positions@.subrange(0, i as int));
            proof {
                assert forall|k: int| 0 <= k < next.len() implies capital_bounded(#[trigger] next[k].1) by {
                    assert(next[k] == self.positions@[k]);
                    assert(capital_bounded(self.holdings()[k].1));
                }
                lemma_totals_bounded(next);
            }
            let p = self.positions[i].1;
            proof {
                assert(abs(p.size * p.current_price) <= 0x4000_0000_0000_0000_0000_0000_0000_0000) by (nonlinear_arith)
                    requires i64::MIN <= p.size <= i64::MAX, i64::MIN <= p.current_price <= i64::MAX;
            }
            let v = p.size as i128 * p.current_price as i128;
            let av = if v < 0 { -v } else { v };
            total = total + trunc_div_i128(av, SCALE as i128);
            i += 1;
        }
        assert(self.positions@.subrange(0, self.positions@.len() as int) =~= self.positions@);
        total
    }

    /// Sum over markets of the unrealized PnL.
    pub fn get_total_pnl(&self) -> (r: i128)
        requires
            self.inv(),
            self.holdings().len() < 0x1000,
        ensures
            r == total_pnl(self.holdings()),
    {
        let mut total: i128 = 0;
        let mut i: usize = 0;
        while i < self.positions.len()
            invariant
                self.inv(),
                i <= self.positions@.len(),
                self.positions@.len() < 0x1000,
                total == total_pnl(self.positions@.subrange(0, i as int)),
            decreases self.positions.len() - i,
        {
            let ghost next = self.positions@.subrange(0, i + 1);
            assert(next.drop_last() =~= self.positions@.subrange(0, i as int));
            proof {
                assert forall|k: int| 0 <= k < next.len() implies capital_bounded(#[trigger] next[k].1) by {
                    assert(next[k] == self.positions@[k]);
                    assert(capital_bounded(self.holdings()[k].1));
                }
                lemma_totals_bounded(next);
            }
            total = total + pnl(&self.positions[i].1);
            i += 1;
        }
        assert(self.positions@.subrange(0, self.positions@.len() as int) =~= self.positions@);
        total
    }

    /// Forgets every holding.
    pub fn reset(&mut self)
        ensures
            final(self).inv(),
            final(self).holdings().len() == 0,
    {
        self.positions.clear();
    }

    /// Markets holding a position, in the order they were first traded.
    pub fn get_active_markets(&self) -> (r: Vec<String>)
        ensures
            r@.map_values(|s: String| s@) == active(self.holdings()),
    {
        let mut out: Vec<String> = Vec::new();
        let mut i: usize = 0;
        while i < self.positions.len()
            invariant
                i <= self.positions@.len(),
                out@.map_values(|s: String| s@) == active(self.positions@.subrange(0, i as int)),
            decreases self.positions.len() - i,
        {
            assert(self.positions@.subrange(0, i + 1).drop_last() =~= self.positions@.subrange(0, i as int));
            if self.positions[i].1.size != 0 {
                let ghost o0 = out@;
                out.push(self.positions[i].0.clone());
                assert(out@.map_values(|s: String| s@) =~= o0.map_values(|s: String| s@).push(self.positions@[i as int].0@));
            }
            i += 1;
        }
        assert(self.positions@.subrange(0, self.positions@.len() as int) =~= self.positions@);
        out
    }

    /// The holding in `market_id` with its unrealized PnL.
    pub fn get_position_details(&self, market_id: &str) -> (r: Option<PositionDetails>)
        requires
            self.inv(),
        ensures
            r is Some <==> self.holding(market_id@) is Some,
            r is Some ==> ({
                let p = self.holding(market_id@)->0;
                let d = r->0;
                d.size == p.size && d.avg_price == p.avg_price && d.current_price == p.current_price
                    && d.invested_capital == p.invested_capital && d.unrealized_pnl == pnl_of(p)
            }),
    {
        match self.find(market_id) {
            Some(i) => {
                proof {
                    lemma_index(self.positions@, market_id@);
                }
                let p = self.positions[i].1;
                Some(PositionDetails {
                    size: p.size,
                    avg_price: p.avg_price,
                    current_price: p.current_price,
                    invested_capital: p.invested_capital,
                    unrealized_pnl: pnl(&p),
                })
            },
            None => None,
        }
    }
}

impl Default for PolymarketSimulator {
    fn default() -> (r: PolymarketSimulator)
        ensures
            r.inv(),
            r.holdings().len() == 0,
    {
        PolymarketSimulator::new()
    }
}

/// A holding as reported: invested capital in `SCALE * SCALE` units,
/// unrealized PnL in units.
#[derive(Debug, Clone, Copy, PartialEq, Eq, Structural)]
pub struct PositionDetails {
    pub size: i64,
    pub avg_price: i64,
    pub current_price: i64,
    pub invested_capital: i128,
    pub unrealized_pnl: i128,
}

fn pnl(p: &MarketPosition) -> (r: i128)
    requires
        capital_bounded(*p),
    ensures
        r == pnl_of(*p),
{
    if p.size == 0 {
        return 0;
    }
    proof {
        assert(abs(p.size * p.current_price) <= 0x4000_0000_0000_0000_0000_0000_0000_0000) by (nonlinear_arith)
            requires i64::MIN <= p.size <= i64::MAX, i64::MIN <= p.current_price <= i64::MAX;
        assert(abs(p.size as int) * (i64::MAX as int) <= 0x3fff_ffff_ffff_ffff_c000_0000_0000_0000) by (nonlinear_arith)
            requires i64::MIN <= p.size <= i64::MAX;
    }
    trunc_div_i128(p.size as i128 * p.current_price as i128 - p.invested_capital, SCALE as i128)
}

fn step(p: MarketPosition, size: i64, price: i64) -> (r: Option<MarketPosition>)
    requires
        capital_bounded(p),
    ensures
        r == sim_step(p, size as int, price as int),
        r is Some ==> capital_bounded(r->0),
{
    if price <= 0 {
        return None;
    }
    let n = p.size as i128 + size as i128;
    if n < i64::MIN as i128 || n > i64::MAX as i128 {
        return None;
    }
    proof {
        assert(abs(n * price) <= abs(n as int) * (i64::MAX as int)) by (nonlinear_arith)
            requires 0 < price <= i64::MAX;
        assert(abs(n as int) * (i64::MAX as int) <= 0x4000_0000_0000_0000_0000_0000_0000_0000) by (nonlinear_arith)
            requires i64::MIN <= n <= i64::MAX;
    }
    if n == 0 {
        return Some(MarketPosition { size: 0, avg_price: 0, invested_capital: 0, current_price: price });
    }
    if p.size == 0 || (p.size > 0) != (n > 0) {
        return Some(MarketPosition { size: n as i64, avg_price: price, invested_capital: n * price as i128, current_price: price });
    }
    if (size >= 0) == (p.size > 0) {
        proof {
            assert(abs(size * price) <= abs(size as int) * (i64::MAX as int)) by (nonlinear_arith)
                requires 0 < price <= i64::MAX;
            assert(abs(n as int) == abs(p.size as int) + abs(size as int));
            assert(abs(p.size as int) * (i64::MAX as int) + abs(size as int) * (i64::MAX as int) == abs(n as int) * (i64::MAX as int)) by (nonlinear_arith)
                requires abs(n as int) == abs(p.size as int) + abs(size as int);
        }
        let capital = p.invested_capital + size as i128 * price as i128;
        let avg = trunc_div_i128(capital, n);
        if avg < i64::MIN as i128 || avg > i64::MAX as i128 {
            return None;
        }
        Some(MarketPosition { size: n as i64, avg_price: avg as i64, invested_capital: capital, current_price: price })
    } else {
        let held: i128 = if p.size < 0 { -(p.size as i128) } else { p.size as i128 };
        let traded: i128 = if size < 0 { -(size as i128) } else { size as i128 };
        proof {
            assert(abs(p.invested_capital as int) <= held * (i64::MAX as int));
            assert(p.invested_capital > i128::MIN);
        }
        let per_unit = trunc_div_i128(p.invested_capital, held);
        proof {
            assert(abs(per_unit as int) <= i64::MAX) by (nonlinear_arith)
                requires
                    abs(per_unit as int) == abs(p.invested_capital as int) / (held as nat),
                    abs(p.invested_capital as int) <= held * (i64::MAX as int),
                    held > 0;
            assert(abs(n as int) == held - traded);
            assert(abs(per_unit * (held - traded)) <= (held - traded) * (i64::MAX as int)) by (nonlinear_arith)
                requires abs(per_unit as int) <= i64::MAX, 0 <= traded < held;
            assert((held - traded) * (i64::MAX as int) <= 0x4000_0000_0000_0000_0000_0000_0000_0000) by (nonlinear_arith)
                requires 0 <= traded < held, held <= 0x8000_0000_0000_0000;
        }
        let capital = per_unit * (held - traded);
        Some(MarketPosition { size: n as i64, avg_price: p.avg_price, invested_capital: capital, current_price: price })
    }
}

} // verus!
