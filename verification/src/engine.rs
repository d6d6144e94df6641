//! The pricing engine: inventory state, the sliding demand window, and
//! the three pricing formulas combined into one weighted price.

use vstd::prelude::*;

use crate::math::floor_tenth_root;
use crate::math::lemma_pow13_mono;
use crate::math::lemma_scaled_pow13_in_range;
use crate::math::lemma_tenth_root_mono;
use crate::math::pow10;
use crate::math::pow13;
use crate::math::tenth_root;
use crate::window::fresh_count;
use crate::window::fresh_only;
use crate::window::is_fresh;
use crate::window::is_fresh_at;
use crate::window::lemma_aged_out_window_counts_zero;
use crate::window::lemma_fresh_only_push;
use vstd::arithmetic::div_mod::lemma_div_is_ordered;
use vstd::arithmetic::div_mod::lemma_div_multiples_vanish;

verus! {

/// Largest stock a machine can be built with. Keeps the fixed-point
/// bonding-curve power `sold^13 * 10^10` inside 128 bits.
pub const MAX_TOTAL_STOCK: u32 = 150;

/// Largest base price a machine can be built with, in tenths of a
/// currency unit. Keeps every price formula inside 64 bits.
pub const MAX_BASE_PRICE: u64 = 1_000_000_000_000;

/// Factor on the base price once the machine is empty.
pub const SURGE_MULTIPLIER: u64 = 3;

/// Demand sensitivity k = 0.05 as the fraction 1/20: each fresh sale in
/// the window adds one twentieth of the base price.
pub const DEMAND_GAIN_DENOM: u64 = 20;

/// Coefficient of the bonding curve `2 * sold^1.3 + base_price`.
pub const BONDING_COEFF: u64 = 2;

/// Result of one purchase attempt.
#[derive(Debug, PartialEq, Eq, Structural)]
pub enum PurchaseOutcome {
    /// One unit was sold; carries the price recomputed after the sale,
    /// in tenths of a currency unit.
    Sold(u64),
    /// The machine is empty; nothing changed.
    OutOfStock,
}

/// A vending machine that reprices its item after every sale.
///
/// Prices are fixed-point values counted in tenths of a currency unit;
/// every division rounds down. Timestamps are whole seconds on a
/// caller-supplied clock, so tests can drive time deterministically.
#[derive(Debug)]
pub struct PricingEngine {
    /// Price of the item at full stock, in tenths. Fixed at construction.
    pub base_price: u64,
    /// Stock the machine starts with. Fixed at construction.
    pub total_stock: u32,
    /// Units still in the machine.
    pub remaining_stock: u32,
    /// Units sold so far.
    pub purchase_count: u32,
    /// Time of the most recent sale, or of construction if none yet.
    pub last_purchase_time: u64,
    /// Timestamps of recent sales; pruned to the demand window on each sale.
    pub demand_window: Vec<u64>,
}

impl PricingEngine {
    /// Well-formedness: construction bounds on the fixed fields, stock
    /// inside `[0, total_stock]`, the count of sales exactly the stock
    /// drawn down so far, and a window no larger than that count.
    pub open spec fn wf(self) -> bool {
        &&& 1 <= self.base_price <= MAX_BASE_PRICE
        &&& 1 <= self.total_stock <= MAX_TOTAL_STOCK
        &&& self.remaining_stock <= self.total_stock
        &&& self.purchase_count + self.remaining_stock == self.total_stock
        &&& self.demand_window@.len() <= self.purchase_count
    }

    /// Units sold so far.
    pub open spec fn sold(self) -> int {
        self.total_stock - self.remaining_stock
    }

    /// Scarcity price: the base price grows linearly as stock drains,
    /// doubling as the last unit nears, and jumps to a fixed surge once
    /// the machine is empty.
    pub open spec fn spec_price_by_stock(self) -> int {
        if self.remaining_stock == 0 {
            SURGE_MULTIPLIER * self.base_price
        } else {
            (self.base_price * (2 * self.total_stock - self.remaining_stock)) as int
                / (self.total_stock as int)
        }
    }

    /// Demand price: the base price plus one twentieth of it for every
    /// sale still fresh in the window at `now`.
    pub open spec fn spec_price_by_demand(self, now: u64) -> int {
        (self.base_price * (DEMAND_GAIN_DENOM + fresh_count(self.demand_window@, now))) as int
            / (DEMAND_GAIN_DENOM as int)
    }

    /// Bonding-curve price: `2 * sold^1.3 + base_price`, with the power
    /// taken in fixed point as the floor tenth root of `sold^13 * 10^10`.
    pub open spec fn spec_price_by_bonding_curve(self) -> int {
        BONDING_COEFF * tenth_root(pow13(self.sold()) * pow10(10)) + self.base_price
    }

    /// The combined price: the three signals weighted 0.5, 0.3 and 0.2.
    pub open spec fn spec_current_price(self, now: u64) -> int {
        (5 * self.spec_price_by_stock() + 3 * self.spec_price_by_demand(now)
            + 2 * self.spec_price_by_bonding_curve()) / 10
    }

    /// Builds a full machine: nothing sold, an empty window, and the
    /// clock reading `now` as the time of last activity.
    pub fn new(base_price: u64, total_stock: u32, now: u64) -> (e: PricingEngine)
        requires
            1 <= base_price <= MAX_BASE_PRICE,
            1 <= total_stock <= MAX_TOTAL_STOCK,
        ensures
            e.wf(),
            e.base_price == base_price,
            e.total_stock == total_stock,
            e.remaining_stock == total_stock,
            e.purchase_count == 0,
            e.last_purchase_time == now,
            e.demand_window@ == Seq::<u64>::empty(),
    {
        PricingEngine {
            base_price,
            total_stock,
            remaining_stock: total_stock,
            purchase_count: 0,
            last_purchase_time: now,
            demand_window: Vec::new(),
        }
    }

    /// Scarcity price of the current state.
    pub fn price_by_stock(&self) -> (p: u64)
        requires
            self.wf(),
        ensures
            p as int == self.spec_price_by_stock(),
    {
        if self.remaining_stock == 0 {
            SURGE_MULTIPLIER * self.base_price
        } else {
            let scarcity: u32 = 2 * self.total_stock - self.remaining_stock;
            proof {
                assert((self.base_price as int) * (scarcity as int) <= 300000000000000)
                    by (nonlinear_arith)
                    requires
                        0 <= self.base_price as int <= 1000000000000,
                        0 <= scarcity as int <= 300,
                ;
            }
            let num: u128 = (self.base_price as u128) * (scarcity as u128);
            let q: u128 = num / (self.total_stock as u128);
            proof {
                let b = self.base_price as int;
                let t = self.total_stock as int;
                let s = scarcity as int;
                assert(b * s <= b * (2 * t)) by (nonlinear_arith)
                    requires
                        0 <= b,
                        0 <= s <= 2 * t,
                ;
                assert(b * (2 * t) == t * (2 * b)) by (nonlinear_arith);
                lemma_div_is_ordered(b * s, t * (2 * b), t);
                lemma_div_multiples_vanish(2 * b, t);
            }
            q as u64
        }
    }

    /// Demand price of the current state at `now`. The window is scanned
    /// in full: a read never trusts earlier pruning.
    pub fn price_by_demand(&self, now: u64) -> (p: u64)
        requires
            self.wf(),
        ensures
            p as int == self.spec_price_by_demand(now),
    {
        let mut count: u64 = 0;
        let mut i: usize = 0;
        while i < self.demand_window.len()
            invariant
                self.wf(),
                i <= self.demand_window@.len(),
                count <= i,
                count as nat == fresh_count(self.demand_window@.subrange(0, i as int), now),
            decreases self.demand_window@.len() - i,
        {
            proof {
                assert(self.demand_window@.subrange(0, i as int + 1) =~= self
                    .demand_window@
                    .subrange(0, i as int)
                    .push(self.demand_window@[i as int]));
                lemma_fresh_only_push(
                    self.demand_window@.subrange(0, i as int),
                    self.demand_window@[i as int],
                    now,
                );
            }
            if is_fresh(self.demand_window[i], now) {
                count = count + 1;
            }
            i = i + 1;
        }
        proof {
            assert(self.demand_window@.subrange(0, i as int) =~= self.demand_window@);
            assert((self.base_price as int) * (DEMAND_GAIN_DENOM + count) <= 170000000000000)
                by (nonlinear_arith)
                requires
                    0 <= self.base_price as int <= 1000000000000,
                    0 <= DEMAND_GAIN_DENOM + count <= 170,
            ;
        }
        let num: u64 = self.base_price * (DEMAND_GAIN_DENOM + count);
        let p: u64 = num / DEMAND_GAIN_DENOM;
        p
    }

    /// Bonding-curve price of the current state.
    pub fn price_by_bonding_curve(&self) -> (p: u64)
        requires
            self.wf(),
        ensures
            p as int == self.spec_price_by_bonding_curve(),
    {
        let sold: u32 = self.total_stock - self.remaining_stock;
        let s: u128 = sold as u128;
        proof {
            let si = s as int;
            assert(si * si <= 22500) by (nonlinear_arith)
                requires
                    0 <= si <= 150,
            ;
        }
        let s2: u128 = s * s;
        proof {
            let s2i = s2 as int;
            assert(s2i * s2i <= 506250000) by (nonlinear_arith)
                requires
                    0 <= s2i <= 22500,
            ;
        }
        let s4: u128 = s2 * s2;
        proof {
            let s4i = s4 as int;
            let si = s as int;
            assert(s4i * si <= 75937500000) by (nonlinear_arith)
                requires
                    0 <= s4i <= 506250000,
                    0 <= si <= 150,
            ;
        }
        let s5: u128 = s4 * s;
        proof {
            let s5i = s5 as int;
            assert(s5i * s5i <= 5766503906250000000000) by (nonlinear_arith)
                requires
                    0 <= s5i <= 75937500000,
            ;
        }
        let s10: u128 = s5 * s5;
        proof {
            let s10i = s10 as int;
            let s2i = s2 as int;
            assert(s10i * s2i <= 129746337890625000000000000) by (nonlinear_arith)
                requires
                    0 <= s10i <= 5766503906250000000000,
                    0 <= s2i <= 22500,
            ;
        }
        let s12: u128 = s10 * s2;
        proof {
            let s12i = s12 as int;
            let si = s as int;
            assert(s12i * si <= 19461950683593750000000000000) by (nonlinear_arith)
                requires
                    0 <= s12i <= 129746337890625000000000000,
                    0 <= si <= 150,
            ;
        }
        let s13: u128 = s12 * s;
        let x: u128 = s13 * 10000000000;
        proof {
            lemma_scaled_pow13_in_range();
            assert(s13 as int == pow13(self.sold()));
            lemma_pow13_mono(self.sold(), 150);
            assert(x as int <= pow13(150) * pow10(10));
        }
        let root: u64 = floor_tenth_root(x);
        proof {
            assert(root as int == tenth_root(pow13(self.sold()) * pow10(10)));
        }
        BONDING_COEFF * root + self.base_price
    }

    /// The combined price at `now`. A pure read: two calls on one state
    /// with one clock reading return the same value, and the result has
    /// no ceiling beyond what the bounded state allows.
    pub fn current_price(&self, now: u64) -> (p: u64)
        requires
            self.wf(),
        ensures
            p as int == self.spec_current_price(now),
    {
        let p1: u64 = self.price_by_stock();
        let p2: u64 = self.price_by_demand(now);
        let p3: u64 = self.price_by_bonding_curve();
        let sum: u128 = 5 * (p1 as u128) + 3 * (p2 as u128) + 2 * (p3 as u128);
        let q: u128 = sum / 10;
        proof {
            let m = if p1 as int >= p2 as int && p1 as int >= p3 as int {
                p1 as int
            } else if p2 as int >= p3 as int {
                p2 as int
            } else {
                p3 as int
            };
            lemma_div_is_ordered(sum as int, 10 * m, 10);
            lemma_div_multiples_vanish(m, 10);
        }
        q as u64
    }

    /// One purchase attempt at `now`. On an empty machine nothing moves
    /// and the outcome says so; otherwise one unit leaves, the sale is
    /// recorded, stale window entries are dropped, and the outcome
    /// carries the price recomputed for the new state.
    pub fn purchase(&mut self, now: u64) -> (out: PurchaseOutcome)
        requires
            old(self).wf(),
        ensures
            final(self).wf(),
            final(self).remaining_stock + final(self).purchase_count == final(self).total_stock,
            old(self).remaining_stock == 0 ==> *final(self) == *old(self) && out
                == PurchaseOutcome::OutOfStock,
            old(self).remaining_stock > 0 ==> {
                &&& final(self).base_price == old(self).base_price
                &&& final(self).total_stock == old(self).total_stock
                &&& final(self).remaining_stock == old(self).remaining_stock - 1
                &&& final(self).purchase_count == old(self).purchase_count + 1
                &&& final(self).last_purchase_time == now
                &&& final(self).demand_window@ == fresh_only(
                    old(self).demand_window@,
                    now,
                ).push(now)
                &&& (out matches PurchaseOutcome::Sold(p) && p as int
                    == final(self).spec_current_price(now))
            },
    {
        if self.remaining_stock == 0 {
            return PurchaseOutcome::OutOfStock;
        }
        self.remaining_stock = self.remaining_stock - 1;
        self.purchase_count = self.purchase_count + 1;
        self.last_purchase_time = now;

        let mut kept: Vec<u64> = Vec::new();
        let mut i: usize = 0;
        while i < self.demand_window.len()
            invariant
                i <= self.demand_window@.len(),
                kept@.len() <= i,
                kept@ == fresh_only(self.demand_window@.subrange(0, i as int), now),
            decreases self.demand_window@.len() - i,
        {
            proof {
                assert(self.demand_window@.subrange(0, i as int + 1) =~= self
                    .demand_window@
                    .subrange(0, i as int)
                    .push(self.demand_window@[i as int]));
                lemma_fresh_only_push(
                    self.demand_window@.subrange(0, i as int),
                    self.demand_window@[i as int],
                    now,
                );
            }
            let t: u64 = self.demand_window[i];
            if is_fresh(t, now) {
                kept.push(t);
            }
            i = i + 1;
        }
        proof {
            assert(self.demand_window@.subrange(0, i as int) =~= self.demand_window@);
        }
        kept.push(now);
        self.demand_window = kept;

        let p: u64 = self.current_price(now);
        PurchaseOutcome::Sold(p)
    }
}

/// Law: on every well-formed engine the stock drawn down and the stock
/// still in the machine account for the whole initial stock. `purchase`
/// keeps engines well-formed, so this holds after every purchase.
pub proof fn lemma_stock_conservation(e: PricingEngine)
    requires
        e.wf(),
    ensures
        e.remaining_stock + e.purchase_count == e.total_stock,
{
}

/// Law: at full stock the scarcity price is exactly the base price.
pub proof fn lemma_stock_price_at_full_stock(e: PricingEngine)
    requires
        e.wf(),
        e.remaining_stock == e.total_stock,
    ensures
        e.spec_price_by_stock() == e.base_price,
{
    let b = e.base_price as int;
    let t = e.total_stock as int;
    assert(b * t == t * b) by (nonlinear_arith);
    lemma_div_multiples_vanish(b, t);
}

/// Law: on an empty machine the scarcity price is exactly the base
/// price times the surge multiplier.
pub proof fn lemma_stock_price_when_exhausted(e: PricingEngine)
    requires
        e.remaining_stock == 0,
    ensures
        e.spec_price_by_stock() == SURGE_MULTIPLIER * e.base_price,
{
}

/// Law: before any sale the bonding-curve price is exactly the base
/// price.
pub proof fn lemma_bonding_price_before_sales(e: PricingEngine)
    requires
        e.wf(),
        e.purchase_count == 0,
    ensures
        e.spec_price_by_bonding_curve() == e.base_price,
{
    assert(pow13(0) == 0);
    assert(pow13(0) * pow10(10) == 0);
    assert(tenth_root(0) == 0);
}

/// Law: with a window that is empty or whose entries have all aged out
/// at `now`, the demand price is exactly the base price.
pub proof fn lemma_demand_price_of_idle_window(e: PricingEngine, now: u64)
    requires
        e.wf(),
        forall|i: int| 0 <= i < e.demand_window@.len() ==> !is_fresh_at(e.demand_window@[i], now),
    ensures
        e.spec_price_by_demand(now) == e.base_price,
{
    lemma_aged_out_window_counts_zero(e.demand_window@, now);
    let b = e.base_price as int;
    assert(b * 20 == 20 * b) by (nonlinear_arith);
    lemma_div_multiples_vanish(b, 20);
}

/// Law: the bonding-curve price never decreases as cumulative sales
/// grow, for machines sharing one base price.
pub proof fn lemma_bonding_price_monotone(e1: PricingEngine, e2: PricingEngine)
    requires
        e1.wf(),
        e2.wf(),
        e1.base_price == e2.base_price,
        e1.sold() <= e2.sold(),
    ensures
        e1.spec_price_by_bonding_curve() <= e2.spec_price_by_bonding_curve(),
{
    lemma_pow13_mono(e1.sold(), e2.sold());
    lemma_scaled_pow13_in_range();
    lemma_tenth_root_mono(pow13(e1.sold()) * pow10(10), pow13(e2.sold()) * pow10(10));
}

} // verus!
