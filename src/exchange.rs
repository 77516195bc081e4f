use vstd::prelude::*;

use crate::basis::{fair_value, fair_value_of, MAX_STOCKS, MAX_WEIGHT};
use crate::fixed::{MAX_PRICE, SCALE};
use crate::models::{Fill, Order, Side, Tick};

verus! {

/// Largest number of simulated instruments.
pub const MAX_INSTRUMENTS: usize = 1000;

/// In-process market: per instrument a mid price, the half-spread of the
/// published quotes, and the distance from the mid at which orders execute
/// (zero to fill at the mid, the half-spread to fill at the touch). Every
/// order is filled at once and in full.
pub struct Exchange {
    pub mid: Vec<i64>,
    pub half_spread: Vec<i64>,
    pub fill_offset: Vec<i64>,
}

pub open spec fn price_ok(p: int) -> bool {
    0 < p <= MAX_PRICE
}

/// `mid * (1 + shock)`, with `shock` in fixed point, truncated.
pub open spec fn walked(mid: int, shock: int) -> int {
    mid * (SCALE + shock) / (SCALE as int)
}

/// `a * b * (1 + noise)` in fixed point: a cross rate from two legs.
pub open spec fn crossed(a: int, b: int, noise: int) -> int {
    walked(a * b / (SCALE as int), noise)
}

/// The basket's fair price `fair2 / SCALE` times `(1 + noise)`.
pub open spec fn basket_priced(fair2: int, noise: int) -> int {
    walked(fair2 / (SCALE as int), noise)
}

/// Execution price `offset` away from the mid: above it for a buy, below it
/// for a sell.
pub open spec fn exec_price(mid: int, offset: int, side: Side) -> int {
    match side {
        Side::Buy => mid + offset,
        Side::Sell => mid - offset,
    }
}

impl Exchange {
    pub open spec fn wf(&self) -> bool {
        &&& self.mid@.len() == self.half_spread@.len()
        &&& self.mid@.len() == self.fill_offset@.len()
        &&& self.mid@.len() <= MAX_INSTRUMENTS
        &&& forall|i: int| 0 <= i < self.mid@.len() ==> price_ok(#[trigger] self.mid@[i] as int)
        &&& forall|i: int|
            0 <= i < self.half_spread@.len() ==> 0 <= #[trigger] self.half_spread@[i] <= MAX_PRICE
        &&& forall|i: int|
            0 <= i < self.fill_offset@.len() ==> 0 <= #[trigger] self.fill_offset@[i] <= MAX_PRICE
    }

    pub fn new(mid: Vec<i64>, half_spread: Vec<i64>, fill_offset: Vec<i64>) -> (r: Exchange)
        requires
            (Exchange { mid, half_spread, fill_offset }).wf(),
        ensures
            r.wf(),
            r.mid == mid,
            r.half_spread == half_spread,
            r.fill_offset == fill_offset,
    {
        Exchange { mid, half_spread, fill_offset }
    }

    fn set_checked(&mut self, i: usize, p: i128) -> (r: bool)
        requires
            old(self).wf(),
            i < old(self).mid@.len(),
        ensures
            final(self).wf(),
            final(self).half_spread == old(self).half_spread,
            final(self).fill_offset == old(self).fill_offset,
            r == price_ok(p as int),
            r ==> final(self).mid@ == old(self).mid@.update(i as int, p as i64),
            !r ==> final(self).mid == old(self).mid,
    {
        if 0 < p && p <= MAX_PRICE as i128 {
            self.mid.set(i, p as i64);
            true
        } else {
            false
        }
    }

    /// Moves instrument `i` by a relative shock (fixed point, `-1 < shock`).
    /// A move that would leave the price range is not applied.
    pub fn walk(&mut self, i: usize, shock: i64) -> (r: bool)
        requires
            old(self).wf(),
            i < old(self).mid@.len(),
            -SCALE < shock <= SCALE,
        ensures
            final(self).wf(),
            final(self).half_spread == old(self).half_spread,
            final(self).fill_offset == old(self).fill_offset,
            ({
                let p = walked(old(self).mid@[i as int] as int, shock as int);
                &&& r == price_ok(p)
                &&& r ==> final(self).mid@ == old(self).mid@.update(i as int, p as i64)
                &&& !r ==> final(self).mid == old(self).mid
            }),
    {
        let m = self.mid[i] as i128;
        proof {
            assert(0 <= m * (SCALE + shock) <= MAX_PRICE * (2 * SCALE)) by (nonlinear_arith)
                requires
                    0 < m <= MAX_PRICE,
                    0 < SCALE + shock <= 2 * SCALE,
            ;
        }
        let p = m * ((SCALE as i128) + (shock as i128)) / (SCALE as i128);
        self.set_checked(i, p)
    }

    /// Moves instrument `i` by `delta`. A move that would leave the price
    /// range is not applied.
    pub fn shift(&mut self, i: usize, delta: i64) -> (r: bool)
        requires
            old(self).wf(),
            i < old(self).mid@.len(),
        ensures
            final(self).wf(),
            final(self).half_spread == old(self).half_spread,
            final(self).fill_offset == old(self).fill_offset,
            r == price_ok(old(self).mid@[i as int] + delta),
            r ==> final(self).mid@ == old(self).mid@.update(i as int, (old(self).mid@[i as int] + delta) as i64),
            !r ==> final(self).mid == old(self).mid,
    {
        let p = (self.mid[i] as i128) + (delta as i128);
        self.set_checked(i, p)
    }

    /// Prices instrument `target` as the cross of legs `a` and `b` with a
    /// relative mispricing `noise`.
    pub fn reprice_cross(&mut self, target: usize, a: usize, b: usize, noise: i64) -> (r: bool)
        requires
            old(self).wf(),
            target < old(self).mid@.len(),
            a < old(self).mid@.len(),
            b < old(self).mid@.len(),
            -SCALE < noise <= SCALE,
        ensures
            final(self).wf(),
            final(self).half_spread == old(self).half_spread,
            final(self).fill_offset == old(self).fill_offset,
            ({
                let p = crossed(old(self).mid@[a as int] as int, old(self).mid@[b as int] as int, noise as int);
                &&& r == price_ok(p)
                &&& r ==> final(self).mid@ == old(self).mid@.update(target as int, p as i64)
                &&& !r ==> final(self).mid == old(self).mid
            }),
    {
        let pa = self.mid[a] as i128;
        let pb = self.mid[b] as i128;
        proof {
            assert(0 <= pa * pb <= MAX_PRICE * MAX_PRICE) by (nonlinear_arith)
                requires
                    0 < pa <= MAX_PRICE,
                    0 < pb <= MAX_PRICE,
            ;
        }
        let c = pa * pb / (SCALE as i128);
        proof {
            assert(0 <= c <= MAX_PRICE * MAX_PRICE / (SCALE as int)) by (nonlinear_arith)
                requires
                    0 <= pa * pb <= MAX_PRICE * MAX_PRICE,
                    c == pa * pb / (SCALE as int),
            ;
            assert(0 <= c * (SCALE + noise) <= (MAX_PRICE * MAX_PRICE / (SCALE as int)) * (2 * SCALE))
                by (nonlinear_arith)
                requires
                    0 <= c <= MAX_PRICE * MAX_PRICE / (SCALE as int),
                    0 < SCALE + noise <= 2 * SCALE,
            ;
        }
        let p = c * ((SCALE as i128) + (noise as i128)) / (SCALE as i128);
        self.set_checked(target, p)
    }

    /// Prices instrument `target` at the fair value of a basket of the first
    /// `weights.len()` instruments, with a relative deviation `noise`.
    pub fn reprice_basket(&mut self, target: usize, weights: &Vec<i64>, noise: i64) -> (r: bool)
        requires
            old(self).wf(),
            target < old(self).mid@.len(),
            weights@.len() <= MAX_STOCKS,
            weights@.len() <= old(self).mid@.len(),
            forall|i: int| 0 <= i < weights@.len() ==> 0 <= #[trigger] weights@[i] <= MAX_WEIGHT,
            -SCALE < noise <= SCALE,
        ensures
            final(self).wf(),
            final(self).half_spread == old(self).half_spread,
            final(self).fill_offset == old(self).fill_offset,
            ({
                let p = basket_priced(
                    fair_value(weights@, old(self).mid@, weights@.len() as int),
                    noise as int,
                );
                &&& r == price_ok(p)
                &&& r ==> final(self).mid@ == old(self).mid@.update(target as int, p as i64)
                &&& !r ==> final(self).mid == old(self).mid
            }),
    {
        let fair = fair_value_of(weights, &self.mid);
        let c = fair / (SCALE as i128);
        proof {
            assert(0 <= c <= MAX_STOCKS * (MAX_WEIGHT * MAX_PRICE)) by (nonlinear_arith)
                requires
                    0 <= (fair as int) <= MAX_STOCKS * (MAX_WEIGHT * MAX_PRICE),
                    c == (fair as int) / (SCALE as int),
            ;
            assert(0 <= c * (SCALE + noise) <= (MAX_STOCKS * (MAX_WEIGHT * MAX_PRICE)) * (2 * SCALE))
                by (nonlinear_arith)
                requires
                    0 <= c <= MAX_STOCKS * (MAX_WEIGHT * MAX_PRICE),
                    0 < SCALE + noise <= 2 * SCALE,
            ;
        }
        let p = c * ((SCALE as i128) + (noise as i128)) / (SCALE as i128);
        self.set_checked(target, p)
    }

    /// One tick per instrument, bid and ask a half-spread either side of the mid.
    pub fn ticks(&self, ts_ms: u64) -> (r: Vec<Tick>)
        requires
            self.wf(),
        ensures
            r@.len() == self.mid@.len(),
            forall|i: int|
                0 <= i < r@.len() ==> #[trigger] r@[i] == (Tick {
                    instrument: i as usize,
                    bid: (self.mid@[i] - self.half_spread@[i]) as i64,
                    ask: (self.mid@[i] + self.half_spread@[i]) as i64,
                    ts_ms,
                }),
    {
        let mut r: Vec<Tick> = Vec::new();
        let mut i: usize = 0;
        while i < self.mid.len()
            invariant
                self.wf(),
                0 <= i <= self.mid@.len(),
                r@.len() == i,
                forall|k: int|
                    0 <= k < i ==> #[trigger] r@[k] == (Tick {
                        instrument: k as usize,
                        bid: (self.mid@[k] - self.half_spread@[k]) as i64,
                        ask: (self.mid@[k] + self.half_spread@[k]) as i64,
                        ts_ms,
                    }),
            decreases self.mid@.len() - i,
        {
            let m = self.mid[i];
            let h = self.half_spread[i];
            r.push(Tick { instrument: i, bid: m - h, ask: m + h, ts_ms });
            i = i + 1;
        }
        r
    }

    /// Fills an order at once and in full, at its instrument's fill offset
    /// from the mid.
    pub fn fill(&self, ord: &Order) -> (r: Fill)
        requires
            self.wf(),
            ord.instrument < self.mid@.len(),
        ensures
            r == (Fill {
                instrument: ord.instrument,
                side: ord.side,
                qty: ord.qty,
                px: exec_price(
                    self.mid@[ord.instrument as int] as int,
                    self.fill_offset@[ord.instrument as int] as int,
                    ord.side,
                ) as i64,
            }),
    {
        let m = self.mid[ord.instrument];
        let h = self.fill_offset[ord.instrument];
        let px = match ord.side {
            Side::Buy => m + h,
            Side::Sell => m - h,
        };
        Fill { instrument: ord.instrument, side: ord.side, qty: ord.qty, px }
    }
}

} // verus!
