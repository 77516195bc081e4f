use vstd::prelude::*;

use crate::fixed::{scale_down, scale_down_spec, MAX_PRICE, SCALE};
use crate::models::{fill_delta, Fill, Order, Side, Tick};

verus! {

/// Largest spread multiplier at full inventory, in fixed point.
pub const MAX_MULT: i64 = 1_000_000_000;

/// Largest quantity of one fill, in fixed point.
pub const MAX_FILL_QTY: i64 = 1_000_000_000_000_000;

/// Parameters of the inventory-skew quoter, all in fixed point.
#[derive(Clone, Copy, Debug, PartialEq, Eq, Structural)]
pub struct MmCfg {
    /// Half-spread when flat.
    pub half_spread: i64,
    /// Quantity per quote side.
    pub size: i64,
    /// Inventory hard limit.
    pub inv_limit: i64,
    /// Extra spread at the limit, as a multiple of the half-spread.
    pub inv_spread_mult: i64,
}

impl MmCfg {
    pub open spec fn wf(&self) -> bool {
        &&& 0 <= self.half_spread <= MAX_PRICE
        &&& 0 < self.inv_limit
        &&& 0 <= self.inv_spread_mult <= MAX_MULT
    }
}

/// `|inv / limit|` clamped to one, in fixed point, truncated.
pub open spec fn skew_abs(inv: int, limit: int) -> int {
    let a = if inv >= 0 { inv } else { -inv };
    let r = a * SCALE / (limit as int);
    if r > SCALE { SCALE as int } else { r }
}

/// `half_spread * (1 + |skew| * mult)`, each product truncated.
pub open spec fn skewed_half(cfg: MmCfg, inv: int) -> int {
    let extra = skew_abs(inv, cfg.inv_limit as int) * cfg.inv_spread_mult / (SCALE as int);
    cfg.half_spread * (SCALE + extra) / (SCALE as int)
}

/// Symmetric two-sided quoter whose half-spread widens with inventory.
pub struct InventoryMm {
    pub cfg: MmCfg,
    pub inv: i64,
    pub pnl: i128,
}

impl InventoryMm {
    pub open spec fn wf(&self) -> bool {
        self.cfg.wf() && self.inv > i64::MIN
    }

    pub fn new(cfg: MmCfg) -> (r: InventoryMm)
        requires
            cfg.wf(),
        ensures
            r.wf(),
            r.cfg == cfg,
            r.inv == 0,
            r.pnl == 0,
    {
        InventoryMm { cfg, inv: 0, pnl: 0 }
    }

    /// Bid and ask around the tick's mid, `half` away on each side.
    pub fn quote(&self, tick: &Tick) -> (r: (i64, i64))
        requires
            self.wf(),
            0 <= tick.bid <= MAX_PRICE,
            0 <= tick.ask <= MAX_PRICE,
        ensures
            r.0 == (tick.bid + tick.ask) / 2 - skewed_half(self.cfg, self.inv as int),
            r.1 == (tick.bid + tick.ask) / 2 + skewed_half(self.cfg, self.inv as int),
    {
        let mid: i64 = ((tick.bid as i128 + tick.ask as i128) / 2) as i64;
        let a: i128 = if self.inv >= 0 {
            self.inv as i128
        } else {
            -(self.inv as i128)
        };
        let limit = self.cfg.inv_limit as i128;
        proof {
            assert(0 <= a * SCALE <= 10_000_000_000_000_000_000_000_000) by (nonlinear_arith)
                requires
                    0 <= a <= 9_223_372_036_854_775_808int,
            ;
            assert(a * SCALE / (limit as int) <= a * SCALE) by (nonlinear_arith)
                requires
                    0 <= a * SCALE,
                    1 <= limit,
            ;
            assert(0 <= a * SCALE / (limit as int)) by (nonlinear_arith)
                requires
                    0 <= a * SCALE,
                    1 <= limit,
            ;
        }
        let r0: i128 = a * (SCALE as i128) / limit;
        let skew: i128 = if r0 > SCALE as i128 {
            SCALE as i128
        } else {
            r0
        };
        proof {
            assert(0 <= skew * self.cfg.inv_spread_mult <= SCALE * MAX_MULT) by (nonlinear_arith)
                requires
                    0 <= skew <= SCALE,
                    0 <= self.cfg.inv_spread_mult <= MAX_MULT,
            ;
        }
        let extra: i128 = skew * (self.cfg.inv_spread_mult as i128) / (SCALE as i128);
        proof {
            assert(0 <= extra <= MAX_MULT) by (nonlinear_arith)
                requires
                    0 <= skew * self.cfg.inv_spread_mult <= SCALE * MAX_MULT,
                    extra == skew * self.cfg.inv_spread_mult / (SCALE as int),
            ;
            assert(0 <= self.cfg.half_spread * (SCALE + extra) <= MAX_PRICE * (SCALE + MAX_MULT))
                by (nonlinear_arith)
                requires
                    0 <= self.cfg.half_spread <= MAX_PRICE,
                    0 <= extra <= MAX_MULT,
            ;
        }
        let half: i128 = (self.cfg.half_spread as i128) * ((SCALE as i128) + extra) / (SCALE as i128);
        proof {
            assert(half <= MAX_PRICE * (SCALE + MAX_MULT) / (SCALE as int)) by (nonlinear_arith)
                requires
                    0 <= self.cfg.half_spread * (SCALE + extra) <= MAX_PRICE * (SCALE + MAX_MULT),
                    half == self.cfg.half_spread * (SCALE + extra) / (SCALE as int),
            ;
        }
        (((mid as i128) - half) as i64, ((mid as i128) + half) as i64)
    }

    /// Books a fill: inventory moves by the signed quantity and cash by the
    /// opposite of its value.
    pub fn on_fill(&mut self, f: &Fill)
        requires
            old(self).wf(),
            0 <= f.qty <= MAX_FILL_QTY,
            0 <= f.px <= MAX_PRICE,
            i64::MIN < old(self).inv + fill_delta(f.side, f.qty as int) <= i64::MAX,
            i128::MIN < old(self).pnl - scale_down_spec(fill_delta(f.side, f.qty as int) * f.px)
                <= i128::MAX,
        ensures
            final(self).wf(),
            final(self).cfg == old(self).cfg,
            final(self).inv == old(self).inv + fill_delta(f.side, f.qty as int),
            final(self).pnl == old(self).pnl - scale_down_spec(fill_delta(f.side, f.qty as int) * f.px),
    {
        let d: i128 = f.side.signed(f.qty) as i128;
        proof {
            assert(-MAX_FILL_QTY * MAX_PRICE <= d * f.px <= MAX_FILL_QTY * MAX_PRICE) by (nonlinear_arith)
                requires
                    -MAX_FILL_QTY <= d <= MAX_FILL_QTY,
                    0 <= f.px <= MAX_PRICE,
            ;
        }
        self.inv = ((self.inv as i128) + d) as i64;
        self.pnl = self.pnl - scale_down(d * (f.px as i128));
    }

    pub fn inv(&self) -> (r: i64)
        ensures
            r == self.inv,
    {
        self.inv
    }

    /// Cash from fills, in fixed point.
    pub fn pnl(&self) -> (r: i128)
        ensures
            r == self.pnl,
    {
        self.pnl
    }

    /// Inventory if `ord` were filled.
    pub fn inv_after(&self, ord: &Order) -> (r: i64)
        requires
            ord.qty > i64::MIN,
            i64::MIN <= self.inv + fill_delta(ord.side, ord.qty as int) <= i64::MAX,
        ensures
            r == self.inv + fill_delta(ord.side, ord.qty as int),
    {
        ((self.inv as i128) + (ord.side.signed(ord.qty) as i128)) as i64
    }

    /// The two quotes for a tick: a buy at the bid and a sell at the ask,
    /// `size` each.
    pub fn quote_orders(&self, tick: &Tick) -> (r: Vec<Order>)
        requires
            self.wf(),
            0 <= tick.bid <= MAX_PRICE,
            0 <= tick.ask <= MAX_PRICE,
        ensures
            r@ == seq![
                Order {
                    instrument: tick.instrument,
                    side: Side::Buy,
                    qty: self.cfg.size,
                    limit_px: Some(((tick.bid + tick.ask) / 2 - skewed_half(self.cfg, self.inv as int)) as i64),
                },
                Order {
                    instrument: tick.instrument,
                    side: Side::Sell,
                    qty: self.cfg.size,
                    limit_px: Some(((tick.bid + tick.ask) / 2 + skewed_half(self.cfg, self.inv as int)) as i64),
                },
            ],
    {
        let (bid, ask) = self.quote(tick);
        let mut r: Vec<Order> = Vec::new();
        r.push(Order { instrument: tick.instrument, side: Side::Buy, qty: self.cfg.size, limit_px: Some(bid) });
        r.push(Order { instrument: tick.instrument, side: Side::Sell, qty: self.cfg.size, limit_px: Some(ask) });
        proof {
            assert(r@ =~= seq![
                Order { instrument: tick.instrument, side: Side::Buy, qty: self.cfg.size, limit_px: Some(bid) },
                Order { instrument: tick.instrument, side: Side::Sell, qty: self.cfg.size, limit_px: Some(ask) },
            ]);
        }
        r
    }
}

} // verus!
