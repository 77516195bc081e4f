use vstd::prelude::*;

use crate::fixed::{abs_qty, mul_fp, mul_fp_spec, scale_down, scale_down_spec};
use crate::models::{fill_delta, Fill, Order, Side};
use crate::window::{z_score, RollingWindow, MAX_LOOKBACK};

verus! {

/// Instrument id of the first leg.
pub const LEG_A: usize = 0;

/// Instrument id of the second leg.
pub const LEG_B: usize = 1;

/// Largest magnitude of a log-price, in fixed point (1000.0, beyond the
/// log of any finite double).
pub const MAX_LOG: i64 = 1_000_000_000;

/// Largest hedge ratio, in fixed point.
pub const MAX_BETA: i64 = 1_000_000_000;

/// Largest order size, in fixed point.
pub const MAX_SIZE: i64 = 1_000_000_000_000;

/// Floor on the spread's standard deviation, in fixed-point units.
pub const SPREAD_EPS: i64 = 1;

/// Parameters of the pair trader; decimal values are fixed point.
#[derive(Clone, Copy, Debug, PartialEq, Eq, Structural)]
pub struct StratCfg {
    pub lookback: usize,
    /// Hedge ratio in `spread = log P_A - beta * log P_B`.
    pub beta: i64,
    pub entry_z: i64,
    pub exit_z: i64,
    pub size: i64,
    pub pos_limit: i64,
}

impl StratCfg {
    pub open spec fn wf(&self) -> bool {
        &&& 1 <= self.lookback <= MAX_LOOKBACK
        &&& 0 <= self.beta <= MAX_BETA
        &&& 0 <= self.size <= MAX_SIZE
        &&& 0 <= self.pos_limit
    }
}

/// `log_a - beta * log_b`, the product truncated toward zero.
pub open spec fn spread_of(beta: int, log_a: int, log_b: int) -> int {
    log_a - scale_down_spec(beta * log_b)
}

/// The orders that a z-score `z` calls for, given the current legs'
/// inventories and prices: an entry on either side when `|z|` is past the
/// entry threshold and the first leg stays within the limit, then a
/// flattening pair when `|z|` is inside the exit band and a leg is open.
pub open spec fn pair_orders(
    cfg: StratCfg,
    pos_a: int,
    pos_b: int,
    z: int,
    a_px: i64,
    b_px: i64,
) -> Seq<Order> {
    let hedge = mul_fp_spec(cfg.size as int, cfg.beta as int) as i64;
    let entry = if z > cfg.entry_z && pos_a - cfg.size >= -cfg.pos_limit {
        seq![
            Order { instrument: LEG_A, side: Side::Sell, qty: cfg.size, limit_px: Some(a_px) },
            Order { instrument: LEG_B, side: Side::Buy, qty: hedge, limit_px: Some(b_px) },
        ]
    } else if z < -cfg.entry_z && pos_a + cfg.size <= cfg.pos_limit {
        seq![
            Order { instrument: LEG_A, side: Side::Buy, qty: cfg.size, limit_px: Some(a_px) },
            Order { instrument: LEG_B, side: Side::Sell, qty: hedge, limit_px: Some(b_px) },
        ]
    } else {
        Seq::empty()
    };
    let abs_a = if pos_a >= 0 { pos_a } else { -pos_a };
    let abs_b = if pos_b >= 0 { pos_b } else { -pos_b };
    let exit = if -cfg.exit_z < z < cfg.exit_z && (pos_a != 0 || pos_b != 0) {
        seq![
            Order {
                instrument: LEG_A,
                side: Side::closing_spec(pos_a),
                qty: abs_a as i64,
                limit_px: Some(a_px),
            },
            Order {
                instrument: LEG_B,
                side: Side::closing_spec(pos_b),
                qty: abs_b as i64,
                limit_px: Some(b_px),
            },
        ]
    } else {
        Seq::empty()
    };
    entry + exit
}

/// Rolling z-score pair trader over the spread of two log-prices.
pub struct PairTrader {
    pub cfg: StratCfg,
    pub spread: RollingWindow,
    pub pos_a: i64,
    pub pos_b: i64,
}

impl PairTrader {
    pub open spec fn wf(&self) -> bool {
        &&& self.cfg.wf()
        &&& self.spread.wf()
        &&& self.spread.capacity_spec() == self.cfg.lookback
        &&& self.pos_a > i64::MIN
        &&& self.pos_b > i64::MIN
    }

    pub fn new(cfg: StratCfg) -> (r: PairTrader)
        requires
            cfg.wf(),
        ensures
            r.wf(),
            r.cfg == cfg,
            r.spread.view() == Seq::<i64>::empty(),
            r.pos_a == 0,
            r.pos_b == 0,
    {
        PairTrader { cfg, spread: RollingWindow::new(cfg.lookback), pos_a: 0, pos_b: 0 }
    }

    pub fn pos_a(&self) -> (r: i64)
        ensures
            r == self.pos_a,
    {
        self.pos_a
    }

    pub fn pos_b(&self) -> (r: i64)
        ensures
            r == self.pos_b,
    {
        self.pos_b
    }

    /// Takes the latest prices of both legs with their natural logarithms
    /// (fixed point), rolls the spread window and proposes orders. Nothing is
    /// proposed until the window holds `lookback` spreads.
    pub fn on_ticks(&mut self, a_px: i64, b_px: i64, log_a: i64, log_b: i64) -> (r: Vec<Order>)
        requires
            old(self).wf(),
            -MAX_LOG <= log_a <= MAX_LOG,
            -MAX_LOG <= log_b <= MAX_LOG,
        ensures
            final(self).wf(),
            final(self).cfg == old(self).cfg,
            final(self).pos_a == old(self).pos_a,
            final(self).pos_b == old(self).pos_b,
            final(self).spread.view() == (if old(self).spread.view().len() < old(self).cfg.lookback {
                old(self).spread.view().push(
                    spread_of(old(self).cfg.beta as int, log_a as int, log_b as int) as i64,
                )
            } else {
                old(self).spread.view().drop_first().push(
                    spread_of(old(self).cfg.beta as int, log_a as int, log_b as int) as i64,
                )
            }),
            final(self).spread.view().len() <= old(self).cfg.lookback,
            final(self).spread.view().len() < old(self).cfg.lookback ==> r@ == Seq::<Order>::empty(),
            final(self).spread.view().len() == old(self).cfg.lookback ==> r@ == pair_orders(
                old(self).cfg,
                old(self).pos_a as int,
                old(self).pos_b as int,
                z_score(final(self).spread.view(), SPREAD_EPS as int),
                a_px,
                b_px,
            ),
    {
        proof {
            assert(-1_000_000_000_000_000_000 <= self.cfg.beta * log_b <= 1_000_000_000_000_000_000)
                by (nonlinear_arith)
                requires
                    0 <= self.cfg.beta <= MAX_BETA,
                    -MAX_LOG <= log_b <= MAX_LOG,
            ;
        }
        let prod: i128 = (self.cfg.beta as i128) * (log_b as i128);
        let spread: i128 = (log_a as i128) - scale_down(prod);
        self.spread.push(spread as i64);
        if !self.spread.is_full() {
            return Vec::new();
        }
        let z = self.spread.z_last(SPREAD_EPS);
        let cfg = self.cfg;
        let pos_a = self.pos_a;
        let pos_b = self.pos_b;
        proof {
            assert(0 <= mul_fp_spec(cfg.size as int, cfg.beta as int) <= 1_000_000_000_000_000)
                by (nonlinear_arith)
                requires
                    0 <= cfg.size <= MAX_SIZE,
                    0 <= cfg.beta <= MAX_BETA,
            ;
        }
        let hedge = mul_fp(cfg.size, cfg.beta);
        let mut orders: Vec<Order> = Vec::new();
        if z > cfg.entry_z as i128 && (pos_a as i128) - (cfg.size as i128) >= -(cfg.pos_limit as i128) {
            orders.push(Order { instrument: LEG_A, side: Side::Sell, qty: cfg.size, limit_px: Some(a_px) });
            orders.push(Order { instrument: LEG_B, side: Side::Buy, qty: hedge, limit_px: Some(b_px) });
        } else if z < -(cfg.entry_z as i128) && (pos_a as i128) + (cfg.size as i128) <= cfg.pos_limit as i128 {
            orders.push(Order { instrument: LEG_A, side: Side::Buy, qty: cfg.size, limit_px: Some(a_px) });
            orders.push(Order { instrument: LEG_B, side: Side::Sell, qty: hedge, limit_px: Some(b_px) });
        }
        if -(cfg.exit_z as i128) < z && z < cfg.exit_z as i128 && (pos_a != 0 || pos_b != 0) {
            orders.push(
                Order {
                    instrument: LEG_A,
                    side: Side::closing(pos_a),
                    qty: abs_qty(pos_a),
                    limit_px: Some(a_px),
                },
            );
            orders.push(
                Order {
                    instrument: LEG_B,
                    side: Side::closing(pos_b),
                    qty: abs_qty(pos_b),
                    limit_px: Some(b_px),
                },
            );
        }
        proof {
            let want = pair_orders(cfg, pos_a as int, pos_b as int, z as int, a_px, b_px);
            assert(orders@ =~= want);
        }
        orders
    }

    /// Books a fill on the leg it belongs to; a fill of another instrument
    /// changes nothing.
    pub fn on_fill(&mut self, f: &Fill)
        requires
            old(self).wf(),
            f.qty > i64::MIN,
            f.instrument == LEG_A ==> old(self).pos_a + fill_delta(f.side, f.qty as int) > i64::MIN
                && old(self).pos_a + fill_delta(f.side, f.qty as int) <= i64::MAX,
            f.instrument == LEG_B ==> old(self).pos_b + fill_delta(f.side, f.qty as int) > i64::MIN
                && old(self).pos_b + fill_delta(f.side, f.qty as int) <= i64::MAX,
        ensures
            final(self).wf(),
            final(self).cfg == old(self).cfg,
            final(self).spread == old(self).spread,
            final(self).pos_a == (if f.instrument == LEG_A {
                old(self).pos_a + fill_delta(f.side, f.qty as int)
            } else {
                old(self).pos_a as int
            }),
            final(self).pos_b == (if f.instrument == LEG_B {
                old(self).pos_b + fill_delta(f.side, f.qty as int)
            } else {
                old(self).pos_b as int
            }),
    {
        let delta: i128 = f.side.signed(f.qty) as i128;
        if f.instrument == LEG_A {
            self.pos_a = ((self.pos_a as i128) + delta) as i64;
        } else if f.instrument == LEG_B {
            self.pos_b = ((self.pos_b as i128) + delta) as i64;
        }
    }

    /// Inventory of the order's leg if it were filled; any instrument other
    /// than the first leg counts as the second.
    pub fn inv_after(&self, ord: &Order) -> (r: i64)
        requires
            ord.qty > i64::MIN,
            ord.instrument == LEG_A ==> i64::MIN <= self.pos_a + fill_delta(ord.side, ord.qty as int)
                <= i64::MAX,
            ord.instrument != LEG_A ==> i64::MIN <= self.pos_b + fill_delta(ord.side, ord.qty as int)
                <= i64::MAX,
        ensures
            r == (if ord.instrument == LEG_A {
                self.pos_a
            } else {
                self.pos_b
            }) + fill_delta(ord.side, ord.qty as int),
    {
        let d = ord.side.signed(ord.qty) as i128;
        if ord.instrument == LEG_A {
            ((self.pos_a as i128) + d) as i64
        } else {
            ((self.pos_b as i128) + d) as i64
        }
    }
}

} // verus!
