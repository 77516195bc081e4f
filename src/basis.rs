use vstd::prelude::*;

use crate::fixed::{abs_qty, mul_fp, mul_fp_spec, MAX_PRICE, RATE_DEN, SCALE};
use crate::models::{fill_delta, Fill, Order, Side};
use crate::window::{RollingWindow, MAX_LOOKBACK, MAX_SAMPLE};

verus! {

/// Largest number of basket constituents.
pub const MAX_STOCKS: usize = 1000;

/// Largest basket weight, in fixed point.
pub const MAX_WEIGHT: i64 = 1_000_000_000;

/// Largest order size, in fixed point.
pub const MAX_SIZE: i64 = 1_000_000_000_000;

/// Parameters of the basis arbitrage. Stocks are instruments `0..n` with
/// `weights[i]` shares of stock `i` per ETF share; the ETF is instrument `n`.
/// Thresholds are in hundredths of a basis point; other decimals are fixed point.
#[derive(Clone, Debug)]
pub struct ArbCfg {
    pub weights: Vec<i64>,
    pub lookback: usize,
    pub entry_bp: i64,
    pub exit_bp: i64,
    pub size_etf: i64,
    pub pos_limit: i64,
}

impl ArbCfg {
    pub open spec fn wf(&self) -> bool {
        &&& self.weights@.len() <= MAX_STOCKS
        &&& forall|i: int| 0 <= i < self.weights@.len() ==> 0 <= #[trigger] self.weights@[i] <= MAX_WEIGHT
        &&& 1 <= self.lookback <= MAX_LOOKBACK
        &&& 0 <= self.size_etf <= MAX_SIZE
        &&& 0 <= self.pos_limit
    }

    /// Instrument id of the ETF.
    pub fn etf_sym(&self) -> (r: usize)
        ensures
            r == self.weights@.len(),
    {
        self.weights.len()
    }

    /// Instrument ids of the basket's stocks.
    pub fn stock_syms(&self) -> (r: Vec<usize>)
        ensures
            r@ == Seq::new(self.weights@.len(), |i: int| i as usize),
    {
        let mut r: Vec<usize> = Vec::new();
        let mut i: usize = 0;
        while i < self.weights.len()
            invariant
                0 <= i <= self.weights@.len(),
                r@ == Seq::new(i as nat, |j: int| j as usize),
            decreases self.weights@.len() - i,
        {
            r.push(i);
            i = i + 1;
            assert(r@ =~= Seq::new(i as nat, |j: int| j as usize));
        }
        r
    }
}

/// `sum of w[i] * p[i]` over the first `n` stocks: the basket's fair value,
/// scaled by `SCALE * SCALE`.
pub open spec fn fair_value(w: Seq<i64>, p: Seq<i64>, n: int) -> int
    decreases n,
{
    if n <= 0 {
        0
    } else {
        fair_value(w, p, n - 1) + w[n - 1] * p[n - 1]
    }
}

/// `(etf / fair - 1)` in hundredths of a basis point, truncated toward zero;
/// `fair2` is the fair value scaled by `SCALE * SCALE`.
pub open spec fn basis_spec(etf_px: int, fair2: int) -> int {
    let num = (etf_px * SCALE - fair2) * RATE_DEN;
    if num >= 0 {
        num / fair2
    } else {
        -((-num) / fair2)
    }
}

pub open spec fn prices_ok(w: Seq<i64>, etf_px: i64, p: Seq<i64>) -> bool {
    &&& p.len() == w.len()
    &&& 0 < etf_px <= MAX_PRICE
    &&& forall|i: int| 0 <= i < p.len() ==> 0 < #[trigger] p[i] <= MAX_PRICE
    &&& fair_value(w, p, w.len() as int) > 0
}

/// One order per stock, `size * weight` shares on `side`.
pub open spec fn basket_orders(size: i64, w: Seq<i64>, p: Seq<i64>, side: Side) -> Seq<Order> {
    Seq::new(
        w.len(),
        |i: int|
            Order {
                instrument: i as usize,
                side,
                qty: mul_fp_spec(size as int, w[i] as int) as i64,
                limit_px: Some(p[i]),
            },
    )
}

/// Closing orders for the first `n` stocks whose inventory is not zero.
pub open spec fn stock_exits(pos: Seq<i64>, p: Seq<i64>, n: int) -> Seq<Order>
    decreases n,
{
    if n <= 0 {
        Seq::empty()
    } else if pos[n - 1] == 0 {
        stock_exits(pos, p, n - 1)
    } else {
        stock_exits(pos, p, n - 1).push(
            Order {
                instrument: (n - 1) as usize,
                side: Side::closing_spec(pos[n - 1] as int),
                qty: (if pos[n - 1] >= 0 { pos[n - 1] as int } else { -pos[n - 1] }) as i64,
                limit_px: Some(p[n - 1]),
            },
        )
    }
}

/// Orders for a basis reading once the window is full: open the ETF against
/// the basket when the basis is past the entry threshold and the ETF leg
/// stays within the limit; flatten everything when it is inside the exit band.
pub open spec fn basis_orders(
    cfg: ArbCfg,
    pos_etf: int,
    pos_stock: Seq<i64>,
    basis: int,
    etf_px: i64,
    p: Seq<i64>,
) -> Seq<Order> {
    let etf = cfg.weights@.len() as usize;
    let entry = if basis > cfg.entry_bp && pos_etf - cfg.size_etf >= -cfg.pos_limit {
        seq![Order { instrument: etf, side: Side::Sell, qty: cfg.size_etf, limit_px: Some(etf_px) }]
            + basket_orders(cfg.size_etf, cfg.weights@, p, Side::Buy)
    } else if basis < -cfg.entry_bp && pos_etf + cfg.size_etf <= cfg.pos_limit {
        seq![Order { instrument: etf, side: Side::Buy, qty: cfg.size_etf, limit_px: Some(etf_px) }]
            + basket_orders(cfg.size_etf, cfg.weights@, p, Side::Sell)
    } else {
        Seq::empty()
    };
    let exit = if -cfg.exit_bp < basis < cfg.exit_bp && pos_etf != 0 {
        seq![
            Order {
                instrument: etf,
                side: Side::closing_spec(pos_etf),
                qty: (if pos_etf >= 0 { pos_etf } else { -pos_etf }) as i64,
                limit_px: Some(etf_px),
            },
        ] + stock_exits(pos_stock, p, p.len() as int)
    } else {
        Seq::empty()
    };
    entry + exit
}

proof fn lemma_fair_value_bounds(w: Seq<i64>, p: Seq<i64>, n: int)
    requires
        0 <= n <= w.len(),
        n <= p.len(),
        forall|i: int| 0 <= i < w.len() ==> 0 <= #[trigger] w[i] <= MAX_WEIGHT,
        forall|i: int| 0 <= i < p.len() ==> 0 < #[trigger] p[i] <= MAX_PRICE,
    ensures
        0 <= fair_value(w, p, n) <= n * (MAX_WEIGHT * MAX_PRICE),
    decreases n,
{
    if n > 0 {
        lemma_fair_value_bounds(w, p, n - 1);
        let a = w[n - 1] as int;
        let b = p[n - 1] as int;
        assert(0 <= a * b <= MAX_WEIGHT * MAX_PRICE) by (nonlinear_arith)
            requires
                0 <= a <= MAX_WEIGHT,
                0 < b <= MAX_PRICE,
        ;
    }
}

/// Fair value of a basket, `sum of w[i] * p[i]` over the weights, scaled by
/// `SCALE * SCALE`; prices past the weights are not read.
pub fn fair_value_of(w: &Vec<i64>, p: &Vec<i64>) -> (r: i128)
    requires
        w@.len() <= MAX_STOCKS,
        w@.len() <= p@.len(),
        forall|i: int| 0 <= i < w@.len() ==> 0 <= #[trigger] w@[i] <= MAX_WEIGHT,
        forall|i: int| 0 <= i < w@.len() ==> 0 < #[trigger] p@[i] <= MAX_PRICE,
    ensures
        r == fair_value(w@, p@, w@.len() as int),
        0 <= r <= MAX_STOCKS * (MAX_WEIGHT * MAX_PRICE),
{
    let n = w.len();
    let ghost pn = p@.take(n as int);
    proof {
        lemma_fair_value_bounds(w@, pn, n as int);
        lemma_fair_value_prefix(w@, p@, n as int);
    }
    let mut fair: i128 = 0;
    let mut i: usize = 0;
    while i < n
        invariant
            n == w@.len(),
            n <= MAX_STOCKS,
            0 <= i <= n,
            n <= p@.len(),
            pn == p@.take(n as int),
            forall|k: int| 0 <= k < n ==> 0 <= #[trigger] w@[k] <= MAX_WEIGHT,
            forall|k: int| 0 <= k < n ==> 0 < #[trigger] p@[k] <= MAX_PRICE,
            fair == fair_value(w@, pn, i as int),
        decreases n - i,
    {
        proof {
            lemma_fair_value_bounds(w@, pn, i as int + 1);
            let a = w@[i as int] as int;
            let b = p@[i as int] as int;
            assert(pn[i as int] == b);
            assert(0 <= a * b <= MAX_WEIGHT * MAX_PRICE) by (nonlinear_arith)
                requires
                    0 <= a <= MAX_WEIGHT,
                    0 < b <= MAX_PRICE,
            ;
            assert(fair_value(w@, pn, i as int + 1) == fair + a * b);
            assert((i as int + 1) * (MAX_WEIGHT * MAX_PRICE) <= 1000 * (MAX_WEIGHT * MAX_PRICE))
                by (nonlinear_arith)
                requires
                    i + 1 <= 1000,
            ;
        }
        fair = fair + (w[i] as i128) * (p[i] as i128);
        i = i + 1;
    }
    proof {
        assert(n * (MAX_WEIGHT * MAX_PRICE) <= 1000 * (MAX_WEIGHT * MAX_PRICE)) by (nonlinear_arith)
            requires
                n <= 1000,
        ;
    }
    fair
}

proof fn lemma_fair_value_prefix(w: Seq<i64>, p: Seq<i64>, n: int)
    requires
        0 <= n <= p.len(),
    ensures
        fair_value(w, p.take(n), n) == fair_value(w, p, n),
{
    assert forall|k: int| 0 <= k <= n implies fair_value(w, p.take(n), k) == fair_value(w, p, k) by {
        lemma_fair_value_prefix_k(w, p, n, k);
    }
}

proof fn lemma_fair_value_prefix_k(w: Seq<i64>, p: Seq<i64>, n: int, k: int)
    requires
        0 <= k <= n <= p.len(),
    ensures
        fair_value(w, p.take(n), k) == fair_value(w, p, k),
    decreases k,
{
    if k > 0 {
        lemma_fair_value_prefix_k(w, p, n, k - 1);
    }
}

/// Index-versus-basket basis arbitrage.
pub struct BasisArb {
    pub cfg: ArbCfg,
    pub basis_hist: RollingWindow,
    pub pos_etf: i64,
    pub pos_stock: Vec<i64>,
}

impl BasisArb {
    pub open spec fn wf(&self) -> bool {
        &&& self.cfg.wf()
        &&& self.basis_hist.wf()
        &&& self.basis_hist.capacity_spec() == self.cfg.lookback
        &&& self.pos_etf > i64::MIN
        &&& self.pos_stock@.len() == self.cfg.weights@.len()
        &&& forall|i: int| 0 <= i < self.pos_stock@.len() ==> #[trigger] self.pos_stock@[i] > i64::MIN
    }

    pub fn new(cfg: ArbCfg) -> (r: BasisArb)
        requires
            cfg.wf(),
        ensures
            r.wf(),
            r.cfg == cfg,
            r.basis_hist.view() == Seq::<i64>::empty(),
            r.pos_etf == 0,
            r.pos_stock@ == Seq::new(cfg.weights@.len(), |i: int| 0i64),
    {
        let mut pos_stock: Vec<i64> = Vec::new();
        let mut i: usize = 0;
        while i < cfg.weights.len()
            invariant
                0 <= i <= cfg.weights@.len(),
                pos_stock@ == Seq::new(i as nat, |j: int| 0i64),
            decreases cfg.weights@.len() - i,
        {
            pos_stock.push(0);
            i = i + 1;
            assert(pos_stock@ =~= Seq::new(i as nat, |j: int| 0i64));
        }
        let basis_hist = RollingWindow::new(cfg.lookback);
        BasisArb { cfg, basis_hist, pos_etf: 0, pos_stock }
    }

    pub fn pos_etf(&self) -> (r: i64)
        ensures
            r == self.pos_etf,
    {
        self.pos_etf
    }

    pub fn pos_stock(&self, sym: usize) -> (r: i64)
        requires
            sym < self.pos_stock@.len(),
        ensures
            r == self.pos_stock@[sym as int],
    {
        self.pos_stock[sym]
    }

    /// Basis of the ETF against the basket, in hundredths of a basis point.
    pub fn basis_bps(&self, etf_px: i64, stock_px: &Vec<i64>) -> (r: i128)
        requires
            self.cfg.wf(),
            prices_ok(self.cfg.weights@, etf_px, stock_px@),
        ensures
            r == basis_spec(
                etf_px as int,
                fair_value(self.cfg.weights@, stock_px@, self.cfg.weights@.len() as int),
            ),
    {
        let w = &self.cfg.weights;
        let n = w.len();
        let fair = fair_value_of(w, stock_px);
        proof {
            assert(n * (MAX_WEIGHT * MAX_PRICE) <= 1000 * (MAX_WEIGHT * MAX_PRICE)) by (nonlinear_arith)
                requires
                    n <= 1000,
            ;
            assert(0 < etf_px * SCALE <= MAX_PRICE * SCALE) by (nonlinear_arith)
                requires
                    0 < etf_px <= MAX_PRICE,
            ;
        }
        let num: i128 = ((etf_px as i128) * (SCALE as i128) - fair) * (RATE_DEN as i128);
        if num >= 0 {
            num / fair
        } else {
            -((-num) / fair)
        }
    }

    fn push_basket(&self, orders: &mut Vec<Order>, stock_px: &Vec<i64>, side: Side)
        requires
            self.cfg.wf(),
            stock_px@.len() == self.cfg.weights@.len(),
        ensures
            final(orders)@ == old(orders)@ + basket_orders(
                self.cfg.size_etf,
                self.cfg.weights@,
                stock_px@,
                side,
            ),
    {
        let ghost start = orders@;
        let n = self.cfg.weights.len();
        let mut i: usize = 0;
        while i < n
            invariant
                n == self.cfg.weights@.len(),
                stock_px@.len() == n,
                0 <= i <= n,
                self.cfg.wf(),
                orders@ == start + basket_orders(
                    self.cfg.size_etf,
                    self.cfg.weights@,
                    stock_px@,
                    side,
                ).take(i as int),
            decreases n - i,
        {
            let w = self.cfg.weights[i];
            proof {
                assert(0 <= mul_fp_spec(self.cfg.size_etf as int, w as int) <= 1_000_000_000_000_000)
                    by (nonlinear_arith)
                    requires
                        0 <= self.cfg.size_etf <= MAX_SIZE,
                        0 <= w <= MAX_WEIGHT,
                ;
            }
            let qty = mul_fp(self.cfg.size_etf, w);
            orders.push(Order { instrument: i, side, qty, limit_px: Some(stock_px[i]) });
            i = i + 1;
            proof {
                let all = basket_orders(self.cfg.size_etf, self.cfg.weights@, stock_px@, side);
                assert(all.take(i as int) =~= all.take(i - 1).push(all[i - 1]));
                assert(orders@ =~= start + all.take(i as int));
            }
        }
        proof {
            let all = basket_orders(self.cfg.size_etf, self.cfg.weights@, stock_px@, side);
            assert(all.take(n as int) =~= all);
        }
    }

    fn push_stock_exits(&self, orders: &mut Vec<Order>, stock_px: &Vec<i64>)
        requires
            self.wf(),
            stock_px@.len() == self.cfg.weights@.len(),
        ensures
            final(orders)@ == old(orders)@ + stock_exits(
                self.pos_stock@,
                stock_px@,
                stock_px@.len() as int,
            ),
    {
        let ghost start = orders@;
        let n = self.pos_stock.len();
        let mut i: usize = 0;
        while i < n
            invariant
                n == self.pos_stock@.len(),
                stock_px@.len() == n,
                0 <= i <= n,
                self.wf(),
                orders@ == start + stock_exits(self.pos_stock@, stock_px@, i as int),
            decreases n - i,
        {
            let inv = self.pos_stock[i];
            if inv != 0 {
                orders.push(
                    Order {
                        instrument: i,
                        side: Side::closing(inv),
                        qty: abs_qty(inv),
                        limit_px: Some(stock_px[i]),
                    },
                );
            }
            i = i + 1;
            proof {
                assert(orders@ =~= start + stock_exits(self.pos_stock@, stock_px@, i as int));
            }
        }
    }

    /// Takes the ETF price and the stocks' prices, rolls the basis window and
    /// proposes orders. Nothing is proposed until the window holds `lookback`
    /// readings.
    pub fn on_tick(&mut self, etf_px: i64, stock_px: &Vec<i64>) -> (r: Vec<Order>)
        requires
            old(self).wf(),
            prices_ok(old(self).cfg.weights@, etf_px, stock_px@),
            -MAX_SAMPLE <= basis_spec(
                etf_px as int,
                fair_value(old(self).cfg.weights@, stock_px@, old(self).cfg.weights@.len() as int),
            ) <= MAX_SAMPLE,
        ensures
            final(self).wf(),
            final(self).cfg == old(self).cfg,
            final(self).pos_etf == old(self).pos_etf,
            final(self).pos_stock == old(self).pos_stock,
            ({
                let b = basis_spec(
                    etf_px as int,
                    fair_value(old(self).cfg.weights@, stock_px@, old(self).cfg.weights@.len() as int),
                );
                &&& final(self).basis_hist.view() == (if old(self).basis_hist.view().len()
                    < old(self).cfg.lookback {
                    old(self).basis_hist.view().push(b as i64)
                } else {
                    old(self).basis_hist.view().drop_first().push(b as i64)
                })
                &&& final(self).basis_hist.view().len() <= old(self).cfg.lookback
                &&& final(self).basis_hist.view().len() < old(self).cfg.lookback ==> r@
                    == Seq::<Order>::empty()
                &&& final(self).basis_hist.view().len() == old(self).cfg.lookback ==> r@
                    == basis_orders(
                    old(self).cfg,
                    old(self).pos_etf as int,
                    old(self).pos_stock@,
                    b,
                    etf_px,
                    stock_px@,
                )
            }),
    {
        let basis = self.basis_bps(etf_px, stock_px);
        self.basis_hist.push(basis as i64);
        if !self.basis_hist.is_full() {
            return Vec::new();
        }
        let etf = self.cfg.weights.len();
        let size = self.cfg.size_etf;
        let limit = self.cfg.pos_limit as i128;
        let pos = self.pos_etf;
        let mut orders: Vec<Order> = Vec::new();
        if basis > self.cfg.entry_bp as i128 && (pos as i128) - (size as i128) >= -limit {
            orders.push(Order { instrument: etf, side: Side::Sell, qty: size, limit_px: Some(etf_px) });
            self.push_basket(&mut orders, stock_px, Side::Buy);
        } else if basis < -(self.cfg.entry_bp as i128) && (pos as i128) + (size as i128) <= limit {
            orders.push(Order { instrument: etf, side: Side::Buy, qty: size, limit_px: Some(etf_px) });
            self.push_basket(&mut orders, stock_px, Side::Sell);
        }
        let exit_bp = self.cfg.exit_bp as i128;
        if -exit_bp < basis && basis < exit_bp && pos != 0 {
            orders.push(
                Order {
                    instrument: etf,
                    side: Side::closing(pos),
                    qty: abs_qty(pos),
                    limit_px: Some(etf_px),
                },
            );
            self.push_stock_exits(&mut orders, stock_px);
        }
        proof {
            let want = basis_orders(
                self.cfg,
                pos as int,
                self.pos_stock@,
                basis as int,
                etf_px,
                stock_px@,
            );
            assert(orders@ =~= want);
        }
        orders
    }

    /// Books a fill on the ETF or on the stock it belongs to; a fill of an
    /// unknown instrument changes nothing.
    pub fn on_fill(&mut self, f: &Fill)
        requires
            old(self).wf(),
            f.qty > i64::MIN,
            f.instrument == old(self).cfg.weights@.len() ==> old(self).pos_etf + fill_delta(
                f.side,
                f.qty as int,
            ) > i64::MIN && old(self).pos_etf + fill_delta(f.side, f.qty as int) <= i64::MAX,
            f.instrument < old(self).cfg.weights@.len() ==> old(self).pos_stock@[f.instrument as int]
                + fill_delta(f.side, f.qty as int) > i64::MIN && old(self).pos_stock@[f.instrument as int]
                + fill_delta(f.side, f.qty as int) <= i64::MAX,
        ensures
            final(self).wf(),
            final(self).cfg == old(self).cfg,
            final(self).basis_hist == old(self).basis_hist,
            final(self).pos_etf == (if f.instrument == old(self).cfg.weights@.len() {
                old(self).pos_etf + fill_delta(f.side, f.qty as int)
            } else {
                old(self).pos_etf as int
            }),
            final(self).pos_stock@ == (if f.instrument < old(self).cfg.weights@.len() {
                old(self).pos_stock@.update(
                    f.instrument as int,
                    (old(self).pos_stock@[f.instrument as int] + fill_delta(f.side, f.qty as int)) as i64,
                )
            } else {
                old(self).pos_stock@
            }),
    {
        let delta: i128 = f.side.signed(f.qty) as i128;
        if f.instrument == self.cfg.weights.len() {
            self.pos_etf = ((self.pos_etf as i128) + delta) as i64;
        } else if f.instrument < self.pos_stock.len() {
            let v = ((self.pos_stock[f.instrument] as i128) + delta) as i64;
            self.pos_stock.set(f.instrument, v);
        }
    }

    /// Inventory of the order's instrument if it were filled.
    pub fn inv_after(&self, ord: &Order) -> (r: i64)
        requires
            self.wf(),
            ord.instrument <= self.cfg.weights@.len(),
            ord.qty > i64::MIN,
            ord.instrument == self.cfg.weights@.len() ==> i64::MIN <= self.pos_etf + fill_delta(
                ord.side,
                ord.qty as int,
            ) <= i64::MAX,
            ord.instrument < self.cfg.weights@.len() ==> i64::MIN <= self.pos_stock@[ord.instrument as int]
                + fill_delta(ord.side, ord.qty as int) <= i64::MAX,
        ensures
            r == (if ord.instrument == self.cfg.weights@.len() {
                self.pos_etf
            } else {
                self.pos_stock@[ord.instrument as int]
            }) + fill_delta(ord.side, ord.qty as int),
    {
        let d = ord.side.signed(ord.qty) as i128;
        if ord.instrument == self.cfg.weights.len() {
            ((self.pos_etf as i128) + d) as i64
        } else {
            ((self.pos_stock[ord.instrument] as i128) + d) as i64
        }
    }
}

} // verus!
