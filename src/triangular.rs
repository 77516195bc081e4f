use vstd::prelude::*;

use crate::fixed::{mul_fp, mul_fp_spec, RATE_DEN, SCALE};
use crate::models::{fill_delta, Fill, Order, Side, Tick};

verus! {

/// Pair ids.
pub const EUR_USD: usize = 0;
pub const USD_JPY: usize = 1;
pub const EUR_JPY: usize = 2;

/// Currency ids: the positions of the balances.
pub const EUR: usize = 0;
pub const USD: usize = 1;
pub const JPY: usize = 2;

/// Quote range, in fixed point (0.001 to 1000.0).
pub const MIN_QUOTE: i64 = 1_000;
pub const MAX_QUOTE: i64 = 1_000_000_000;

/// Largest order size, in fixed point.
pub const MAX_SIZE: i64 = 1_000_000_000_000;

/// Largest quantity of one fill, in fixed point.
pub const MAX_FILL_QTY: i64 = 1_000_000_000_000_000;

/// Largest magnitude of an entry threshold, in rate units (100,000 bps).
pub const MAX_RATE: i64 = 10_000_000;

/// Parameters of the triangular arbitrage; rates are in hundredths of a
/// basis point, the size in fixed point.
#[derive(Clone, Copy, Debug, PartialEq, Eq, Structural)]
pub struct TriCfg {
    pub entry_bps: i64,
    pub exit_bps: i64,
    pub fee_bps: i64,
    pub size_eur: i64,
    pub pos_limit: i64,
}

impl TriCfg {
    pub open spec fn wf(&self) -> bool {
        &&& -MAX_RATE <= self.entry_bps <= MAX_RATE
        &&& 0 <= self.fee_bps < RATE_DEN
        &&& 0 <= self.size_eur <= MAX_SIZE
    }
}

pub open spec fn quote_ok(q: (i64, i64)) -> bool {
    MIN_QUOTE <= q.0 <= MAX_QUOTE && MIN_QUOTE <= q.1 <= MAX_QUOTE
}

/// Net EUR per EUR of the cycle EUR -> USD -> JPY -> EUR, with a fee on each
/// leg, as `num / den`.
pub open spec fn cycle1(eu_b: int, uj_b: int, ej_a: int, fee: int) -> (int, int) {
    let d = RATE_DEN as int;
    (eu_b * uj_b * ((d - fee) * (d - fee)), ej_a * SCALE * d * (d + fee))
}

/// Net EUR per EUR of the cycle EUR -> JPY -> USD -> EUR, as `num / den`.
pub open spec fn cycle2(ej_b: int, uj_a: int, eu_a: int, fee: int) -> (int, int) {
    let d = RATE_DEN as int;
    (ej_b * SCALE * (d - fee) * d, uj_a * eu_a * ((d + fee) * (d + fee)))
}

/// `(num / den - 1)` in rate units, truncated toward zero.
pub open spec fn edge_of(c: (int, int)) -> int {
    let x = (c.0 - c.1) * RATE_DEN;
    if x >= 0 {
        x / c.1
    } else {
        -((-x) / c.1)
    }
}

/// Whether the cycle's edge is strictly above `entry` (exact comparison).
pub open spec fn edge_exceeds(c: (int, int), entry: int) -> bool {
    (c.0 - c.1) * RATE_DEN > entry * c.1
}

/// An edge exactly at the threshold does not fire; one that fires is at
/// least the threshold once truncated.
pub proof fn lemma_entry_is_strict(c: (int, int), entry: int)
    requires
        c.1 > 0,
    ensures
        (c.0 - c.1) * RATE_DEN == entry * c.1 ==> !edge_exceeds(c, entry),
        edge_exceeds(c, entry) ==> edge_of(c) >= entry,
{
    let x = (c.0 - c.1) * RATE_DEN;
    let d = c.1;
    if x > entry * d {
        if x >= 0 {
            assert(x / d >= entry) by (nonlinear_arith)
                requires
                    x > entry * d,
                    d > 0,
            ;
        } else {
            assert(-((-x) / d) >= entry) by (nonlinear_arith)
                requires
                    x > entry * d,
                    x < 0,
                    d > 0,
            ;
        }
    }
}

/// The three legs for a set of quotes `(bid, ask)` of EUR/USD, USD/JPY and
/// EUR/JPY: the first cycle when its edge beats the threshold, else the
/// second when its edge does, else nothing.
pub open spec fn tri_orders(cfg: TriCfg, eu: (i64, i64), uj: (i64, i64), ej: (i64, i64)) -> Seq<Order> {
    let q = cfg.size_eur;
    let c1 = cycle1(eu.0 as int, uj.0 as int, ej.1 as int, cfg.fee_bps as int);
    let c2 = cycle2(ej.0 as int, uj.1 as int, eu.1 as int, cfg.fee_bps as int);
    if edge_exceeds(c1, cfg.entry_bps as int) {
        seq![
            Order { instrument: EUR_USD, side: Side::Sell, qty: q, limit_px: None },
            Order {
                instrument: USD_JPY,
                side: Side::Buy,
                qty: mul_fp_spec(q as int, eu.0 as int) as i64,
                limit_px: None,
            },
            Order { instrument: EUR_JPY, side: Side::Buy, qty: q, limit_px: None },
        ]
    } else if edge_exceeds(c2, cfg.entry_bps as int) {
        seq![
            Order { instrument: EUR_JPY, side: Side::Sell, qty: q, limit_px: None },
            Order {
                instrument: USD_JPY,
                side: Side::Sell,
                qty: ((q * ej.0) / (eu.1 as int)) as i64,
                limit_px: None,
            },
            Order { instrument: EUR_USD, side: Side::Buy, qty: q, limit_px: None },
        ]
    } else {
        Seq::empty()
    }
}

/// Change of the (EUR, USD, JPY) balances when `qty` of `pair` trades on
/// `side` at `px`: the base moves by `qty`, the quote by `qty * px`, with
/// opposite signs. On USD/JPY a buy lowers the USD balance.
pub open spec fn pair_deltas(pair: usize, side: Side, qty: int, px: int) -> (int, int, int) {
    let b = fill_delta(side, qty);
    let n = fill_delta(side, mul_fp_spec(qty, px));
    if pair == EUR_USD {
        (b, -n, 0)
    } else if pair == USD_JPY {
        (0, -b, n)
    } else if pair == EUR_JPY {
        (b, 0, -n)
    } else {
        (0, 0, 0)
    }
}

/// Balances after applying `pair_deltas`.
pub open spec fn apply_deltas(pos: Seq<i64>, d: (int, int, int)) -> Seq<int> {
    seq![pos[0] + d.0, pos[1] + d.1, pos[2] + d.2]
}

pub open spec fn balances_fit(b: Seq<int>) -> bool {
    forall|i: int| 0 <= i < b.len() ==> i64::MIN <= #[trigger] b[i] <= i64::MAX
}

proof fn lemma_scaled_diff_bounds(num: int, den: int)
    requires
        0 <= num <= 1_000_000_000_000_000_000_000_000_000_000,
        1 <= den <= 4_000_000_000_000_000_000_000_000_000_000,
    ensures
        -4_000_000_000_000_000_000_000_000_000_000_000_000 <= (num - den) * RATE_DEN
            <= 1_000_000_000_000_000_000_000_000_000_000_000_000,
{
    assert(-4_000_000_000_000_000_000_000_000_000_000_000_000 <= (num - den) * 1_000_000
        <= 1_000_000_000_000_000_000_000_000_000_000_000_000) by (nonlinear_arith)
        requires
            0 <= num <= 1_000_000_000_000_000_000_000_000_000_000,
            1 <= den <= 4_000_000_000_000_000_000_000_000_000_000,
    ;
}

/// Cross-currency triangular arbitrage over EUR/USD, USD/JPY and EUR/JPY.
pub struct TriArb {
    pub cfg: TriCfg,
    /// Latest `(bid, ask)` per pair.
    pub px: Vec<Option<(i64, i64)>>,
    /// Balance per currency.
    pub pos: Vec<i64>,
}

impl TriArb {
    pub open spec fn wf(&self) -> bool {
        &&& self.cfg.wf()
        &&& self.px@.len() == 3
        &&& self.pos@.len() == 3
        &&& forall|i: int| 0 <= i < 3 ==> (#[trigger] self.px@[i]).is_some() ==> quote_ok(self.px@[i].unwrap())
    }

    pub fn new(cfg: TriCfg) -> (r: TriArb)
        requires
            cfg.wf(),
        ensures
            r.wf(),
            r.cfg == cfg,
            r.px@ == seq![None::<(i64, i64)>, None, None],
            r.pos@ == seq![0i64, 0, 0],
    {
        let px: Vec<Option<(i64, i64)>> = vec![None, None, None];
        let pos: Vec<i64> = vec![0, 0, 0];
        TriArb { cfg, px, pos }
    }

    /// Records the latest quote of a pair; a tick of another instrument is ignored.
    pub fn update_tick(&mut self, t: Tick)
        requires
            old(self).wf(),
            t.instrument < 3 ==> quote_ok((t.bid, t.ask)),
        ensures
            final(self).wf(),
            final(self).cfg == old(self).cfg,
            final(self).pos == old(self).pos,
            final(self).px@ == (if t.instrument < 3 {
                old(self).px@.update(t.instrument as int, Some((t.bid, t.ask)))
            } else {
                old(self).px@
            }),
    {
        if t.instrument < 3 {
            self.px.set(t.instrument, Some((t.bid, t.ask)));
        }
    }

    /// Both cycles' edges, in rate units, once all three pairs are quoted.
    pub fn edges(&self) -> (r: Option<(i128, i128)>)
        requires
            self.wf(),
        ensures
            self.px@[0].is_none() || self.px@[1].is_none() || self.px@[2].is_none() ==> r.is_none(),
            self.px@[0].is_some() && self.px@[1].is_some() && self.px@[2].is_some() ==> r == Some(
                (
                    edge_of(
                        cycle1(
                            self.px@[0].unwrap().0 as int,
                            self.px@[1].unwrap().0 as int,
                            self.px@[2].unwrap().1 as int,
                            self.cfg.fee_bps as int,
                        ),
                    ) as i128,
                    edge_of(
                        cycle2(
                            self.px@[2].unwrap().0 as int,
                            self.px@[1].unwrap().1 as int,
                            self.px@[0].unwrap().1 as int,
                            self.cfg.fee_bps as int,
                        ),
                    ) as i128,
                ),
            ),
    {
        match (self.px[EUR_USD], self.px[USD_JPY], self.px[EUR_JPY]) {
            (Some(eu), Some(uj), Some(ej)) => {
                let (n1, d1) = Self::cycle1_exec(eu.0, uj.0, ej.1, self.cfg.fee_bps);
                let (n2, d2) = Self::cycle2_exec(ej.0, uj.1, eu.1, self.cfg.fee_bps);
                Some((Self::edge_exec(n1, d1), Self::edge_exec(n2, d2)))
            },
            _ => None,
        }
    }

    fn cycle1_exec(eu_b: i64, uj_b: i64, ej_a: i64, fee: i64) -> (r: (i128, i128))
        requires
            MIN_QUOTE <= eu_b <= MAX_QUOTE,
            MIN_QUOTE <= uj_b <= MAX_QUOTE,
            MIN_QUOTE <= ej_a <= MAX_QUOTE,
            0 <= fee < RATE_DEN,
        ensures
            r.0 as int == cycle1(eu_b as int, uj_b as int, ej_a as int, fee as int).0,
            r.1 as int == cycle1(eu_b as int, uj_b as int, ej_a as int, fee as int).1,
            0 <= r.0 <= 1_000_000_000_000_000_000_000_000_000_000,
            1 <= r.1 <= 2_000_000_000_000_000_000_000_000_000,
    {
        let d: i128 = RATE_DEN as i128;
        let f: i128 = fee as i128;
        proof {
            let (a, b, c) = (eu_b as int, uj_b as int, ej_a as int);
            let dd = RATE_DEN as int;
            let ff = fee as int;
            assert(0 <= a * b <= 1_000_000_000_000_000_000) by (nonlinear_arith)
                requires
                    0 <= a <= MAX_QUOTE,
                    0 <= b <= MAX_QUOTE,
            ;
            assert(0 <= (dd - ff) * (dd - ff) <= 1_000_000_000_000) by (nonlinear_arith)
                requires
                    0 <= dd - ff <= 1_000_000,
            ;
            assert(0 <= a * b * ((dd - ff) * (dd - ff)) <= 1_000_000_000_000_000_000_000_000_000_000)
                by (nonlinear_arith)
                requires
                    0 <= a * b <= 1_000_000_000_000_000_000,
                    0 <= (dd - ff) * (dd - ff) <= 1_000_000_000_000,
            ;
            assert(1 <= c * SCALE * dd * (dd + ff) <= 2_000_000_000_000_000_000_000_000_000)
                by (nonlinear_arith)
                requires
                    1 <= c <= MAX_QUOTE,
                    dd == 1_000_000,
                    0 <= ff < 1_000_000,
            ;
        }
        let num = (eu_b as i128) * (uj_b as i128) * ((d - f) * (d - f));
        let den = (ej_a as i128) * (SCALE as i128) * d * (d + f);
        (num, den)
    }

    fn cycle2_exec(ej_b: i64, uj_a: i64, eu_a: i64, fee: i64) -> (r: (i128, i128))
        requires
            MIN_QUOTE <= ej_b <= MAX_QUOTE,
            MIN_QUOTE <= uj_a <= MAX_QUOTE,
            MIN_QUOTE <= eu_a <= MAX_QUOTE,
            0 <= fee < RATE_DEN,
        ensures
            r.0 as int == cycle2(ej_b as int, uj_a as int, eu_a as int, fee as int).0,
            r.1 as int == cycle2(ej_b as int, uj_a as int, eu_a as int, fee as int).1,
            0 <= r.0 <= 1_000_000_000_000_000_000_000_000_000_000,
            1 <= r.1 <= 4_000_000_000_000_000_000_000_000_000_000,
    {
        let d: i128 = RATE_DEN as i128;
        let f: i128 = fee as i128;
        proof {
            let (a, b, c) = (ej_b as int, uj_a as int, eu_a as int);
            let dd = RATE_DEN as int;
            let ff = fee as int;
            assert(0 <= a * SCALE * (dd - ff) * dd <= 1_000_000_000_000_000_000_000_000_000_000)
                by (nonlinear_arith)
                requires
                    0 <= a <= MAX_QUOTE,
                    dd == 1_000_000,
                    0 <= ff < 1_000_000,
            ;
            assert(1 <= b * c <= 1_000_000_000_000_000_000) by (nonlinear_arith)
                requires
                    1 <= b <= MAX_QUOTE,
                    1 <= c <= MAX_QUOTE,
            ;
            assert(1 <= (dd + ff) * (dd + ff) <= 4_000_000_000_000) by (nonlinear_arith)
                requires
                    1 <= dd + ff <= 2_000_000,
            ;
            assert(1 <= b * c * ((dd + ff) * (dd + ff)) <= 4_000_000_000_000_000_000_000_000_000_000)
                by (nonlinear_arith)
                requires
                    1 <= b * c <= 1_000_000_000_000_000_000,
                    1 <= (dd + ff) * (dd + ff) <= 4_000_000_000_000,
            ;
        }
        let num = (ej_b as i128) * (SCALE as i128) * (d - f) * d;
        let den = (uj_a as i128) * (eu_a as i128) * ((d + f) * (d + f));
        (num, den)
    }

    fn edge_exec(num: i128, den: i128) -> (r: i128)
        requires
            0 <= num <= 1_000_000_000_000_000_000_000_000_000_000,
            1 <= den <= 4_000_000_000_000_000_000_000_000_000_000,
        ensures
            r as int == edge_of((num as int, den as int)),
    {
        proof {
            lemma_scaled_diff_bounds(num as int, den as int);
        }
        let x = (num - den) * (RATE_DEN as i128);
        if x >= 0 {
            x / den
        } else {
            -((-x) / den)
        }
    }

    fn exceeds_exec(num: i128, den: i128, entry: i64) -> (r: bool)
        requires
            0 <= num <= 1_000_000_000_000_000_000_000_000_000_000,
            1 <= den <= 4_000_000_000_000_000_000_000_000_000_000,
            -MAX_RATE <= entry <= MAX_RATE,
        ensures
            r == edge_exceeds((num as int, den as int), entry as int),
    {
        proof {
            assert(-40_000_000_000_000_000_000_000_000_000_000_000_000 <= entry * den
                <= 40_000_000_000_000_000_000_000_000_000_000_000_000) by (nonlinear_arith)
                requires
                    -MAX_RATE <= entry <= MAX_RATE,
                    1 <= den <= 4_000_000_000_000_000_000_000_000_000_000,
            ;
            lemma_scaled_diff_bounds(num as int, den as int);
        }
        (num - den) * (RATE_DEN as i128) > (entry as i128) * den
    }

    /// Proposes the three legs of whichever cycle's edge is strictly above
    /// the entry threshold, the first cycle taking precedence; nothing until
    /// all three pairs are quoted.
    pub fn check(&self) -> (r: Vec<Order>)
        requires
            self.wf(),
        ensures
            self.px@[0].is_none() || self.px@[1].is_none() || self.px@[2].is_none() ==> r@
                == Seq::<Order>::empty(),
            self.px@[0].is_some() && self.px@[1].is_some() && self.px@[2].is_some() ==> r@
                == tri_orders(self.cfg, self.px@[0].unwrap(), self.px@[1].unwrap(), self.px@[2].unwrap()),
    {
        match (self.px[EUR_USD], self.px[USD_JPY], self.px[EUR_JPY]) {
            (Some(eu), Some(uj), Some(ej)) => {
                let q = self.cfg.size_eur;
                let (n1, d1) = Self::cycle1_exec(eu.0, uj.0, ej.1, self.cfg.fee_bps);
                let mut orders: Vec<Order> = Vec::new();
                if Self::exceeds_exec(n1, d1, self.cfg.entry_bps) {
                    proof {
                        assert(0 <= mul_fp_spec(q as int, eu.0 as int) <= 1_000_000_000_000_000)
                            by (nonlinear_arith)
                            requires
                                0 <= q <= MAX_SIZE,
                                0 <= eu.0 <= MAX_QUOTE,
                        ;
                    }
                    orders.push(Order { instrument: EUR_USD, side: Side::Sell, qty: q, limit_px: None });
                    orders.push(
                        Order { instrument: USD_JPY, side: Side::Buy, qty: mul_fp(q, eu.0), limit_px: None },
                    );
                    orders.push(Order { instrument: EUR_JPY, side: Side::Buy, qty: q, limit_px: None });
                } else {
                    let (n2, d2) = Self::cycle2_exec(ej.0, uj.1, eu.1, self.cfg.fee_bps);
                    if Self::exceeds_exec(n2, d2, self.cfg.entry_bps) {
                        proof {
                            assert(0 <= q * ej.0 <= 1_000_000_000_000_000_000_000) by (nonlinear_arith)
                                requires
                                    0 <= q <= MAX_SIZE,
                                    0 <= ej.0 <= MAX_QUOTE,
                            ;
                            assert((q * ej.0) / (eu.1 as int) <= (q * ej.0) / MIN_QUOTE as int) by (nonlinear_arith)
                                requires
                                    0 <= q * ej.0,
                                    MIN_QUOTE <= eu.1,
                            ;
                        }
                        let leg = ((q as i128) * (ej.0 as i128)) / (eu.1 as i128);
                        orders.push(Order { instrument: EUR_JPY, side: Side::Sell, qty: q, limit_px: None });
                        orders.push(
                            Order { instrument: USD_JPY, side: Side::Sell, qty: leg as i64, limit_px: None },
                        );
                        orders.push(Order { instrument: EUR_USD, side: Side::Buy, qty: q, limit_px: None });
                    }
                }
                proof {
                    assert(orders@ =~= tri_orders(self.cfg, eu, uj, ej));
                }
                orders
            },
            _ => Vec::new(),
        }
    }

    fn deltas_exec(pair: usize, side: Side, qty: i64, px: i64) -> (r: (i128, i128, i128))
        requires
            0 <= qty <= MAX_FILL_QTY,
            0 < px <= MAX_QUOTE,
        ensures
            r.0 as int == pair_deltas(pair, side, qty as int, px as int).0,
            r.1 as int == pair_deltas(pair, side, qty as int, px as int).1,
            r.2 as int == pair_deltas(pair, side, qty as int, px as int).2,
            -1_000_000_000_000_000_000 <= r.0 <= 1_000_000_000_000_000_000,
            -1_000_000_000_000_000_000 <= r.1 <= 1_000_000_000_000_000_000,
            -1_000_000_000_000_000_000 <= r.2 <= 1_000_000_000_000_000_000,
    {
        proof {
            let p = qty * px;
            assert(0 <= p <= 1_000_000_000_000_000_000_000_000) by (nonlinear_arith)
                requires
                    0 <= qty <= MAX_FILL_QTY,
                    0 < px <= MAX_QUOTE,
                    p == qty * px,
            ;
            assert(0 <= p / 1_000_000 <= 1_000_000_000_000_000_000) by (nonlinear_arith)
                requires
                    0 <= p <= 1_000_000_000_000_000_000_000_000,
            ;
        }
        let n = mul_fp(qty, px) as i128;
        let q = qty as i128;
        let (sq, sn): (i128, i128) = match side {
            Side::Buy => (q, n),
            Side::Sell => (-q, -n),
        };
        if pair == EUR_USD {
            (sq, -sn, 0)
        } else if pair == USD_JPY {
            (0, -sq, sn)
        } else if pair == EUR_JPY {
            (sq, 0, -sn)
        } else {
            (0, 0, 0)
        }
    }

    /// The balances that executing `ord` at the pair's current bid would
    /// leave; the bid is used whichever the side.
    pub fn pos_after_exec(&self, ord: &Order) -> (r: Vec<i64>)
        requires
            self.wf(),
            ord.instrument < 3,
            self.px@[ord.instrument as int].is_some(),
            0 <= ord.qty <= MAX_FILL_QTY,
            balances_fit(
                apply_deltas(
                    self.pos@,
                    pair_deltas(
                        ord.instrument,
                        ord.side,
                        ord.qty as int,
                        self.px@[ord.instrument as int].unwrap().0 as int,
                    ),
                ),
            ),
        ensures
            r@.len() == 3,
            forall|i: int|
                0 <= i < 3 ==> r@[i] == #[trigger] apply_deltas(
                    self.pos@,
                    pair_deltas(
                        ord.instrument,
                        ord.side,
                        ord.qty as int,
                        self.px@[ord.instrument as int].unwrap().0 as int,
                    ),
                )[i],
    {
        let bid = match self.px[ord.instrument] {
            Some(q) => q.0,
            None => 0,
        };
        let (d0, d1, d2) = Self::deltas_exec(ord.instrument, ord.side, ord.qty, bid);
        let ghost want = apply_deltas(
            self.pos@,
            pair_deltas(ord.instrument, ord.side, ord.qty as int, bid as int),
        );
        proof {
            assert(i64::MIN <= want[0] <= i64::MAX);
            assert(i64::MIN <= want[1] <= i64::MAX);
            assert(i64::MIN <= want[2] <= i64::MAX);
        }
        let r: Vec<i64> = vec![
            ((self.pos[EUR] as i128) + d0) as i64,
            ((self.pos[USD] as i128) + d1) as i64,
            ((self.pos[JPY] as i128) + d2) as i64,
        ];
        r
    }

    /// Books a fill: the pair's base and quote balances move by the
    /// quantity and by quantity times the executed price.
    pub fn on_fill(&mut self, f: &Fill)
        requires
            old(self).wf(),
            0 <= f.qty <= MAX_FILL_QTY,
            0 < f.px <= MAX_QUOTE,
            balances_fit(
                apply_deltas(old(self).pos@, pair_deltas(f.instrument, f.side, f.qty as int, f.px as int)),
            ),
        ensures
            final(self).wf(),
            final(self).cfg == old(self).cfg,
            final(self).px == old(self).px,
            final(self).pos@.len() == 3,
            forall|i: int|
                0 <= i < 3 ==> final(self).pos@[i] == #[trigger] apply_deltas(
                    old(self).pos@,
                    pair_deltas(f.instrument, f.side, f.qty as int, f.px as int),
                )[i],
    {
        let (d0, d1, d2) = Self::deltas_exec(f.instrument, f.side, f.qty, f.px);
        let ghost want = apply_deltas(
            self.pos@,
            pair_deltas(f.instrument, f.side, f.qty as int, f.px as int),
        );
        proof {
            assert(i64::MIN <= want[0] <= i64::MAX);
            assert(i64::MIN <= want[1] <= i64::MAX);
            assert(i64::MIN <= want[2] <= i64::MAX);
        }
        let e = ((self.pos[EUR] as i128) + d0) as i64;
        let u = ((self.pos[USD] as i128) + d1) as i64;
        let j = ((self.pos[JPY] as i128) + d2) as i64;
        self.pos.set(EUR, e);
        self.pos.set(USD, u);
        self.pos.set(JPY, j);
    }
}

} // verus!
