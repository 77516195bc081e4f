use vstd::prelude::*;

use crate::fixed::{scale_down, scale_down_spec, SCALE};
use crate::models::{fill_delta, Fill, Order, Side};

verus! {

/// Book depth levels used as features.
pub const LEVELS: usize = 5;

/// Largest volume at one level, in fixed point.
pub const MAX_VOL: i64 = 1_000_000_000_000_000;

/// Largest learning rate, in fixed point.
pub const MAX_LR: i64 = 1_000_000_000;

/// Largest magnitude of a weight or of the bias, in fixed point.
pub const MAX_WEIGHT: i64 = 1_000_000_000_000_000;

/// Size of every order the learner sends, in fixed point (1000.0).
pub const ORDER_QTY: i64 = 1_000_000_000;

/// One half, in fixed point.
pub const HALF: i64 = 500_000;

/// Parameters of the online learner, in fixed point.
#[derive(Clone, Copy, Debug, PartialEq, Eq, Structural)]
pub struct Cfg {
    /// Price step of the simulated book.
    pub tick_sz: i64,
    /// Confidence margin around one half.
    pub theta: i64,
    pub learning_rate: i64,
    pub max_pos: i64,
    pub max_orders_s: u64,
}

impl Cfg {
    pub open spec fn wf(&self) -> bool {
        0 <= self.learning_rate <= MAX_LR
    }
}

/// Depth snapshot: volume per level on each side, and the mid price.
#[derive(Clone, Debug)]
pub struct Book {
    pub bid_vol: Vec<i64>,
    pub ask_vol: Vec<i64>,
    pub mid: i64,
}

impl Book {
    pub open spec fn wf(&self) -> bool {
        &&& self.bid_vol@.len() == LEVELS
        &&& self.ask_vol@.len() == LEVELS
        &&& forall|i: int| 0 <= i < LEVELS ==> 0 <= #[trigger] self.bid_vol@[i] <= MAX_VOL
        &&& forall|i: int| 0 <= i < LEVELS ==> 0 <= #[trigger] self.ask_vol@[i] <= MAX_VOL
    }
}

/// `(bid - ask) / (bid + ask)` in fixed point, truncated toward zero; zero
/// when both volumes are zero.
pub open spec fn imbalance(bid: int, ask: int) -> int {
    let den = bid + ask;
    let num = (bid - ask) * SCALE;
    if den <= 0 {
        0
    } else if num >= 0 {
        num / den
    } else {
        -((-num) / den)
    }
}

pub open spec fn features_spec(book: Book) -> Seq<i64> {
    Seq::new(LEVELS as nat, |i: int| imbalance(book.bid_vol@[i] as int, book.ask_vol@[i] as int) as i64)
}

/// `sum of w[i] * x[i]` over the first `n` entries.
pub open spec fn dot(w: Seq<i64>, x: Seq<i64>, n: int) -> int
    decreases n,
{
    if n <= 0 {
        0
    } else {
        dot(w, x, n - 1) + w[n - 1] * x[n - 1]
    }
}

/// Linear score `w . x + b` in fixed point.
pub open spec fn score_spec(w: Seq<i64>, b: int, x: Seq<i64>) -> int {
    scale_down_spec(dot(w, x, LEVELS as int)) + b
}

/// One gradient step's change of a weight: `lr * err * x`, truncated.
pub open spec fn weight_step(lr: int, err: int, x: int) -> int {
    scale_down_spec(scale_down_spec(lr * err * x))
}

/// The trade that an up-probability `p_up` calls for.
pub open spec fn decide(p_up: int, theta: int) -> Option<Order> {
    if p_up - HALF > theta {
        Some(Order { instrument: 0, side: Side::Buy, qty: ORDER_QTY, limit_px: None })
    } else if HALF - p_up > theta {
        Some(Order { instrument: 0, side: Side::Sell, qty: ORDER_QTY, limit_px: None })
    } else {
        None
    }
}

proof fn lemma_step_bounds(lr: int, err: int, x: int)
    requires
        0 <= lr <= MAX_LR,
        -SCALE <= err <= SCALE,
        -SCALE <= x <= SCALE,
    ensures
        -(MAX_LR * SCALE) <= lr * err <= MAX_LR * SCALE,
        -(MAX_LR * SCALE * SCALE) <= lr * err * x <= MAX_LR * SCALE * SCALE,
        -lr <= weight_step(lr, err, x) <= lr,
        -lr <= scale_down_spec(lr * err) <= lr,
{
    assert(-(lr * SCALE) <= lr * err <= lr * SCALE) by (nonlinear_arith)
        requires
            0 <= lr,
            -SCALE <= err <= SCALE,
    ;
    assert(lr * SCALE <= MAX_LR * SCALE) by (nonlinear_arith)
        requires
            0 <= lr <= MAX_LR,
    ;
    let e = lr * err;
    assert(-(lr * SCALE * SCALE) <= e * x <= lr * SCALE * SCALE) by (nonlinear_arith)
        requires
            -(lr * SCALE) <= e <= lr * SCALE,
            -SCALE <= x <= SCALE,
    ;
    assert(lr * SCALE * SCALE <= MAX_LR * SCALE * SCALE) by (nonlinear_arith)
        requires
            0 <= lr <= MAX_LR,
    ;
    assert(lr * err * x == e * x);
    let p = e * x;
    let q = scale_down_spec(p);
    assert(-(lr * SCALE) <= q <= lr * SCALE) by {
        if p >= 0 {
            assert(p / 1_000_000 <= (lr * SCALE * SCALE) / 1_000_000) by (nonlinear_arith)
                requires
                    0 <= p <= lr * SCALE * SCALE,
            ;
            assert((lr * SCALE * SCALE) / 1_000_000 == lr * SCALE);
        } else {
            assert((-p) / 1_000_000 <= (lr * SCALE * SCALE) / 1_000_000) by (nonlinear_arith)
                requires
                    0 <= -p <= lr * SCALE * SCALE,
            ;
            assert((lr * SCALE * SCALE) / 1_000_000 == lr * SCALE);
        }
    }
    if q >= 0 {
        assert(q / 1_000_000 <= (lr * SCALE) / 1_000_000) by (nonlinear_arith)
            requires
                0 <= q <= lr * SCALE,
        ;
    } else {
        assert((-q) / 1_000_000 <= (lr * SCALE) / 1_000_000) by (nonlinear_arith)
            requires
                0 <= -q <= lr * SCALE,
        ;
    }
    assert((lr * SCALE) / 1_000_000 == lr);
    if e >= 0 {
        assert(e / 1_000_000 <= (lr * SCALE) / 1_000_000) by (nonlinear_arith)
            requires
                0 <= e <= lr * SCALE,
        ;
    } else {
        assert((-e) / 1_000_000 <= (lr * SCALE) / 1_000_000) by (nonlinear_arith)
            requires
                0 <= -e <= lr * SCALE,
        ;
    }
}

/// Online logistic regression on per-level depth imbalance.
pub struct MLTrader {
    pub cfg: Cfg,
    pub w: Vec<i64>,
    pub b: i64,
    pub last_feat: Vec<i64>,
    pub last_mid: i64,
    pub have_prev: bool,
    /// Inventory from fills.
    pub pos: i64,
}

pub open spec fn features_bounded(x: Seq<i64>) -> bool {
    forall|i: int| 0 <= i < x.len() ==> -SCALE <= #[trigger] x[i] <= SCALE
}

impl MLTrader {
    pub open spec fn wf(&self) -> bool {
        &&& self.cfg.wf()
        &&& self.w@.len() == LEVELS
        &&& self.last_feat@.len() == LEVELS
        &&& features_bounded(self.last_feat@)
        &&& forall|i: int| 0 <= i < LEVELS ==> -MAX_WEIGHT <= #[trigger] self.w@[i] <= MAX_WEIGHT
        &&& -MAX_WEIGHT <= self.b <= MAX_WEIGHT
        &&& self.pos > i64::MIN
    }

    /// Every weight and the bias can take one more full step.
    pub open spec fn room(&self) -> bool {
        &&& forall|i: int|
            0 <= i < LEVELS ==> -MAX_WEIGHT + self.cfg.learning_rate <= #[trigger] self.w@[i]
                <= MAX_WEIGHT - self.cfg.learning_rate
        &&& -MAX_WEIGHT + self.cfg.learning_rate <= self.b <= MAX_WEIGHT - self.cfg.learning_rate
    }

    pub fn new(cfg: Cfg) -> (r: MLTrader)
        requires
            cfg.wf(),
        ensures
            r.wf(),
            r.cfg == cfg,
            r.w@ == seq![0i64, 0, 0, 0, 0],
            r.b == 0,
            r.last_feat@ == seq![0i64, 0, 0, 0, 0],
            r.last_mid == 0,
            !r.have_prev,
            r.pos == 0,
    {
        let w: Vec<i64> = vec![0, 0, 0, 0, 0];
        let last_feat: Vec<i64> = vec![0, 0, 0, 0, 0];
        let r = MLTrader { cfg, w, b: 0, last_feat, last_mid: 0, have_prev: false, pos: 0 };
        assert(r.w@ =~= seq![0i64, 0, 0, 0, 0]);
        r
    }

    pub fn has_room(&self) -> (r: bool)
        requires
            self.wf(),
        ensures
            r == self.room(),
    {
        let lr = self.cfg.learning_rate;
        let mut i: usize = 0;
        while i < LEVELS
            invariant
                self.wf(),
                lr == self.cfg.learning_rate,
                0 <= i <= LEVELS,
                forall|j: int|
                    0 <= j < i ==> -MAX_WEIGHT + self.cfg.learning_rate <= #[trigger] self.w@[j]
                        <= MAX_WEIGHT - self.cfg.learning_rate,
            decreases LEVELS - i,
        {
            let wi = self.w[i] as i128;
            if wi < -(MAX_WEIGHT as i128) + (lr as i128) || wi > (MAX_WEIGHT as i128) - (lr as i128) {
                proof {
                    assert(!(-MAX_WEIGHT + self.cfg.learning_rate <= self.w@[i as int] <= MAX_WEIGHT
                        - self.cfg.learning_rate));
                }
                return false;
            }
            assert(-MAX_WEIGHT + self.cfg.learning_rate <= self.w@[i as int] <= MAX_WEIGHT
                - self.cfg.learning_rate);
            i = i + 1;
        }
        let b = self.b as i128;
        -(MAX_WEIGHT as i128) + (lr as i128) <= b && b <= (MAX_WEIGHT as i128) - (lr as i128)
    }

    /// Per-level depth imbalance of a book.
    pub fn features(book: &Book) -> (r: Vec<i64>)
        requires
            book.wf(),
        ensures
            r@ == features_spec(*book),
            features_bounded(r@),
    {
        let mut x: Vec<i64> = Vec::new();
        let mut i: usize = 0;
        while i < LEVELS
            invariant
                book.wf(),
                0 <= i <= LEVELS,
                x@ == features_spec(*book).take(i as int),
                features_bounded(x@),
            decreases LEVELS - i,
        {
            let bv = book.bid_vol[i] as i128;
            let av = book.ask_vol[i] as i128;
            let den = bv + av;
            let num = (bv - av) * (SCALE as i128);
            let v: i128 = if den <= 0 {
                0
            } else if num >= 0 {
                num / den
            } else {
                -((-num) / den)
            };
            proof {
                if den > 0 {
                    if num >= 0 {
                        assert((num as int) / (den as int) <= SCALE) by (nonlinear_arith)
                            requires
                                0 <= num,
                                num == (bv - av) * SCALE,
                                bv - av <= den,
                                0 < den,
                        ;
                    } else {
                        assert((-num) as int / (den as int) <= SCALE) by (nonlinear_arith)
                            requires
                                0 < -num,
                                num == (bv - av) * SCALE,
                                av - bv <= den,
                                0 < den,
                        ;
                    }
                }
            }
            x.push(v as i64);
            i = i + 1;
            proof {
                assert(x@ =~= features_spec(*book).take(i as int));
            }
        }
        proof {
            assert(features_spec(*book).take(LEVELS as int) =~= features_spec(*book));
        }
        x
    }

    /// Linear score `w . x + b` of a feature vector, in fixed point; the
    /// caller takes its logistic to get an up-probability.
    pub fn score(&self, x: &Vec<i64>) -> (r: i128)
        requires
            self.wf(),
            x@.len() == LEVELS,
            features_bounded(x@),
        ensures
            r == score_spec(self.w@, self.b as int, x@),
    {
        let mut acc: i128 = 0;
        let mut i: usize = 0;
        while i < LEVELS
            invariant
                self.wf(),
                x@.len() == LEVELS,
                features_bounded(x@),
                0 <= i <= LEVELS,
                acc == dot(self.w@, x@, i as int),
                -(i * 1_000_000_000_000_000_000_000) <= acc <= i * 1_000_000_000_000_000_000_000,
            decreases LEVELS - i,
        {
            let a = self.w[i] as i128;
            let c = x[i] as i128;
            proof {
                assert(-1_000_000_000_000_000_000_000 <= a * c <= 1_000_000_000_000_000_000_000)
                    by (nonlinear_arith)
                    requires
                        -MAX_WEIGHT <= a <= MAX_WEIGHT,
                        -SCALE <= c <= SCALE,
                ;
            }
            acc = acc + a * c;
            i = i + 1;
        }
        scale_down(acc) + self.b as i128
    }

    /// Score of the previous tick's features under the current weights.
    pub fn score_prev(&self) -> (r: i128)
        requires
            self.wf(),
        ensures
            r == score_spec(self.w@, self.b as int, self.last_feat@),
    {
        self.score(&self.last_feat)
    }

    fn learn(&mut self, y: i64, pred: i64)
        requires
            old(self).wf(),
            old(self).room(),
            0 <= pred <= SCALE,
            0 <= y <= SCALE,
        ensures
            final(self).wf(),
            final(self).cfg == old(self).cfg,
            final(self).last_feat == old(self).last_feat,
            final(self).last_mid == old(self).last_mid,
            final(self).have_prev == old(self).have_prev,
            final(self).pos == old(self).pos,
            final(self).w@.len() == LEVELS,
            forall|i: int|
                0 <= i < LEVELS ==> #[trigger] final(self).w@[i] == old(self).w@[i] + weight_step(
                    old(self).cfg.learning_rate as int,
                    y - pred,
                    old(self).last_feat@[i] as int,
                ),
            final(self).b == old(self).b + scale_down_spec(old(self).cfg.learning_rate * (y - pred)),
    {
        let lr = self.cfg.learning_rate as i128;
        let err = (y as i128) - (pred as i128);
        let mut i: usize = 0;
        while i < LEVELS
            invariant
                old(self).wf(),
                old(self).room(),
                self.cfg == old(self).cfg,
                self.b == old(self).b,
                self.last_feat == old(self).last_feat,
                self.last_mid == old(self).last_mid,
                self.have_prev == old(self).have_prev,
                self.pos == old(self).pos,
                self.w@.len() == LEVELS,
                lr == self.cfg.learning_rate,
                -SCALE <= err <= SCALE,
                0 <= i <= LEVELS,
                forall|j: int|
                    0 <= j < i ==> #[trigger] self.w@[j] == old(self).w@[j] + weight_step(
                        lr as int,
                        err as int,
                        old(self).last_feat@[j] as int,
                    ),
                forall|j: int| i <= j < LEVELS ==> #[trigger] self.w@[j] == old(self).w@[j],
                forall|j: int| 0 <= j < LEVELS ==> -MAX_WEIGHT <= #[trigger] self.w@[j] <= MAX_WEIGHT,
            decreases LEVELS - i,
        {
            let xi = self.last_feat[i] as i128;
            proof {
                lemma_step_bounds(lr as int, err as int, xi as int);
            }
            let step = scale_down(scale_down(lr * err * xi));
            let nw = ((self.w[i] as i128) + step) as i64;
            self.w.set(i, nw);
            i = i + 1;
        }
        proof {
            lemma_step_bounds(lr as int, err as int, 0);
        }
        let bstep = scale_down(lr * err);
        self.b = ((self.b as i128) + bstep) as i64;
    }

    /// Handles a book snapshot. `p_up` is the logistic of this book's score
    /// and `pred_prev` that of the previous features' score (both in fixed
    /// point, from `score` and `score_prev` before this call). When a previous
    /// snapshot exists, takes one gradient step on the previous features with
    /// label "mid went up"; then remembers this snapshot and trades if `p_up`
    /// is further than `theta` from one half.
    pub fn on_book(&mut self, book: &Book, p_up: i64, pred_prev: i64) -> (r: Option<Order>)
        requires
            old(self).wf(),
            old(self).room(),
            book.wf(),
            0 <= pred_prev <= SCALE,
        ensures
            final(self).wf(),
            final(self).cfg == old(self).cfg,
            final(self).last_feat@ == features_spec(*book),
            final(self).last_mid == book.mid,
            final(self).have_prev,
            final(self).pos == old(self).pos,
            r == decide(p_up as int, old(self).cfg.theta as int),
            !old(self).have_prev ==> final(self).w == old(self).w && final(self).b == old(self).b,
            old(self).have_prev ==> ({
                let y: int = if book.mid > old(self).last_mid { SCALE as int } else { 0 };
                &&& final(self).w@.len() == LEVELS
                &&& (forall|i: int|
                    0 <= i < LEVELS ==> #[trigger] final(self).w@[i] == old(self).w@[i] + weight_step(
                        old(self).cfg.learning_rate as int,
                        y - pred_prev,
                        old(self).last_feat@[i] as int,
                    ))
                &&& final(self).b == old(self).b + scale_down_spec(
                    old(self).cfg.learning_rate * (y - pred_prev),
                )
            }),
    {
        let x = Self::features(book);
        if self.have_prev {
            let y: i64 = if book.mid > self.last_mid {
                SCALE
            } else {
                0
            };
            self.learn(y, pred_prev);
        }
        self.last_feat = x;
        self.last_mid = book.mid;
        self.have_prev = true;
        let theta = self.cfg.theta as i128;
        if (p_up as i128) - (HALF as i128) > theta {
            Some(Order { instrument: 0, side: Side::Buy, qty: ORDER_QTY, limit_px: None })
        } else if (HALF as i128) - (p_up as i128) > theta {
            Some(Order { instrument: 0, side: Side::Sell, qty: ORDER_QTY, limit_px: None })
        } else {
            None
        }
    }

    /// Books a fill on the inventory; the model is not touched.
    pub fn on_fill(&mut self, f: &Fill)
        requires
            old(self).wf(),
            f.qty > i64::MIN,
            i64::MIN < old(self).pos + fill_delta(f.side, f.qty as int) <= i64::MAX,
        ensures
            final(self).wf(),
            final(self).pos == old(self).pos + fill_delta(f.side, f.qty as int),
            final(self).cfg == old(self).cfg,
            final(self).w == old(self).w,
            final(self).b == old(self).b,
            final(self).last_feat == old(self).last_feat,
            final(self).last_mid == old(self).last_mid,
            final(self).have_prev == old(self).have_prev,
    {
        self.pos = ((self.pos as i128) + (f.side.signed(f.qty) as i128)) as i64;
    }

    pub fn inv(&self) -> (r: i64)
        ensures
            r == self.pos,
    {
        self.pos
    }

    /// Inventory if `ord` were filled.
    pub fn inv_after(&self, ord: &Order) -> (r: i64)
        requires
            ord.qty > i64::MIN,
            i64::MIN <= self.pos + fill_delta(ord.side, ord.qty as int) <= i64::MAX,
        ensures
            r == self.pos + fill_delta(ord.side, ord.qty as int),
    {
        ((self.pos as i128) + (ord.side.signed(ord.qty) as i128)) as i64
    }
}

} // verus!
