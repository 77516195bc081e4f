use vstd::prelude::*;

use crate::fixed::SCALE;

verus! {

/// Largest configurable window length.
pub const MAX_LOOKBACK: usize = 10_000;

/// Largest magnitude of one sample; with `MAX_LOOKBACK` it keeps the
/// running sum of squares, times the length, within `i128`.
pub const MAX_SAMPLE: i64 = 10_000_000_000_000;

pub open spec fn seq_sum(s: Seq<i64>) -> int
    decreases s.len(),
{
    if s.len() == 0 {
        0
    } else {
        seq_sum(s.drop_last()) + s.last()
    }
}

pub open spec fn seq_sum_sq(s: Seq<i64>) -> int
    decreases s.len(),
{
    if s.len() == 0 {
        0
    } else {
        seq_sum_sq(s.drop_last()) + s.last() * s.last()
    }
}

/// `n * (x_last - mean)` for the samples `s`, `n` their number.
pub open spec fn dev_num(s: Seq<i64>) -> int {
    s.len() * s.last() - seq_sum(s)
}

/// `n * n * variance` (population variance) for the samples `s`.
pub open spec fn var_num(s: Seq<i64>) -> int {
    s.len() * seq_sum_sq(s) - seq_sum(s) * seq_sum(s)
}

pub open spec fn is_floor_sqrt(r: int, v: int) -> bool {
    0 <= r && r * r <= v && v < (r + 1) * (r + 1)
}

/// Largest integer whose square does not exceed `v` (for `v >= 0`).
pub open spec fn floor_sqrt(v: int) -> int {
    choose|r: int| is_floor_sqrt(r, v)
}

/// `dev / max(root, n * eps)` in fixed point, truncated toward zero.
pub open spec fn z_from(dev: int, root: int, n: int, eps: int) -> int {
    let den = if root > n * eps {
        root
    } else {
        n * eps
    };
    if dev >= 0 {
        dev * SCALE / den
    } else {
        -((-dev) * SCALE / den)
    }
}

/// z-score of the newest sample, `(x_last - mean) / max(std, eps)`, in
/// fixed point; the standard deviation is the population one, and the
/// square root of `n * n * variance` is taken to the integer below.
pub open spec fn z_score(s: Seq<i64>, eps: int) -> int {
    let v = var_num(s);
    z_from(dev_num(s), floor_sqrt(if v < 0 { 0 } else { v }), s.len() as int, eps)
}

pub open spec fn samples_bounded(s: Seq<i64>) -> bool {
    forall|i: int| 0 <= i < s.len() ==> -MAX_SAMPLE <= #[trigger] s[i] <= MAX_SAMPLE
}

proof fn lemma_floor_sqrt_unique(r: int, v: int)
    requires
        is_floor_sqrt(r, v),
    ensures
        floor_sqrt(v) == r,
{
    let q = floor_sqrt(v);
    assert(is_floor_sqrt(q, v));
    if q < r {
        assert((q + 1) * (q + 1) <= r * r) by (nonlinear_arith)
            requires
                0 <= q,
                q + 1 <= r,
        ;
    } else if r < q {
        assert((r + 1) * (r + 1) <= q * q) by (nonlinear_arith)
            requires
                0 <= r,
                r + 1 <= q,
        ;
    }
}

proof fn lemma_sums_bounded(s: Seq<i64>)
    requires
        samples_bounded(s),
    ensures
        -(s.len() * MAX_SAMPLE) <= seq_sum(s) <= s.len() * MAX_SAMPLE,
        0 <= seq_sum_sq(s) <= s.len() * (MAX_SAMPLE * MAX_SAMPLE),
    decreases s.len(),
{
    if s.len() > 0 {
        let t = s.drop_last();
        assert(samples_bounded(t)) by {
            assert forall|i: int| 0 <= i < t.len() implies -MAX_SAMPLE <= #[trigger] t[i]
                <= MAX_SAMPLE by {
                assert(t[i] == s[i]);
            }
        }
        lemma_sums_bounded(t);
        let x = s.last() as int;
        assert(-MAX_SAMPLE <= x <= MAX_SAMPLE);
        assert(0 <= x * x <= MAX_SAMPLE * MAX_SAMPLE) by (nonlinear_arith)
            requires
                -MAX_SAMPLE <= x <= MAX_SAMPLE,
        ;
    }
}

proof fn lemma_sums_cons(s: Seq<i64>)
    requires
        s.len() > 0,
    ensures
        seq_sum(s) == s[0] + seq_sum(s.drop_first()),
        seq_sum_sq(s) == s[0] * s[0] + seq_sum_sq(s.drop_first()),
    decreases s.len(),
{
    if s.len() > 1 {
        lemma_sums_cons(s.drop_last());
        assert(s.drop_last().drop_first() =~= s.drop_first().drop_last());
    } else {
        assert(s.drop_last() =~= Seq::<i64>::empty());
        assert(s.drop_first() =~= Seq::<i64>::empty());
    }
}

/// Floor square root by bisection.
fn isqrt(v: u128) -> (r: u128)
    requires
        v < 1_000_000_000_000_000_000_000_000_000_000_000_000,
    ensures
        is_floor_sqrt(r as int, v as int),
        r < 1_000_000_000_000_000_000,
{
    let mut lo: u128 = 0;
    let mut hi: u128 = 1_000_000_000_000_000_000;
    assert(hi * hi == 1_000_000_000_000_000_000_000_000_000_000_000_000u128);
    while hi - lo > 1
        invariant
            lo < hi <= 1_000_000_000_000_000_000,
            lo * lo <= v,
            v < hi * hi,
        decreases hi - lo,
    {
        let mid: u128 = lo + (hi - lo) / 2;
        assert(mid * mid <= 1_000_000_000_000_000_000_000_000_000_000_000_000) by (nonlinear_arith)
            requires
                mid <= 1_000_000_000_000_000_000,
        ;
        if mid * mid <= v {
            lo = mid;
        } else {
            hi = mid;
        }
    }
    assert(hi == lo + 1);
    lo
}

/// Fixed-capacity window of the most recent samples, oldest evicted first.
/// Kept as a ring buffer with a running sum and sum of squares.
pub struct RollingWindow {
    buf: Vec<i64>,
    head: usize,
    cap: usize,
    sum: i128,
    sum_sq: i128,
}

impl RollingWindow {
    spec fn slot(&self, i: int) -> int {
        if self.head + i < self.buf@.len() {
            self.head + i
        } else {
            self.head + i - self.buf@.len()
        }
    }

    /// The samples, oldest first.
    pub closed spec fn view(&self) -> Seq<i64> {
        Seq::new(self.buf@.len(), |i: int| self.buf@[self.slot(i)])
    }

    pub closed spec fn capacity_spec(&self) -> nat {
        self.cap as nat
    }

    pub closed spec fn wf(&self) -> bool {
        &&& 1 <= self.cap <= MAX_LOOKBACK
        &&& self.buf@.len() <= self.cap
        &&& (self.buf@.len() < self.cap ==> self.head == 0)
        &&& (self.head == 0 || self.head < self.buf@.len())
        &&& samples_bounded(self.buf@)
        &&& self.sum == seq_sum(self.view())
        &&& self.sum_sq == seq_sum_sq(self.view())
    }

    proof fn lemma_view_bounded(&self)
        requires
            self.wf(),
        ensures
            samples_bounded(self.view()),
            self.view().len() <= self.capacity_spec() <= MAX_LOOKBACK,
    {
        assert forall|i: int| 0 <= i < self.view().len() implies -MAX_SAMPLE <= #[trigger] self.view()[i]
            <= MAX_SAMPLE by {
            assert(self.view()[i] == self.buf@[self.slot(i)]);
        }
    }

    pub fn new(capacity: usize) -> (r: RollingWindow)
        requires
            1 <= capacity <= MAX_LOOKBACK,
        ensures
            r.wf(),
            r.view() == Seq::<i64>::empty(),
            r.capacity_spec() == capacity,
    {
        let r = RollingWindow { buf: Vec::new(), head: 0, cap: capacity, sum: 0, sum_sq: 0 };
        assert(r.view() =~= Seq::<i64>::empty());
        r
    }

    /// Appends a sample, evicting the oldest one when the window is full.
    pub fn push(&mut self, x: i64)
        requires
            old(self).wf(),
            -MAX_SAMPLE <= x <= MAX_SAMPLE,
        ensures
            final(self).wf(),
            final(self).capacity_spec() == old(self).capacity_spec(),
            final(self).view().len() <= final(self).capacity_spec(),
            final(self).view() == (if old(self).view().len() < old(self).capacity_spec() {
                old(self).view().push(x)
            } else {
                old(self).view().drop_first().push(x)
            }),
    {
        let ghost old_view = self.view();
        proof {
            self.lemma_view_bounded();
            lemma_sums_bounded(old_view);
            assert(0 <= x * x <= MAX_SAMPLE * MAX_SAMPLE) by (nonlinear_arith)
                requires
                    -MAX_SAMPLE <= x <= MAX_SAMPLE,
            ;
        }
        if self.buf.len() < self.cap {
            self.buf.push(x);
            proof {
                assert(self.view() =~= old_view.push(x));
                assert(self.view().drop_last() =~= old_view);
                assert(self.view().last() == x);
                assert(seq_sum(self.view()) == seq_sum(old_view) + x);
                assert(seq_sum_sq(self.view()) == seq_sum_sq(old_view) + x * x);
            }
            self.sum = self.sum + x as i128;
            self.sum_sq = self.sum_sq + (x as i128) * (x as i128);
            assert(self.view() =~= old_view.push(x));
        } else {
            let gone = self.buf[self.head];
            proof {
                assert(gone == old_view[0]);
                lemma_sums_cons(old_view);
                assert(-MAX_SAMPLE <= gone <= MAX_SAMPLE);
                assert(0 <= gone * gone <= MAX_SAMPLE * MAX_SAMPLE) by (nonlinear_arith)
                    requires
                        -MAX_SAMPLE <= gone <= MAX_SAMPLE,
                ;
            }
            self.buf.set(self.head, x);
            self.head = if self.head + 1 == self.cap {
                0
            } else {
                self.head + 1
            };
            proof {
                assert(self.view() =~= old_view.drop_first().push(x));
                assert(self.view().drop_last() =~= old_view.drop_first());
                assert(self.view().last() == x);
                assert(seq_sum(self.view()) == seq_sum(old_view.drop_first()) + x);
                assert(seq_sum_sq(self.view()) == seq_sum_sq(old_view.drop_first()) + x * x);
            }
            self.sum = self.sum - gone as i128 + x as i128;
            self.sum_sq = self.sum_sq - (gone as i128) * (gone as i128) + (x as i128) * (x as i128);
            assert(self.view() =~= old_view.drop_first().push(x));
        }
        proof {
            assert forall|i: int| 0 <= i < self.buf@.len() implies -MAX_SAMPLE <= #[trigger] self.buf@[i]
                <= MAX_SAMPLE by {
            }
        }
    }

    pub fn len(&self) -> (r: usize)
        requires
            self.wf(),
        ensures
            r == self.view().len(),
    {
        self.buf.len()
    }

    pub fn capacity(&self) -> (r: usize)
        ensures
            r == self.capacity_spec(),
    {
        self.cap
    }

    pub fn is_full(&self) -> (r: bool)
        requires
            self.wf(),
        ensures
            r == (self.view().len() == self.capacity_spec()),
    {
        self.buf.len() == self.cap
    }

    pub fn sum(&self) -> (r: i128)
        requires
            self.wf(),
        ensures
            r == seq_sum(self.view()),
    {
        self.sum
    }

    pub fn sum_sq(&self) -> (r: i128)
        requires
            self.wf(),
        ensures
            r == seq_sum_sq(self.view()),
    {
        self.sum_sq
    }

    /// Newest sample.
    pub fn last(&self) -> (r: i64)
        requires
            self.wf(),
            self.view().len() > 0,
        ensures
            r == self.view().last(),
    {
        let n = self.buf.len();
        let i: usize = if self.head == 0 {
            n - 1
        } else {
            self.head - 1
        };
        proof {
            assert(self.view()[n - 1] == self.buf@[self.slot(n - 1)]);
        }
        self.buf[i]
    }

    /// z-score of the newest sample against the window, with the standard
    /// deviation floored at `eps` (in sample units).
    pub fn z_last(&self, eps: i64) -> (r: i128)
        requires
            self.wf(),
            self.view().len() > 0,
            1 <= eps,
        ensures
            r == z_score(self.view(), eps as int),
    {
        let ghost s = self.view();
        proof {
            self.lemma_view_bounded();
            lemma_sums_bounded(s);
        }
        let n = self.buf.len() as i128;
        let sum = self.sum;
        let sq = self.sum_sq;
        let x = self.last() as i128;
        proof {
            let b = MAX_SAMPLE as int;
            assert(n * sq <= n * (n * (b * b))) by (nonlinear_arith)
                requires
                    0 <= sq <= n * (b * b),
                    0 <= n,
            ;
            assert(n * (n * (b * b)) <= 10_000 * (10_000 * (b * b))) by (nonlinear_arith)
                requires
                    0 <= n <= 10_000,
            ;
            assert(0 <= n * sq);
            assert(sum * sum <= (n * b) * (n * b)) by (nonlinear_arith)
                requires
                    -(n * b) <= sum <= n * b,
            ;
            assert((n * b) * (n * b) <= (10_000 * b) * (10_000 * b)) by (nonlinear_arith)
                requires
                    0 <= n <= 10_000,
                    b >= 0,
            ;
            assert(0 <= sum * sum) by (nonlinear_arith);
            assert(-(n * b) <= n * x <= n * b) by (nonlinear_arith)
                requires
                    -b <= x <= b,
                    0 <= n,
            ;
        }
        let v: i128 = n * sq - sum * sum;
        let v_pos: u128 = if v < 0 {
            0
        } else {
            v as u128
        };
        let root = isqrt(v_pos);
        proof {
            lemma_floor_sqrt_unique(root as int, v_pos as int);
            assert(root * root <= 10_000_000_000_000_000_000_000_000_000_000_000_000) by (nonlinear_arith)
                requires
                    root * root <= v_pos,
                    v_pos <= 10_000_000_000_000_000_000_000_000_000_000_000,
            ;
            assert(1 <= n * eps <= 10_000 * 9_223_372_036_854_775_807int) by (nonlinear_arith)
                requires
                    1 <= n <= 10_000,
                    1 <= eps <= 9_223_372_036_854_775_807int,
            ;
        }
        let dev: i128 = n * x - sum;
        let floor: i128 = n * (eps as i128);
        let den: i128 = if (root as i128) > floor {
            root as i128
        } else {
            floor
        };
        if dev >= 0 {
            dev * (SCALE as i128) / den
        } else {
            -((-dev) * (SCALE as i128) / den)
        }
    }
}

} // verus!
