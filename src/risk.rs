use vstd::prelude::*;

verus! {

/// Length of one rate-limit window, in milliseconds.
pub const WINDOW_MS: u64 = 1000;

/// Admission control: a position limit and a per-second order ceiling.
pub struct Risk {
    pub inv_limit: i64,
    pub max_orders_sec: u64,
    pub sent_last_sec: u64,
    pub last_ts_ms: u64,
}

/// `|inv| <= limit`.
pub open spec fn within_limit(inv: int, limit: int) -> bool {
    -limit <= inv && inv <= limit
}

impl Risk {
    /// At most the ceiling has been admitted in the current window.
    pub open spec fn wf(&self) -> bool {
        self.sent_last_sec <= self.max_orders_sec
    }

    /// Whether a call at `now` starts a new window.
    pub open spec fn window_elapsed(&self, now: u64) -> bool {
        now >= self.last_ts_ms && now - self.last_ts_ms >= WINDOW_MS
    }

    /// The rate-limit part of admission, once the position check has passed.
    pub open spec fn rate_step(self, now: u64) -> (Risk, bool) {
        let reset = self.window_elapsed(now);
        let count: u64 = if reset { 0 } else { self.sent_last_sec };
        let last: u64 = if reset { now } else { self.last_ts_ms };
        if count >= self.max_orders_sec {
            (Risk { sent_last_sec: count, last_ts_ms: last, ..self }, false)
        } else {
            (Risk { sent_last_sec: (count + 1) as u64, last_ts_ms: last, ..self }, true)
        }
    }

    /// One admission decision for an order whose post-trade inventory is `inv_after`.
    pub open spec fn gate_step(self, inv_after: int, now: u64) -> (Risk, bool) {
        if !within_limit(inv_after, self.inv_limit as int) {
            (self, false)
        } else {
            self.rate_step(now)
        }
    }

    pub fn new(inv_limit: i64, max_orders_sec: u64, now_ms: u64) -> (r: Risk)
        ensures
            r.wf(),
            r == (Risk { inv_limit, max_orders_sec, sent_last_sec: 0, last_ts_ms: now_ms }),
    {
        Risk { inv_limit, max_orders_sec, sent_last_sec: 0, last_ts_ms: now_ms }
    }

    fn take_rate_slot(&mut self, now_ms: u64) -> (r: bool)
        requires
            old(self).wf(),
        ensures
            final(self).wf(),
            (*final(self), r) == old(self).rate_step(now_ms),
    {
        if now_ms >= self.last_ts_ms && now_ms - self.last_ts_ms >= WINDOW_MS {
            self.sent_last_sec = 0;
            self.last_ts_ms = now_ms;
        }
        if self.sent_last_sec >= self.max_orders_sec {
            return false;
        }
        self.sent_last_sec = self.sent_last_sec + 1;
        true
    }

    /// Admits an order whose hypothetical post-trade inventory is `inv_after`,
    /// at wall-clock time `now_ms`. The position check comes first and leaves
    /// the rate counter untouched when it rejects.
    pub fn allow(&mut self, inv_after: i64, now_ms: u64) -> (r: bool)
        requires
            old(self).wf(),
        ensures
            final(self).wf(),
            (*final(self), r) == old(self).gate_step(inv_after as int, now_ms),
    {
        if (inv_after as i128) < -(self.inv_limit as i128) || inv_after > self.inv_limit {
            return false;
        }
        self.take_rate_slot(now_ms)
    }

    /// Admission for an order that moves several balances at once (one per
    /// currency): every post-trade balance must be within the limit.
    pub fn allow_all(&mut self, invs_after: &Vec<i64>, now_ms: u64) -> (r: bool)
        requires
            old(self).wf(),
        ensures
            final(self).wf(),
            (forall|i: int|
                0 <= i < invs_after@.len() ==> within_limit(
                    invs_after@[i] as int,
                    old(self).inv_limit as int,
                )) ==> (*final(self), r) == old(self).rate_step(now_ms),
            !(forall|i: int|
                0 <= i < invs_after@.len() ==> within_limit(
                    invs_after@[i] as int,
                    old(self).inv_limit as int,
                )) ==> (*final(self) == *old(self) && !r),
    {
        let mut i: usize = 0;
        while i < invs_after.len()
            invariant
                0 <= i <= invs_after@.len(),
                *self == *old(self),
                self.wf(),
                forall|j: int|
                    0 <= j < i ==> within_limit(invs_after@[j] as int, self.inv_limit as int),
            decreases invs_after@.len() - i,
        {
            let v = invs_after[i];
            if (v as i128) < -(self.inv_limit as i128) || v > self.inv_limit {
                return false;
            }
            i = i + 1;
        }
        self.take_rate_slot(now_ms)
    }
}

/// Runs admission over a sequence of `(inv_after, now)` calls; returns the
/// final state and the number of admitted calls.
pub open spec fn gate_run(s: Risk, calls: Seq<(i64, u64)>) -> (Risk, nat)
    decreases calls.len(),
{
    if calls.len() == 0 {
        (s, 0)
    } else {
        let (s1, ok) = s.gate_step(calls[0].0 as int, calls[0].1);
        let (s2, n) = gate_run(s1, calls.drop_first());
        (s2, if ok { n + 1 } else { n })
    }
}

/// An admitted order never has a post-trade inventory beyond the limit, and
/// an inventory exactly at the limit is not rejected by the position check.
pub proof fn lemma_limit_respected(s: Risk, inv_after: int, now: u64)
    requires
        s.inv_limit >= 0,
    ensures
        s.gate_step(inv_after, now).1 ==> within_limit(inv_after, s.inv_limit as int),
        inv_after == s.inv_limit || inv_after == -s.inv_limit ==> s.gate_step(inv_after, now)
            == s.rate_step(now),
        inv_after > s.inv_limit || inv_after < -s.inv_limit ==> !s.gate_step(inv_after, now).1,
{
}

/// Within one window (every request at least as late as the window's start
/// and less than a second after it), admission lets through at most the ceiling,
/// counting what the window had already admitted.
pub proof fn lemma_rate_ceiling(s: Risk, calls: Seq<(i64, u64)>)
    requires
        s.wf(),
        forall|i: int|
            0 <= i < calls.len() ==> s.last_ts_ms <= calls[i].1 && calls[i].1 < s.last_ts_ms
                + WINDOW_MS,
    ensures
        gate_run(s, calls).1 + s.sent_last_sec <= s.max_orders_sec,
        gate_run(s, calls).0.last_ts_ms == s.last_ts_ms,
    decreases calls.len(),
{
    if calls.len() > 0 {
        let s1 = s.gate_step(calls[0].0 as int, calls[0].1).0;
        assert forall|i: int| 0 <= i < calls.drop_first().len() implies s1.last_ts_ms
            <= calls.drop_first()[i].1 && calls.drop_first()[i].1 < s1.last_ts_ms + WINDOW_MS by {
            assert(calls.drop_first()[i] == calls[i + 1]);
        }
        lemma_rate_ceiling(s1, calls.drop_first());
    }
}

/// The counter resets exactly when a full second has passed since the
/// window's start: one millisecond earlier it does not.
pub proof fn lemma_window_reset(s: Risk, now: u64)
    requires
        s.wf(),
    ensures
        s.window_elapsed(now) ==> s.rate_step(now).0.last_ts_ms == now && s.rate_step(now).1 == (
        0 < s.max_orders_sec),
        now >= s.last_ts_ms && now < s.last_ts_ms + WINDOW_MS ==> s.rate_step(now).0.last_ts_ms
            == s.last_ts_ms && s.rate_step(now).1 == (s.sent_last_sec < s.max_orders_sec),
{
}

} // verus!
