use vstd::prelude::*;

use crate::models::Order;
use crate::risk::Risk;

verus! {

/// Admission of a batch: each order goes through the risk check with its
/// own post-trade inventory, in order; returns the final risk state and the
/// admitted orders.
pub open spec fn admit_run(s: Risk, orders: Seq<Order>, invs: Seq<i64>, now: u64) -> (Risk, Seq<Order>)
    decreases orders.len(),
{
    if orders.len() == 0 || invs.len() == 0 {
        (s, Seq::empty())
    } else {
        let (s1, ok) = s.gate_step(invs[0] as int, now);
        let (s2, rest) = admit_run(s1, orders.drop_first(), invs.drop_first(), now);
        (s2, if ok { seq![orders[0]].add(rest) } else { rest })
    }
}

proof fn lemma_admit_run_snoc(s: Risk, orders: Seq<Order>, invs: Seq<i64>, now: u64, k: int)
    requires
        0 <= k < orders.len(),
        orders.len() == invs.len(),
    ensures
        ({
            let (s1, a1) = admit_run(s, orders.take(k), invs.take(k), now);
            let (s2, ok) = s1.gate_step(invs[k] as int, now);
            admit_run(s, orders.take(k + 1), invs.take(k + 1), now) == (
                s2,
                if ok { a1.push(orders[k]) } else { a1 },
            )
        }),
    decreases k,
{
    let o1 = orders.drop_first();
    let i1 = invs.drop_first();
    let (t, ok0) = s.gate_step(invs[0] as int, now);
    assert(orders.take(k + 1).drop_first() =~= o1.take(k));
    assert(invs.take(k + 1).drop_first() =~= i1.take(k));
    assert(orders.take(k + 1)[0] == orders[0]);
    assert(invs.take(k + 1)[0] == invs[0]);
    let (w2, rest) = admit_run(t, o1.take(k), i1.take(k), now);
    assert(admit_run(s, orders.take(k + 1), invs.take(k + 1), now) == (
        w2,
        if ok0 { seq![orders[0]].add(rest) } else { rest },
    ));
    if k > 0 {
        lemma_admit_run_snoc(t, o1, i1, now, k - 1);
        assert(orders.take(k).drop_first() =~= o1.take(k - 1));
        assert(invs.take(k).drop_first() =~= i1.take(k - 1));
        assert(orders.take(k)[0] == orders[0]);
        assert(invs.take(k)[0] == invs[0]);
        assert(o1[k - 1] == orders[k]);
        assert(i1[k - 1] == invs[k]);
        let (u1, b1) = admit_run(t, o1.take(k - 1), i1.take(k - 1), now);
        let (u2, ok) = u1.gate_step(invs[k] as int, now);
        assert(admit_run(t, o1.take(k), i1.take(k), now) == (u2, if ok { b1.push(orders[k]) } else { b1 }));
        assert(admit_run(s, orders.take(k), invs.take(k), now) == (u1, if ok0 { seq![orders[0]].add(b1) } else { b1 }));
        if ok0 && ok {
            assert(seq![orders[0]].add(b1.push(orders[k])) =~= seq![orders[0]].add(b1).push(orders[k]));
        }
    } else {
        assert(o1.take(0) =~= Seq::<Order>::empty());
        assert(i1.take(0) =~= Seq::<i64>::empty());
        assert(orders.take(0) =~= Seq::<Order>::empty());
        assert(invs.take(0) =~= Seq::<i64>::empty());
        assert(seq![orders[0]].add(Seq::<Order>::empty()) =~= Seq::<Order>::empty().push(orders[0]));
    }
}

/// Routes a batch of proposed orders through the risk check, `invs_after[i]`
/// being the inventory that `orders[i]` would leave; returns those admitted,
/// in the order proposed.
pub fn admit_orders(risk: &mut Risk, orders: &Vec<Order>, invs_after: &Vec<i64>, now_ms: u64) -> (r: Vec<Order>)
    requires
        old(risk).wf(),
        orders@.len() == invs_after@.len(),
    ensures
        final(risk).wf(),
        (*final(risk), r@) == admit_run(*old(risk), orders@, invs_after@, now_ms),
{
    let mut out: Vec<Order> = Vec::new();
    let mut i: usize = 0;
    let ghost start = *risk;
    while i < orders.len()
        invariant
            orders@.len() == invs_after@.len(),
            0 <= i <= orders@.len(),
            risk.wf(),
            (*risk, out@) == admit_run(start, orders@.take(i as int), invs_after@.take(i as int), now_ms),
        decreases orders@.len() - i,
    {
        proof {
            lemma_admit_run_snoc(start, orders@, invs_after@, now_ms, i as int);
        }
        if risk.allow(invs_after[i], now_ms) {
            out.push(orders[i]);
        }
        i = i + 1;
    }
    proof {
        assert(orders@.take(orders@.len() as int) =~= orders@);
        assert(invs_after@.take(invs_after@.len() as int) =~= invs_after@);
    }
    out
}

/// Every order that admission lets through has a post-trade inventory
/// within the limit.
pub proof fn lemma_admitted_within_limit(s: Risk, orders: Seq<Order>, invs: Seq<i64>, now: u64)
    requires
        orders.len() == invs.len(),
    ensures
        forall|o: Order|
            admit_run(s, orders, invs, now).1.contains(o) ==> exists|i: int|
                0 <= i < orders.len() && orders[i] == o && -s.inv_limit <= #[trigger] invs[i]
                    <= s.inv_limit,
    decreases orders.len(),
{
    if orders.len() > 0 {
        let (s1, ok) = s.gate_step(invs[0] as int, now);
        lemma_admitted_within_limit(s1, orders.drop_first(), invs.drop_first(), now);
        let (s2, rest) = admit_run(s1, orders.drop_first(), invs.drop_first(), now);
        assert(s1.inv_limit == s.inv_limit);
        assert forall|o: Order| admit_run(s, orders, invs, now).1.contains(o) implies exists|i: int|
            0 <= i < orders.len() && orders[i] == o && -s.inv_limit <= #[trigger] invs[i]
                <= s.inv_limit by {
            let all = admit_run(s, orders, invs, now).1;
            let j = choose|j: int| 0 <= j < all.len() && all[j] == o;
            if ok && j == 0 {
                assert(invs[0] == invs[0]);
            } else {
                let jj = if ok { j - 1 } else { j };
                assert(rest[jj] == o);
                assert(rest.contains(o));
                let i = choose|i: int|
                    0 <= i < orders.drop_first().len() && orders.drop_first()[i] == o && -s1.inv_limit
                        <= #[trigger] invs.drop_first()[i] <= s1.inv_limit;
                assert(orders[i + 1] == o);
                assert(invs[i + 1] == invs.drop_first()[i]);
            }
        }
    }
}

} // verus!
