use vstd::prelude::*;

verus! {

/// Direction of an order or a fill.
#[derive(Clone, Copy, Debug, PartialEq, Eq, Structural)]
pub enum Side {
    Buy,
    Sell,
}

/// Signed inventory change of a fill of `qty` on `side`.
pub open spec fn fill_delta(side: Side, qty: int) -> int {
    match side {
        Side::Buy => qty,
        Side::Sell => -qty,
    }
}

impl Side {
    /// The side that reduces an inventory of the given sign back to zero.
    pub open spec fn closing_spec(inv: int) -> Side {
        if inv > 0 {
            Side::Sell
        } else {
            Side::Buy
        }
    }

    pub fn closing(inv: i64) -> (r: Side)
        ensures
            r == Side::closing_spec(inv as int),
    {
        if inv > 0 {
            Side::Sell
        } else {
            Side::Buy
        }
    }

    /// `qty` signed by this side: positive for a buy, negative for a sell.
    pub fn signed(self, qty: i64) -> (r: i64)
        requires
            qty > i64::MIN,
        ensures
            r as int == fill_delta(self, qty as int),
    {
        match self {
            Side::Buy => qty,
            Side::Sell => -qty,
        }
    }
}

/// Top-of-book observation for one instrument or pair, in fixed-point units.
/// A single-price feed has `bid == ask`.
#[derive(Clone, Copy, Debug, PartialEq, Eq, Structural)]
pub struct Tick {
    pub instrument: usize,
    pub bid: i64,
    pub ask: i64,
    pub ts_ms: u64,
}

/// Order proposed by a strategy; `limit_px` is `None` for a market order.
#[derive(Clone, Copy, Debug, PartialEq, Eq, Structural)]
pub struct Order {
    pub instrument: usize,
    pub side: Side,
    pub qty: i64,
    pub limit_px: Option<i64>,
}

/// Immediate and complete execution of an order.
#[derive(Clone, Copy, Debug, PartialEq, Eq, Structural)]
pub struct Fill {
    pub instrument: usize,
    pub side: Side,
    pub qty: i64,
    pub px: i64,
}

/// Sum of the signed deltas of a sequence of fills `(side, qty)`.
pub open spec fn net_delta(fills: Seq<(Side, i64)>) -> int
    decreases fills.len(),
{
    if fills.len() == 0 {
        0
    } else {
        net_delta(fills.drop_last()) + fill_delta(fills.last().0, fills.last().1 as int)
    }
}

/// Inventory reached from `inv` by applying `fills` one at a time, first to last,
/// each step being what a strategy's `on_fill` does to the instrument's inventory.
pub open spec fn apply_fills(inv: int, fills: Seq<(Side, i64)>) -> int
    decreases fills.len(),
{
    if fills.len() == 0 {
        inv
    } else {
        apply_fills(inv + fill_delta(fills[0].0, fills[0].1 as int), fills.drop_first())
    }
}

proof fn lemma_net_delta_cons(fills: Seq<(Side, i64)>)
    requires
        fills.len() > 0,
    ensures
        net_delta(fills) == fill_delta(fills[0].0, fills[0].1 as int) + net_delta(fills.drop_first()),
    decreases fills.len(),
{
    if fills.len() > 1 {
        lemma_net_delta_cons(fills.drop_last());
        assert(fills.drop_last().drop_first() =~= fills.drop_first().drop_last());
    } else {
        assert(fills.drop_last() =~= Seq::<(Side, i64)>::empty());
        assert(fills.drop_first() =~= Seq::<(Side, i64)>::empty());
    }
}

/// The inventory tracked through any sequence of fills is the starting
/// inventory plus the signed sum of the fills' quantities.
pub proof fn lemma_inventory_is_signed_sum(inv: int, fills: Seq<(Side, i64)>)
    ensures
        apply_fills(inv, fills) == inv + net_delta(fills),
    decreases fills.len(),
{
    if fills.len() > 0 {
        lemma_net_delta_cons(fills);
        lemma_inventory_is_signed_sum(
            inv + fill_delta(fills[0].0, fills[0].1 as int),
            fills.drop_first(),
        );
    }
}

proof fn lemma_net_delta_concat(a: Seq<(Side, i64)>, b: Seq<(Side, i64)>)
    ensures
        net_delta(a + b) == net_delta(a) + net_delta(b),
    decreases b.len(),
{
    if b.len() == 0 {
        assert(a + b =~= a);
    } else {
        lemma_net_delta_concat(a, b.drop_last());
        assert((a + b).drop_last() =~= a + b.drop_last());
    }
}

/// Applying two batches of fills in either order ends at the same inventory.
pub proof fn lemma_fill_order_irrelevant(inv: int, a: Seq<(Side, i64)>, b: Seq<(Side, i64)>)
    ensures
        apply_fills(inv, a + b) == apply_fills(inv, b + a),
{
    lemma_inventory_is_signed_sum(inv, a + b);
    lemma_inventory_is_signed_sum(inv, b + a);
    lemma_net_delta_concat(a, b);
    lemma_net_delta_concat(b, a);
}

} // verus!
