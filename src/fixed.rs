use vstd::prelude::*;

verus! {

/// Number of fixed-point units in one whole unit (prices, quantities,
/// weights, hedge ratios, z-scores).
pub const SCALE: i64 = 1_000_000;

/// `a * b / SCALE`, truncated, for non-negative operands.
pub open spec fn mul_fp_spec(a: int, b: int) -> int {
    (a * b) / (SCALE as int)
}

/// Fixed-point product of two non-negative values, truncated.
pub fn mul_fp(a: i64, b: i64) -> (r: i64)
    requires
        0 <= a,
        0 <= b,
        mul_fp_spec(a as int, b as int) <= i64::MAX,
    ensures
        r as int == mul_fp_spec(a as int, b as int),
{
    let p: i128 = (a as i128) * (b as i128);
    (p / (SCALE as i128)) as i64
}

} // verus!

verus! {

/// `v / SCALE`, truncated toward zero.
pub open spec fn scale_down_spec(v: int) -> int {
    if v >= 0 {
        v / (SCALE as int)
    } else {
        -((-v) / (SCALE as int))
    }
}

pub fn scale_down(v: i128) -> (r: i128)
    requires
        v > i128::MIN,
    ensures
        r as int == scale_down_spec(v as int),
{
    if v >= 0 {
        v / (SCALE as i128)
    } else {
        -((-v) / (SCALE as i128))
    }
}

/// `|v|` for an inventory, which never holds `i64::MIN`.
pub fn abs_qty(v: i64) -> (r: i64)
    requires
        v > i64::MIN,
    ensures
        r as int == (if v >= 0 { v as int } else { -v }),
{
    if v >= 0 {
        v
    } else {
        -v
    }
}

} // verus!

verus! {

/// Largest price, in fixed point (1,000,000,000.0).
pub const MAX_PRICE: i64 = 1_000_000_000_000_000;

/// Rate units in one whole: rates are in hundredths of a basis point.
pub const RATE_DEN: i64 = 1_000_000;

} // verus!
