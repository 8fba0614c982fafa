//! Prices are whole cents. A buy price is the sell price marked up by a
//! percentage; a price move is given in basis points of the sell price.

use vstd::prelude::*;

verus! {

/// The smallest markup: a buy price never lies below the sell price.
pub const MIN_MARKUP_PERCENT: u32 = 100;

/// The basis points in a whole.
pub const BASIS: u64 = 10000;

/// The buy price for a sell price and a markup in percent, rounded down.
pub open spec fn buy_price_of(sell: u32, markup_percent: u32) -> int {
    (sell as int * markup_percent as int) / 100
}

/// The sell price after a move of `bp` basis points, rounded toward the old
/// price, kept at least one cent and at most `u32::MAX` cents.
pub open spec fn moved_price(sell: u32, bp: i32) -> int {
    if bp >= 0 {
        let up = sell as int + (sell as int * bp as int) / (BASIS as int);
        if up > u32::MAX as int { u32::MAX as int } else { up }
    } else {
        let down = sell as int - (sell as int * (-(bp as int))) / (BASIS as int);
        if down < 1 { 1 } else { down }
    }
}

/// Computes `buy_price_of`.
pub fn buy_price_for(sell: u32, markup_percent: u32) -> (r: u64)
    ensures
        r == buy_price_of(sell, markup_percent),
{
    assert((sell as int) * (markup_percent as int) <= (u32::MAX as int) * (u32::MAX as int))
        by (nonlinear_arith);
    (sell as u64) * (markup_percent as u64) / 100
}

/// Computes `moved_price`.
pub fn move_price(sell: u32, bp: i32) -> (r: u32)
    ensures
        r == moved_price(sell, bp),
{
    let mag: u64 = if bp >= 0 { bp as u64 } else { (0i64 - bp as i64) as u64 };
    assert((sell as int) * (mag as int) <= (u32::MAX as int) * 2147483648) by (nonlinear_arith)
        requires
            mag <= 2147483648,
    ;
    let delta: u64 = (sell as u64) * mag / BASIS;
    if bp >= 0 {
        let up: u64 = sell as u64 + delta;
        if up > u32::MAX as u64 {
            u32::MAX
        } else {
            up as u32
        }
    } else {
        if delta >= sell as u64 {
            1
        } else {
            (sell as u64 - delta) as u32
        }
    }
}

} // verus!
