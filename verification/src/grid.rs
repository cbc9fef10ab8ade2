//! Grid builder: a ladder of desired limit orders around an anchor price,
//! with inventory-biased sizes and hard budget caps (spot, long-only).

use vstd::prelude::*;

use crate::types::Bps;
use crate::types::MAX_AMOUNT;
use crate::types::MAX_BPS;
use crate::types::Money;
use crate::types::Price;
use crate::types::Qty;
use crate::types::Ratio;
use crate::types::SCALE;
use crate::types::lemma_capped_mul_div;
use crate::types::min_i64;
use crate::types::mul_div;
use crate::types::mul_div_opt;

verus! {

/// Order side.
#[derive(Clone, Copy, Debug, PartialEq, Eq, Structural)]
pub enum Side {
    Buy,
    Sell,
}

/// A desired (not yet placed) limit order.
#[derive(Clone, Copy, Debug, PartialEq, Eq, Structural)]
pub struct DesiredOrder {
    pub side: Side,
    pub price: Price,
    pub qty: Qty,
}

/// Grid configuration.
#[derive(Clone, Copy, Debug, PartialEq, Eq, Structural)]
pub struct GridParams {
    /// Levels per side.
    pub levels: usize,
    /// Step between levels, in bps.
    pub step: Bps,
    /// Target order size in quote.
    pub base_quote_per_order: Money,
    /// Strongest inventory-bias multiplier (fraction, at least one).
    pub max_size_mult: Ratio,
    /// Soft inventory band.
    pub soft_min: Ratio,
    pub soft_max: Ratio,
    /// Hard inventory band.
    pub hard_min: Ratio,
    pub hard_max: Ratio,
    /// Exchange minimum order size in base.
    pub min_base_qty: Qty,
}

pub open spec fn grid_params_wf(p: GridParams) -> bool {
    &&& p.levels <= 10_000
    &&& 1 <= p.step.0
    &&& (p.levels as int) * (p.step.0 as int) <= MAX_BPS
    &&& 0 <= p.base_quote_per_order.0 <= MAX_AMOUNT
    &&& SCALE <= p.max_size_mult.0 <= 100 * SCALE
    &&& 0 <= p.hard_min.0 <= p.soft_min.0 <= p.soft_max.0 <= p.hard_max.0 <= SCALE
    &&& 0 <= p.min_base_qty.0 <= MAX_AMOUNT
}

/// What the portfolio holds.
#[derive(Clone, Copy, Debug, PartialEq, Eq, Structural)]
pub struct Inventory {
    pub base: Qty,
    pub quote: Money,
}

pub open spec fn inventory_ok(inv: Inventory) -> bool {
    &&& -MAX_AMOUNT <= inv.base.0 <= MAX_AMOUNT
    &&& -MAX_AMOUNT <= inv.quote.0 <= MAX_AMOUNT
}

/// Equity in quote: `quote + base * mid`.
pub open spec fn spec_equity(inv: Inventory, mid: int) -> int {
    inv.quote.0 + inv.base.0 * mid / (SCALE as int)
}

/// Share of equity held in base, in fixed point.
pub open spec fn spec_base_ratio_val(inv: Inventory, mid: int) -> int {
    inv.base.0 * mid / (SCALE as int) * SCALE / spec_equity(inv, mid)
}

/// Equity in quote at the given mid price.
pub fn equity(inv: Inventory, mid: Price) -> (r: Money)
    requires
        0 <= inv.base.0 <= MAX_AMOUNT,
        0 <= inv.quote.0 <= MAX_AMOUNT,
        0 <= mid.0 <= MAX_AMOUNT,
    ensures
        r.0 == spec_equity(inv, mid.0 as int),
        0 <= r.0,
{
    proof {
        crate::types::lemma_amount_product_bounded(inv.base.0 as int, mid.0 as int);
    }
    let bv = mul_div(inv.base.0, mid.0, SCALE);
    Money(inv.quote.0 + bv)
}

/// Share of equity held in base, when equity is positive. The result is
/// always within `[0, 1]`.
pub fn base_ratio(inv: Inventory, mid: Price) -> (r: Option<Ratio>)
    requires
        0 <= inv.base.0 <= MAX_AMOUNT,
        0 <= inv.quote.0 <= MAX_AMOUNT,
        0 <= mid.0 <= MAX_AMOUNT,
    ensures
        spec_equity(inv, mid.0 as int) <= 0 ==> r is None,
        spec_equity(inv, mid.0 as int) > 0 ==> (r matches Some(x) && x.0 == spec_base_ratio_val(
            inv,
            mid.0 as int,
        ) && 0 <= x.0 <= SCALE),
{
    proof {
        crate::types::lemma_amount_product_bounded(inv.base.0 as int, mid.0 as int);
    }
    let bv = mul_div(inv.base.0, mid.0, SCALE);
    let e = inv.quote.0 + bv;
    if e <= 0 {
        return None;
    }
    proof {
        assert(bv * SCALE / (e as int) <= e * SCALE / (e as int)) by (nonlinear_arith)
            requires 0 <= bv <= e, 0 < e, 0 < SCALE;
        assert(e * SCALE / (e as int) == SCALE) by (nonlinear_arith)
            requires 0 < e;
    }
    Some(Ratio(mul_div(bv, SCALE, e)))
}

/// Law: with non-negative holdings and a positive price, equity is
/// non-negative, and the base ratio (when defined) lies in `[0, 1]`.
pub proof fn lemma_inventory_invariants(inv: Inventory, mid: int)
    requires
        0 <= inv.base.0,
        0 <= inv.quote.0,
        0 < mid,
    ensures
        spec_equity(inv, mid) >= 0,
        spec_equity(inv, mid) > 0 ==> 0 <= spec_base_ratio_val(inv, mid) <= SCALE,
{
    let bv = inv.base.0 * mid / (SCALE as int);
    assert(0 <= bv) by (nonlinear_arith)
        requires bv == inv.base.0 * mid / (SCALE as int), 0 <= inv.base.0, 0 < mid;
    let e = spec_equity(inv, mid);
    if e > 0 {
        assert(bv * SCALE / e <= e * SCALE / e) by (nonlinear_arith)
            requires 0 <= bv <= e, 0 < e, 0 < SCALE;
        assert(e * SCALE / e == SCALE) by (nonlinear_arith)
            requires 0 < e;
        assert(0 <= bv * SCALE / e) by (nonlinear_arith)
            requires 0 <= bv, 0 < e, 0 < SCALE;
    }
}

/// The buy/sell size multipliers for an inventory ratio `r`: the farther `r`
/// sits from one half, the more the rebalancing side is scaled up (to
/// `max_size_mult`) and the other scaled down (to its inverse).
pub open spec fn spec_grid_mults(r: int, p: GridParams) -> (int, int) {
    let half = (SCALE / 2) as int;
    let dist = if r >= half { r - half } else { half - r };
    let capped = if 2 * dist <= SCALE { 2 * dist } else { SCALE as int };
    let m = SCALE + (p.max_size_mult.0 - SCALE) * capped / (SCALE as int);
    if r > half {
        ((SCALE * SCALE / m), m)
    } else if r < half {
        (m, (SCALE * SCALE / m))
    } else {
        (SCALE as int, SCALE as int)
    }
}

/// Accumulated result of grid construction: orders so far, remaining quote,
/// remaining base.
pub open spec fn spec_grid_level(
    anchor: int,
    p: GridParams,
    buy_mult: int,
    sell_mult: int,
    level: int,
    acc: (Seq<DesiredOrder>, int, int),
) -> (Seq<DesiredOrder>, int, int) {
    let ls = p.step.0 * level;
    let fb = 10_000 + ls;
    let buy_price = anchor * 10_000 / fb;
    let sell_price = anchor * fb / 10_000;
    let base_qty_buy = if buy_price > 0 {
        p.base_quote_per_order.0 * SCALE / buy_price
    } else {
        0
    };
    let base_qty_sell = p.base_quote_per_order.0 * SCALE / sell_price;
    let desired_buy = base_qty_buy * buy_mult / (SCALE as int);
    let desired_sell = base_qty_sell * sell_mult / (SCALE as int);
    let max_buy_by_quote = if buy_price > 0 { acc.1 * SCALE / buy_price } else { 0 };
    let buy_qty = if desired_buy <= max_buy_by_quote { desired_buy } else { max_buy_by_quote };
    let sell_qty = if desired_sell <= acc.2 { desired_sell } else { acc.2 };
    let after_buy = if buy_qty >= p.min_base_qty.0 {
        (
            acc.0.push(
                DesiredOrder { side: Side::Buy, price: Price(buy_price as i64), qty: Qty(buy_qty as i64) },
            ),
            acc.1 - buy_qty * buy_price / (SCALE as int),
            acc.2,
        )
    } else {
        acc
    };
    if sell_qty >= p.min_base_qty.0 {
        (
            after_buy.0.push(
                DesiredOrder {
                    side: Side::Sell,
                    price: Price(sell_price as i64),
                    qty: Qty(sell_qty as i64),
                },
            ),
            after_buy.1,
            after_buy.2 - sell_qty,
        )
    } else {
        after_buy
    }
}

/// Grid construction over levels `1..=n`.
pub open spec fn spec_grid_build(
    anchor: int,
    p: GridParams,
    buy_mult: int,
    sell_mult: int,
    n: int,
    quote0: int,
    base0: int,
) -> (Seq<DesiredOrder>, int, int)
    decreases n,
{
    if n <= 0 {
        (Seq::empty(), quote0, base0)
    } else {
        spec_grid_level(
            anchor,
            p,
            buy_mult,
            sell_mult,
            n,
            spec_grid_build(anchor, p, buy_mult, sell_mult, n - 1, quote0, base0),
        )
    }
}

/// The inputs on which no grid is built: an empty ladder, a non-positive
/// price, a negative holding, no equity, or an inventory ratio outside the
/// hard band.
pub open spec fn spec_grid_rejected(anchor: int, mid: int, inv: Inventory, p: GridParams) -> bool {
    if p.levels == 0 || mid <= 0 || anchor <= 0 {
        true
    } else if inv.base.0 < 0 || inv.quote.0 < 0 {
        true
    } else if spec_equity(inv, mid) <= 0 {
        true
    } else {
        let r = spec_base_ratio_val(inv, mid);
        r < p.hard_min.0 || r > p.hard_max.0
    }
}

/// Total quote notional of the buy orders.
pub open spec fn spec_buy_notional_sum(s: Seq<DesiredOrder>) -> int
    decreases s.len(),
{
    if s.len() == 0 {
        0
    } else {
        spec_buy_notional_sum(s.drop_last()) + (if s.last().side == Side::Buy {
            s.last().qty.0 * s.last().price.0 / (SCALE as int)
        } else {
            0
        })
    }
}

/// Total base quantity of the sell orders.
pub open spec fn spec_sell_qty_sum(s: Seq<DesiredOrder>) -> int
    decreases s.len(),
{
    if s.len() == 0 {
        0
    } else {
        spec_sell_qty_sum(s.drop_last()) + (if s.last().side == Side::Sell {
            s.last().qty.0 as int
        } else {
            0
        })
    }
}

/// Build the desired ladder around `anchor`: buys below, sells above, sizes
/// biased toward a balanced inventory, each side capped by what the spot
/// balances can actually cover, and legs under `min_base_qty` dropped.
///
/// The contract carries the emitted grid's invariants: the buy notional
/// never exceeds the quote on hand, the sold quantity never exceeds the base
/// on hand, every order meets the exchange minimum, buys price strictly
/// below the anchor and sells at or above it (strictly above once one step
/// moves the anchor by a whole price unit).
#[verifier::rlimit(100)]
pub fn build_grid(anchor: Price, mid: Price, inv: Inventory, params: GridParams) -> (r: Option<
    Vec<DesiredOrder>,
>)
    requires
        0 <= anchor.0 <= MAX_AMOUNT,
        -MAX_AMOUNT <= mid.0 <= MAX_AMOUNT,
        inventory_ok(inv),
        grid_params_wf(params),
    ensures
        (r is None) == spec_grid_rejected(anchor.0 as int, mid.0 as int, inv, params),
        (r matches Some(orders) ==> {
            &&& orders@ == spec_grid_build(
                anchor.0 as int,
                params,
                spec_grid_mults(spec_base_ratio_val(inv, mid.0 as int), params).0,
                spec_grid_mults(spec_base_ratio_val(inv, mid.0 as int), params).1,
                params.levels as int,
                inv.quote.0 as int,
                inv.base.0 as int,
            ).0
            &&& spec_buy_notional_sum(orders@) <= inv.quote.0
            &&& spec_sell_qty_sum(orders@) <= inv.base.0
            &&& forall|i: int| 0 <= i < orders@.len() ==> (#[trigger] orders@[i]).qty.0
                >= params.min_base_qty.0 && orders@[i].qty.0 >= 0
            &&& forall|i: int| 0 <= i < orders@.len() && (#[trigger] orders@[i]).side == Side::Buy
                ==> 0 <= orders@[i].price.0 < anchor.0
            &&& forall|i: int| 0 <= i < orders@.len() && (#[trigger] orders@[i]).side == Side::Sell
                ==> orders@[i].price.0 >= anchor.0
            &&& anchor.0 * params.step.0 >= 10_000 ==> forall|i: int|
                0 <= i < orders@.len() && (#[trigger] orders@[i]).side == Side::Sell
                    ==> orders@[i].price.0 > anchor.0
        }),
{
    if params.levels == 0 || mid.0 <= 0 || anchor.0 <= 0 {
        return None;
    }
    // spot long-only: no negative holdings, no leverage
    if inv.base.0 < 0 || inv.quote.0 < 0 {
        return None;
    }
    let r = match base_ratio(inv, mid) {
        Some(x) => x,
        None => {
            return None;
        }
    };
    if r.0 < params.hard_min.0 || r.0 > params.hard_max.0 {
        return None;
    }
    // size multipliers from the distance to a balanced inventory
    let half: i64 = SCALE / 2;
    let dist = if r.0 >= half { r.0 - half } else { half - r.0 };
    let capped = if 2 * dist <= SCALE { 2 * dist } else { SCALE };
    proof {
        assert((params.max_size_mult.0 - SCALE) * capped / (SCALE as int)
            <= params.max_size_mult.0 - SCALE) by (nonlinear_arith)
            requires 0 <= params.max_size_mult.0 - SCALE, 0 <= capped <= SCALE;
        assert(0 <= (params.max_size_mult.0 - SCALE) * capped / (SCALE as int))
            by (nonlinear_arith)
            requires 0 <= params.max_size_mult.0 - SCALE, 0 <= capped;
    }
    let m = SCALE + mul_div(params.max_size_mult.0 - SCALE, capped, SCALE);
    proof {
        assert(SCALE * SCALE / (m as int) <= SCALE) by (nonlinear_arith)
            requires SCALE <= m;
        assert(SCALE * SCALE / (m as int) >= 1) by (nonlinear_arith)
            requires SCALE <= m <= 100 * SCALE, SCALE == 1_000_000;
    }
    let inv_m = mul_div(SCALE, SCALE, m);
    let bm: i64;
    let sm: i64;
    if r.0 > half {
        bm = inv_m;
        sm = m;
    } else if r.0 < half {
        bm = m;
        sm = inv_m;
    } else {
        bm = SCALE;
        sm = SCALE;
    }
    proof {
        assert((bm as int, sm as int) == spec_grid_mults(r.0 as int, params));
        assert(1 <= bm <= 100 * SCALE);
        assert(1 <= sm <= 100 * SCALE);
    }

    let ghost bm_g = bm as int;
    let ghost sm_g = sm as int;
    let ghost quote0 = inv.quote.0 as int;
    let ghost base0 = inv.base.0 as int;
    let ghost anchor_g = anchor.0 as int;

    let mut out: Vec<DesiredOrder> = Vec::new();
    let mut remaining_quote: i64 = inv.quote.0;
    let mut remaining_base: i64 = inv.base.0;
    let mut level: usize = 1;
    while level <= params.levels
        invariant
            1 <= level <= params.levels + 1,
            grid_params_wf(params),
            1 <= anchor.0 <= MAX_AMOUNT,
            anchor_g == anchor.0 as int,
            bm_g == bm as int,
            sm_g == sm as int,
            1 <= bm <= 100 * SCALE,
            1 <= sm <= 100 * SCALE,
            quote0 == inv.quote.0 as int,
            base0 == inv.base.0 as int,
            0 <= quote0 <= MAX_AMOUNT,
            0 <= base0 <= MAX_AMOUNT,
            0 <= remaining_quote <= quote0,
            0 <= remaining_base <= base0,
            (out@, remaining_quote as int, remaining_base as int) == spec_grid_build(
                anchor_g,
                params,
                bm_g,
                sm_g,
                level - 1,
                quote0,
                base0,
            ),
            spec_buy_notional_sum(out@) == quote0 - remaining_quote,
            spec_sell_qty_sum(out@) == base0 - remaining_base,
            forall|i: int| 0 <= i < out@.len() ==> (#[trigger] out@[i]).qty.0
                >= params.min_base_qty.0 && out@[i].qty.0 >= 0,
            forall|i: int| 0 <= i < out@.len() && (#[trigger] out@[i]).side == Side::Buy
                ==> 0 <= out@[i].price.0 < anchor.0,
            forall|i: int| 0 <= i < out@.len() && (#[trigger] out@[i]).side == Side::Sell
                ==> out@[i].price.0 >= anchor.0,
            anchor.0 * params.step.0 >= 10_000 ==> forall|i: int|
                0 <= i < out@.len() && (#[trigger] out@[i]).side == Side::Sell
                    ==> out@[i].price.0 > anchor.0,
        decreases params.levels + 1 - level,
    {
        proof {
            assert((level as int) * (params.step.0 as int) <= (params.levels as int)
                * (params.step.0 as int)) by (nonlinear_arith)
                requires 1 <= level <= params.levels, 0 <= params.step.0;
            assert(params.step.0 as int <= (level as int) * (params.step.0 as int))
                by (nonlinear_arith)
                requires 1 <= level, 0 <= params.step.0;
            assert((params.step.0 as int) * (level as int) == (level as int)
                * (params.step.0 as int)) by (nonlinear_arith);
            assert((params.step.0 as int) * (level as int) <= MAX_BPS);
        }
        let ls: i64 = params.step.0 * (level as i64);
        let fb: i64 = 10_000 + ls;
        proof {
            assert(anchor.0 * 10_000 / (fb as int) <= anchor.0) by (nonlinear_arith)
                requires 0 <= anchor.0, 10_000 <= fb;
            assert(anchor.0 * 10_000 < fb * anchor.0) by (nonlinear_arith)
                requires 1 <= anchor.0, 10_000 < fb;
            assert(anchor.0 * 10_000 / (fb as int) < anchor.0) by (nonlinear_arith)
                requires 0 < fb, anchor.0 * 10_000 < fb * anchor.0, 0 <= anchor.0 * 10_000;
        }
        let buy_price = mul_div(anchor.0, 10_000, fb);
        proof {
            assert(anchor.0 * fb / 10_000 <= MAX_AMOUNT * (10_000 + MAX_BPS) / 10_000)
                by (nonlinear_arith)
                requires 0 <= anchor.0 <= MAX_AMOUNT, 10_000 <= fb <= 10_000 + MAX_BPS;
            assert(anchor.0 * fb / 10_000 >= anchor.0 * 10_000 / 10_000) by (nonlinear_arith)
                requires 0 <= anchor.0, 10_000 <= fb;
            assert(anchor.0 * 10_000 / 10_000 == anchor.0) by (nonlinear_arith);
            assert(anchor.0 * params.step.0 >= 10_000 ==> anchor.0 * fb >= (anchor.0 + 1)
                * 10_000) by (nonlinear_arith)
                requires 1 <= anchor.0, fb == 10_000 + ls, ls >= params.step.0, 0 <= params.step.0;
            assert(anchor.0 * fb >= (anchor.0 + 1) * 10_000 ==> anchor.0 * fb / 10_000
                > anchor.0) by (nonlinear_arith)
                requires 0 <= anchor.0;
        }
        let sell_price = mul_div(anchor.0, fb, 10_000);
        let base_qty_buy = if buy_price > 0 {
            proof {
                assert(params.base_quote_per_order.0 * SCALE / (buy_price as int)
                    <= params.base_quote_per_order.0 * SCALE) by (nonlinear_arith)
                    requires 0 <= params.base_quote_per_order.0, 1 <= buy_price;
                assert(params.base_quote_per_order.0 * SCALE <= MAX_AMOUNT * SCALE)
                    by (nonlinear_arith)
                    requires 0 <= params.base_quote_per_order.0 <= MAX_AMOUNT;
            }
            mul_div(params.base_quote_per_order.0, SCALE, buy_price)
        } else {
            0
        };
        proof {
            assert(params.base_quote_per_order.0 * SCALE / (sell_price as int)
                <= params.base_quote_per_order.0 * SCALE) by (nonlinear_arith)
                requires 0 <= params.base_quote_per_order.0, 1 <= sell_price;
            assert(params.base_quote_per_order.0 * SCALE <= MAX_AMOUNT * SCALE)
                by (nonlinear_arith)
                requires 0 <= params.base_quote_per_order.0 <= MAX_AMOUNT;
        }
        let base_qty_sell = mul_div(params.base_quote_per_order.0, SCALE, sell_price);
        let desired_buy = match mul_div_opt(base_qty_buy, bm, SCALE) {
            Some(v) => v,
            None => i64::MAX,
        };
        let desired_sell = match mul_div_opt(base_qty_sell, sm, SCALE) {
            Some(v) => v,
            None => i64::MAX,
        };
        let max_buy_by_quote = if buy_price > 0 {
            proof {
                assert(remaining_quote * SCALE / (buy_price as int) <= remaining_quote * SCALE)
                    by (nonlinear_arith)
                    requires 0 <= remaining_quote, 1 <= buy_price;
                assert(remaining_quote * SCALE <= MAX_AMOUNT * SCALE) by (nonlinear_arith)
                    requires 0 <= remaining_quote <= MAX_AMOUNT;
            }
            mul_div(remaining_quote, SCALE, buy_price)
        } else {
            0
        };
        let buy_qty = min_i64(desired_buy, max_buy_by_quote);
        let sell_qty = min_i64(desired_sell, remaining_base);
        proof {
            // saturated desired sizes select the same minimum as the exact ones
            let d_exact = (base_qty_buy as int) * (bm as int) / (SCALE as int);
            assert(d_exact >= 0) by (nonlinear_arith)
                requires
                    d_exact == (base_qty_buy as int) * (bm as int) / (SCALE as int),
                    0 <= base_qty_buy,
                    0 <= bm,
                    0 < SCALE;
            assert(buy_qty == if d_exact <= max_buy_by_quote { d_exact } else {
                max_buy_by_quote as int
            });
            let s_exact = (base_qty_sell as int) * (sm as int) / (SCALE as int);
            assert(s_exact >= 0) by (nonlinear_arith)
                requires
                    s_exact == (base_qty_sell as int) * (sm as int) / (SCALE as int),
                    0 <= base_qty_sell,
                    0 <= sm,
                    0 < SCALE;
            assert(sell_qty == if s_exact <= remaining_base { s_exact } else {
                remaining_base as int
            });
        }
        let ghost acc_pre = (out@, remaining_quote as int, remaining_base as int);
        if buy_qty >= params.min_base_qty.0 {
            proof {
                if buy_price > 0 {
                    lemma_capped_mul_div(
                        buy_qty as int,
                        remaining_quote as int,
                        SCALE as int,
                        buy_price as int,
                    );
                } else {
                    assert(buy_qty * buy_price / (SCALE as int) == 0) by (nonlinear_arith)
                        requires buy_price == 0, 0 <= buy_qty;
                }
            }
            let notional = mul_div(buy_qty, buy_price, SCALE);
            proof {
                assert(spec_buy_notional_sum(out@.push(DesiredOrder {
                    side: Side::Buy,
                    price: Price(buy_price),
                    qty: Qty(buy_qty),
                })) == spec_buy_notional_sum(out@) + notional) by {
                    let s2 = out@.push(DesiredOrder {
                        side: Side::Buy,
                        price: Price(buy_price),
                        qty: Qty(buy_qty),
                    });
                    assert(s2.drop_last() =~= out@);
                }
                assert(spec_sell_qty_sum(out@.push(DesiredOrder {
                    side: Side::Buy,
                    price: Price(buy_price),
                    qty: Qty(buy_qty),
                })) == spec_sell_qty_sum(out@)) by {
                    let s2 = out@.push(DesiredOrder {
                        side: Side::Buy,
                        price: Price(buy_price),
                        qty: Qty(buy_qty),
                    });
                    assert(s2.drop_last() =~= out@);
                }
            }
            out.push(DesiredOrder { side: Side::Buy, price: Price(buy_price), qty: Qty(buy_qty) });
            remaining_quote = remaining_quote - notional;
        }
        if sell_qty >= params.min_base_qty.0 {
            proof {
                assert(spec_buy_notional_sum(out@.push(DesiredOrder {
                    side: Side::Sell,
                    price: Price(sell_price),
                    qty: Qty(sell_qty),
                })) == spec_buy_notional_sum(out@)) by {
                    let s2 = out@.push(DesiredOrder {
                        side: Side::Sell,
                        price: Price(sell_price),
                        qty: Qty(sell_qty),
                    });
                    assert(s2.drop_last() =~= out@);
                }
                assert(spec_sell_qty_sum(out@.push(DesiredOrder {
                    side: Side::Sell,
                    price: Price(sell_price),
                    qty: Qty(sell_qty),
                })) == spec_sell_qty_sum(out@) + sell_qty) by {
                    let s2 = out@.push(DesiredOrder {
                        side: Side::Sell,
                        price: Price(sell_price),
                        qty: Qty(sell_qty),
                    });
                    assert(s2.drop_last() =~= out@);
                }
            }
            out.push(
                DesiredOrder { side: Side::Sell, price: Price(sell_price), qty: Qty(sell_qty) },
            );
            remaining_base = remaining_base - sell_qty;
        }
        proof {
            assert(spec_grid_build(anchor_g, params, bm_g, sm_g, level as int, quote0, base0)
                == spec_grid_level(anchor_g, params, bm_g, sm_g, level as int, acc_pre));
            assert((out@, remaining_quote as int, remaining_base as int) == spec_grid_level(
                anchor_g,
                params,
                bm_g,
                sm_g,
                level as int,
                acc_pre,
            ));
        }
        level = level + 1;
    }
    Some(out)
}

} // verus!
