//! Rebalance decision: trade toward a target base ratio when outside the
//! tolerance, respecting a minimum trade size and available balances.

use vstd::prelude::*;

use crate::types::MAX_AMOUNT;
use crate::types::Money;
use crate::types::Price;
use crate::types::Qty;
use crate::types::Ratio;
use crate::types::SCALE;
use crate::types::mul_div;

verus! {

/// Holdings of base and quote.
#[derive(Clone, Copy, Debug, PartialEq, Eq, Structural)]
pub struct Portfolio {
    pub base: Qty,
    pub quote: Money,
}

pub open spec fn portfolio_wf(p: Portfolio) -> bool {
    &&& 0 <= p.base.0 <= MAX_AMOUNT
    &&& 0 <= p.quote.0 <= MAX_AMOUNT
}

/// The base holding is worth a representable amount at this price.
pub open spec fn value_in_range(base: int, mid: int) -> bool {
    base * mid / (SCALE as int) <= MAX_AMOUNT
}

/// Rebalancing configuration.
#[derive(Clone, Copy, Debug, PartialEq, Eq, Structural)]
pub struct RebalanceParams {
    /// Target share of equity held in base.
    pub target_base_ratio: Ratio,
    /// Allowed distance from the target before trading.
    pub tolerance: Ratio,
    /// Fee rate, as a fraction.
    pub fee_rate: Ratio,
    /// Minimum trade size in quote.
    pub min_quote_trade: Money,
}

pub open spec fn rebalance_params_wf(p: RebalanceParams) -> bool {
    &&& 0 <= p.target_base_ratio.0 <= SCALE
    &&& 0 <= p.tolerance.0 <= SCALE
    &&& 0 <= p.fee_rate.0 <= SCALE
    &&& 0 <= p.min_quote_trade.0 <= MAX_AMOUNT
}

/// What the rebalancer decides to do.
#[derive(Clone, Copy, Debug, PartialEq, Eq, Structural)]
pub enum RebalanceDecision {
    /// Buy this much base with quote.
    BuyBase(Qty),
    /// Sell this much base for quote.
    SellBase(Qty),
    /// Already close enough to the target.
    Noop,
}

/// Portfolio value in quote at the given mid price.
pub open spec fn spec_portfolio_equity(p: Portfolio, mid: int) -> int {
    p.quote.0 + p.base.0 * mid / (SCALE as int)
}

/// The rebalance decision, step by step:
/// no equity or price gives nothing; inside the tolerance gives `Noop`;
/// otherwise trade the value gap toward the target, bumped by the fee,
/// unless the trade is too small (`Noop`) or unaffordable (nothing).
pub open spec fn spec_rebalance_decision(
    p: Portfolio,
    mid: int,
    params: RebalanceParams,
) -> Option<RebalanceDecision> {
    let e = spec_portfolio_equity(p, mid);
    if e <= 0 || mid <= 0 {
        None
    } else {
        let bv = p.base.0 * mid / (SCALE as int);
        let current = bv * SCALE / e;
        let dist = if current >= params.target_base_ratio.0 {
            current - params.target_base_ratio.0
        } else {
            params.target_base_ratio.0 - current
        };
        if dist <= params.tolerance.0 {
            Some(RebalanceDecision::Noop)
        } else {
            let target_base_value = params.target_base_ratio.0 * e / (SCALE as int);
            let delta_value = target_base_value - bv;
            if delta_value > 0 {
                let quote_needed = delta_value * (SCALE + params.fee_rate.0) / (SCALE as int);
                if quote_needed < params.min_quote_trade.0 {
                    Some(RebalanceDecision::Noop)
                } else if quote_needed > p.quote.0 {
                    None
                } else {
                    Some(RebalanceDecision::BuyBase(Qty((delta_value * SCALE / mid) as i64)))
                }
            } else {
                let sell_value = (-delta_value) * (SCALE + params.fee_rate.0) / (SCALE as int);
                if sell_value < params.min_quote_trade.0 {
                    Some(RebalanceDecision::Noop)
                } else {
                    let qty = (-delta_value) * SCALE / mid;
                    if qty > p.base.0 {
                        None
                    } else {
                        Some(RebalanceDecision::SellBase(Qty(qty as i64)))
                    }
                }
            }
        }
    }
}

/// Portfolio value in quote.
pub fn equity(p: Portfolio, mid: Price) -> (r: Money)
    requires
        portfolio_wf(p),
        0 <= mid.0 <= MAX_AMOUNT,
        value_in_range(p.base.0 as int, mid.0 as int),
    ensures
        r.0 == spec_portfolio_equity(p, mid.0 as int),
        0 <= r.0 <= 2 * MAX_AMOUNT,
{
    proof {
        crate::types::lemma_amount_product_bounded(p.base.0 as int, mid.0 as int);
    }
    let bv = mul_div(p.base.0, mid.0, SCALE);
    Money(p.quote.0 + bv)
}

/// Share of equity held in base, when equity is positive.
pub fn base_ratio(p: Portfolio, mid: Price) -> (r: Option<Ratio>)
    requires
        portfolio_wf(p),
        0 <= mid.0 <= MAX_AMOUNT,
        value_in_range(p.base.0 as int, mid.0 as int),
    ensures
        spec_portfolio_equity(p, mid.0 as int) <= 0 ==> r is None,
        spec_portfolio_equity(p, mid.0 as int) > 0 ==> (r matches Some(x) && x.0
            == p.base.0 * mid.0 / (SCALE as int) * SCALE / spec_portfolio_equity(
            p,
            mid.0 as int,
        ) && 0 <= x.0 <= SCALE),
{
    proof {
        crate::types::lemma_amount_product_bounded(p.base.0 as int, mid.0 as int);
    }
    let bv = mul_div(p.base.0, mid.0, SCALE);
    let e = p.quote.0 + bv;
    if e <= 0 {
        return None;
    }
    proof {
        assert(bv * SCALE / (e as int) <= e * SCALE / (e as int)) by (nonlinear_arith)
            requires 0 <= bv <= e, 0 < e, 0 < SCALE;
        assert(e * SCALE / (e as int) == SCALE) by (nonlinear_arith)
            requires 0 < e;
        assert(bv * SCALE <= (2 * MAX_AMOUNT) * SCALE) by (nonlinear_arith)
            requires 0 <= bv <= 2 * MAX_AMOUNT;
    }
    Some(Ratio(mul_div(bv, SCALE, e)))
}

/// Decide how to move the portfolio toward the target base ratio.
pub fn rebalance_decision(p: Portfolio, mid: Price, params: RebalanceParams) -> (r: Option<
    RebalanceDecision,
>)
    requires
        portfolio_wf(p),
        0 <= mid.0 <= MAX_AMOUNT,
        value_in_range(p.base.0 as int, mid.0 as int),
        rebalance_params_wf(params),
    ensures
        r == spec_rebalance_decision(p, mid.0 as int, params),
{
    proof {
        crate::types::lemma_amount_product_bounded(p.base.0 as int, mid.0 as int);
    }
    let bv = mul_div(p.base.0, mid.0, SCALE);
    let e = p.quote.0 + bv;
    if e <= 0 || mid.0 <= 0 {
        return None;
    }
    let target = params.target_base_ratio.0;
    let tol = params.tolerance.0;
    proof {
        assert(bv * SCALE <= (2 * MAX_AMOUNT) * SCALE) by (nonlinear_arith)
            requires 0 <= bv <= 2 * MAX_AMOUNT;
    }
    let current = mul_div(bv, SCALE, e);
    let dist = if current >= target { current - target } else { target - current };
    if dist <= tol {
        return Some(RebalanceDecision::Noop);
    }
    proof {
        assert(target * e / (SCALE as int) <= e) by (nonlinear_arith)
            requires 0 <= target <= SCALE, 0 < e;
    }
    let target_base_value = mul_div(target, e, SCALE);
    let delta_value = target_base_value - bv;
    let fee = params.fee_rate.0;
    if delta_value > 0 {
        proof {
            assert(delta_value * (SCALE + fee) / (SCALE as int) <= 2 * delta_value)
                by (nonlinear_arith)
                requires 0 < delta_value, 0 <= fee <= SCALE;
        }
        let quote_needed = mul_div(delta_value, SCALE + fee, SCALE);
        if quote_needed < params.min_quote_trade.0 {
            return Some(RebalanceDecision::Noop);
        }
        if quote_needed > p.quote.0 {
            return None;
        }
        proof {
            assert(delta_value * SCALE / (mid.0 as int) <= delta_value * SCALE)
                by (nonlinear_arith)
                requires 0 < delta_value, 0 < mid.0;
            assert(delta_value * SCALE <= (2 * MAX_AMOUNT) * SCALE) by (nonlinear_arith)
                requires 0 < delta_value <= 2 * MAX_AMOUNT;
        }
        let qty = mul_div(delta_value, SCALE, mid.0);
        Some(RebalanceDecision::BuyBase(Qty(qty)))
    } else {
        let neg_delta = bv - target_base_value;
        proof {
            assert(neg_delta * (SCALE + fee) / (SCALE as int) <= 2 * neg_delta)
                by (nonlinear_arith)
                requires 0 <= neg_delta, 0 <= fee <= SCALE;
        }
        let sell_value = mul_div(neg_delta, SCALE + fee, SCALE);
        if sell_value < params.min_quote_trade.0 {
            return Some(RebalanceDecision::Noop);
        }
        proof {
            assert(neg_delta * SCALE / (mid.0 as int) <= neg_delta * SCALE)
                by (nonlinear_arith)
                requires 0 <= neg_delta, 0 < mid.0;
            assert(neg_delta * SCALE <= (2 * MAX_AMOUNT) * SCALE) by (nonlinear_arith)
                requires 0 <= neg_delta <= 2 * MAX_AMOUNT;
        }
        let qty = mul_div(neg_delta, SCALE, mid.0);
        if qty > p.base.0 {
            return None;
        }
        Some(RebalanceDecision::SellBase(Qty(qty)))
    }
}

} // verus!
