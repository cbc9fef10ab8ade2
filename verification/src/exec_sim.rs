//! Execution simulator: fee, half-spread and slippage model for market
//! fills. Each basis-point parameter is clamped at zero before use.

use vstd::prelude::*;

use crate::types::Bps;
use crate::types::MAX_AMOUNT;
use crate::types::Money;
use crate::types::Price;
use crate::types::Qty;
use crate::types::SCALE;
use crate::types::mul_div;

verus! {

/// Cost model of a market fill.
#[derive(Clone, Copy, Debug, PartialEq, Eq, Structural)]
pub struct ExecutionModel {
    pub fee_bps: Bps,
    pub spread_bps: Bps,
    pub slippage_bps: Bps,
}

/// Basis points clamped at zero.
pub open spec fn spec_eff_bps(b: int) -> int {
    if b < 0 { 0 } else { b }
}

/// Costs within sane magnitudes: spread and twice the slippage below 100%,
/// fee below 100%.
pub open spec fn exec_model_wf(m: ExecutionModel) -> bool {
    &&& m.spread_bps.0 <= 10_000
    &&& m.slippage_bps.0 <= 5_000
    &&& m.fee_bps.0 <= 10_000
}

/// The buy-side price factor in units of 1/20000:
/// `20000 + spread + 2 * slippage`.
pub open spec fn spec_buy_factor(m: ExecutionModel) -> int {
    20_000 + spec_eff_bps(m.spread_bps.0 as int) + 2 * spec_eff_bps(m.slippage_bps.0 as int)
}

/// The sell-side price factor: `20000 - spread - 2 * slippage`.
pub open spec fn spec_sell_factor(m: ExecutionModel) -> int {
    20_000 - spec_eff_bps(m.spread_bps.0 as int) - 2 * spec_eff_bps(m.slippage_bps.0 as int)
}

/// `mid * (1 + half_spread + slippage)`.
pub open spec fn spec_buy_fill(mid: int, m: ExecutionModel) -> int {
    mid * spec_buy_factor(m) / 20_000
}

/// `mid * (1 - half_spread - slippage)`.
pub open spec fn spec_sell_fill(mid: int, m: ExecutionModel) -> int {
    mid * spec_sell_factor(m) / 20_000
}

/// Quantity affordable for a quote budget at the buy fill price plus fee.
pub open spec fn spec_buy_qty_for_quote(budget: int, mid: int, m: ExecutionModel) -> int {
    if budget <= 0 || mid <= 0 {
        0
    } else {
        budget * (10_000 * SCALE) / (spec_buy_fill(mid, m) * (10_000 + spec_eff_bps(
            m.fee_bps.0 as int,
        )))
    }
}

/// Total quote spent buying `qty` at the buy fill price plus fee.
pub open spec fn spec_buy_cost(qty: int, mid: int, m: ExecutionModel) -> int {
    if qty <= 0 || mid <= 0 {
        0
    } else {
        (qty * spec_buy_fill(mid, m) / (SCALE as int)) * (10_000 + spec_eff_bps(
            m.fee_bps.0 as int,
        )) / 10_000
    }
}

/// Quote received selling `qty` at the sell fill price minus fee.
pub open spec fn spec_sell_proceeds(qty: int, mid: int, m: ExecutionModel) -> int {
    if qty <= 0 || mid <= 0 {
        0
    } else {
        (qty * spec_sell_fill(mid, m) / (SCALE as int)) * (10_000 - spec_eff_bps(
            m.fee_bps.0 as int,
        )) / 10_000
    }
}

impl ExecutionModel {
    /// Clamp a bps parameter at zero.
    fn eff_bps(b: Bps) -> (r: i64)
        ensures
            r == spec_eff_bps(b.0 as int),
    {
        if b.0 < 0 { 0 } else { b.0 }
    }

    /// Price actually paid on a market buy.
    pub fn buy_fill_price(self, mid: Price) -> (r: Price)
        requires
            exec_model_wf(self),
            0 <= mid.0 <= MAX_AMOUNT,
        ensures
            r.0 == spec_buy_fill(mid.0 as int, self),
            0 <= r.0 <= 2 * MAX_AMOUNT,
    {
        let k = 20_000 + Self::eff_bps(self.spread_bps) + 2 * Self::eff_bps(self.slippage_bps);
        proof {
            assert(mid.0 * k <= mid.0 * 40_000) by (nonlinear_arith)
                requires 0 <= mid.0, k <= 40_000;
            assert(mid.0 * 40_000 / 20_000 == mid.0 * 2) by (nonlinear_arith);
            assert(mid.0 * k / 20_000 <= mid.0 * 40_000 / 20_000) by (nonlinear_arith)
                requires mid.0 * k <= mid.0 * 40_000;
        }
        Price(mul_div(mid.0, k, 20_000))
    }

    /// Price actually received on a market sell.
    pub fn sell_fill_price(self, mid: Price) -> (r: Price)
        requires
            exec_model_wf(self),
            0 <= mid.0 <= MAX_AMOUNT,
        ensures
            r.0 == spec_sell_fill(mid.0 as int, self),
            0 <= r.0 <= MAX_AMOUNT,
    {
        let k = 20_000 - Self::eff_bps(self.spread_bps) - 2 * Self::eff_bps(self.slippage_bps);
        proof {
            assert(mid.0 * k <= mid.0 * 20_000) by (nonlinear_arith)
                requires 0 <= mid.0, k <= 20_000;
            assert(mid.0 * 20_000 / 20_000 == mid.0) by (nonlinear_arith);
            assert(mid.0 * k / 20_000 <= mid.0 * 20_000 / 20_000) by (nonlinear_arith)
                requires mid.0 * k <= mid.0 * 20_000;
        }
        Price(mul_div(mid.0, k, 20_000))
    }

    /// How much base the budget buys at the buy fill price, fee included.
    pub fn buy_qty_for_quote(self, quote_budget: Money, mid: Price) -> (r: Qty)
        requires
            exec_model_wf(self),
            0 <= mid.0 <= MAX_AMOUNT,
            quote_budget.0 <= MAX_AMOUNT,
        ensures
            r.0 == spec_buy_qty_for_quote(quote_budget.0 as int, mid.0 as int, self),
            0 <= r.0,
            quote_budget.0 > 0 ==> r.0 * spec_buy_fill(mid.0 as int, self) * (10_000
                + spec_eff_bps(self.fee_bps.0 as int)) <= quote_budget.0 * (10_000 * SCALE),
    {
        if quote_budget.0 <= 0 || mid.0 <= 0 {
            proof {
                assert(0 * spec_buy_fill(mid.0 as int, self) == 0) by (nonlinear_arith);
                assert(0 * (10_000 + spec_eff_bps(self.fee_bps.0 as int)) == 0)
                    by (nonlinear_arith);
            }
            return Qty(0);
        }
        let fill = self.buy_fill_price(mid);
        let fee = Self::eff_bps(self.fee_bps);
        proof {
            assert(mid.0 * spec_buy_factor(self) / 20_000 >= mid.0 * 20_000 / 20_000)
                by (nonlinear_arith)
                requires 0 < mid.0, spec_buy_factor(self) >= 20_000;
            assert(mid.0 * 20_000 / 20_000 == mid.0) by (nonlinear_arith);
            assert(fill.0 * (10_000 + fee) >= fill.0 * 10_000) by (nonlinear_arith)
                requires 0 <= fill.0, 0 <= fee;
            assert(fill.0 * (10_000 + fee) <= (2 * MAX_AMOUNT) * 20_000) by (nonlinear_arith)
                requires 0 <= fill.0 <= 2 * MAX_AMOUNT, 0 <= fee <= 10_000;
        }
        let denom = fill.0 * (10_000 + fee);
        proof {
            let n = quote_budget.0 * (10_000 * SCALE);
            assert(n / (denom as int) <= n / (10_000 as int)) by (nonlinear_arith)
                requires 0 <= n, 10_000 <= denom;
            assert(quote_budget.0 * (10_000 * SCALE) / (10_000 as int) == quote_budget.0 * SCALE)
                by (nonlinear_arith);
            assert(quote_budget.0 * SCALE <= MAX_AMOUNT * SCALE) by (nonlinear_arith)
                requires quote_budget.0 <= MAX_AMOUNT;
        }
        let q = mul_div(quote_budget.0, 10_000 * SCALE, denom);
        proof {
            assert(q * denom <= quote_budget.0 * (10_000 * SCALE)) by (nonlinear_arith)
                requires
                    0 < denom,
                    q == quote_budget.0 * (10_000 * SCALE) / (denom as int),
                    0 <= quote_budget.0 * (10_000 * SCALE);
            assert(q * fill.0 * (10_000 + fee) == q * denom) by (nonlinear_arith)
                requires denom == fill.0 * (10_000 + fee);
        }
        Qty(q)
    }

    /// Total quote cost of buying `qty` at the buy fill price, fee included.
    pub fn buy_cost(self, qty: Qty, mid: Price) -> (r: Money)
        requires
            exec_model_wf(self),
            0 <= mid.0 <= MAX_AMOUNT,
            qty.0 <= i64::MAX,
            qty.0 > 0 ==> qty.0 * spec_buy_fill(mid.0 as int, self) <= MAX_AMOUNT * SCALE,
        ensures
            r.0 == spec_buy_cost(qty.0 as int, mid.0 as int, self),
            0 <= r.0 <= 2 * MAX_AMOUNT,
    {
        if qty.0 <= 0 || mid.0 <= 0 {
            return Money(0);
        }
        let fill = self.buy_fill_price(mid);
        let fee = Self::eff_bps(self.fee_bps);
        proof {
            assert(qty.0 * fill.0 / (SCALE as int) <= MAX_AMOUNT * SCALE / (SCALE as int))
                by (nonlinear_arith)
                requires qty.0 * fill.0 <= MAX_AMOUNT * SCALE, 0 <= qty.0 * fill.0;
            assert(MAX_AMOUNT * SCALE / (SCALE as int) == MAX_AMOUNT) by (nonlinear_arith);
            assert(0 <= qty.0 * fill.0) by (nonlinear_arith)
                requires 0 <= qty.0, 0 <= fill.0;
        }
        let notional = mul_div(qty.0, fill.0, SCALE);
        proof {
            assert(notional * (10_000 + fee) / 10_000 <= MAX_AMOUNT * 20_000 / 10_000)
                by (nonlinear_arith)
                requires 0 <= notional <= MAX_AMOUNT, 0 <= fee <= 10_000;
            assert(MAX_AMOUNT * 20_000 / 10_000 == 2 * MAX_AMOUNT) by (nonlinear_arith);
        }
        Money(mul_div(notional, 10_000 + fee, 10_000))
    }

    /// Quote received from selling `qty` at the sell fill price, fee taken.
    pub fn sell_proceeds(self, qty: Qty, mid: Price) -> (r: Money)
        requires
            exec_model_wf(self),
            0 <= mid.0 <= MAX_AMOUNT,
            qty.0 <= MAX_AMOUNT,
        ensures
            r.0 == spec_sell_proceeds(qty.0 as int, mid.0 as int, self),
            0 <= r.0,
    {
        if qty.0 <= 0 || mid.0 <= 0 {
            return Money(0);
        }
        let fill = self.sell_fill_price(mid);
        let fee = Self::eff_bps(self.fee_bps);
        proof {
            crate::types::lemma_amount_product_bounded(qty.0 as int, fill.0 as int);
        }
        let notional = mul_div(qty.0, fill.0, SCALE);
        proof {
            assert(notional * (10_000 - fee) / 10_000 <= notional) by (nonlinear_arith)
                requires 0 <= notional, 0 <= fee <= 10_000;
        }
        Money(mul_div(notional, 10_000 - fee, 10_000))
    }
}

/// Law: with non-negative cost parameters the buy fill is at or above mid
/// and the sell fill at or below it.
pub proof fn lemma_fill_prices_bracket_mid(m: ExecutionModel, mid: int)
    requires
        exec_model_wf(m),
        0 <= mid,
    ensures
        spec_sell_fill(mid, m) <= mid <= spec_buy_fill(mid, m),
{
    assert(mid * spec_buy_factor(m) >= mid * 20_000) by (nonlinear_arith)
        requires 0 <= mid, spec_buy_factor(m) >= 20_000;
    assert(mid * spec_buy_factor(m) / 20_000 >= mid * 20_000 / 20_000) by (nonlinear_arith)
        requires mid * spec_buy_factor(m) >= mid * 20_000;
    assert(mid * 20_000 / 20_000 == mid) by (nonlinear_arith);
    assert(mid * spec_sell_factor(m) <= mid * 20_000) by (nonlinear_arith)
        requires 0 <= mid, spec_sell_factor(m) <= 20_000;
    assert(mid * spec_sell_factor(m) / 20_000 <= mid * 20_000 / 20_000) by (nonlinear_arith)
        requires mid * spec_sell_factor(m) <= mid * 20_000;
}

/// Law: buying the quantity the budget affords never costs more than the
/// budget.
pub proof fn lemma_buy_cost_within_budget(m: ExecutionModel, budget: int, mid: int)
    requires
        exec_model_wf(m),
        0 < budget,
        0 < mid,
    ensures
        spec_buy_cost(spec_buy_qty_for_quote(budget, mid, m), mid, m) <= budget,
{
    let fill = spec_buy_fill(mid, m);
    let fee = spec_eff_bps(m.fee_bps.0 as int);
    let denom = fill * (10_000 + fee);
    let q = spec_buy_qty_for_quote(budget, mid, m);
    assert(fill >= mid) by {
        assert(mid * spec_buy_factor(m) >= mid * 20_000) by (nonlinear_arith)
            requires 0 <= mid, spec_buy_factor(m) >= 20_000;
        assert(mid * spec_buy_factor(m) / 20_000 >= mid * 20_000 / 20_000) by (nonlinear_arith)
            requires mid * spec_buy_factor(m) >= mid * 20_000;
        assert(mid * 20_000 / 20_000 == mid) by (nonlinear_arith);
    }
    assert(denom >= 10_000) by (nonlinear_arith)
        requires denom == fill * (10_000 + fee), fill >= 1, fee >= 0;
    assert(q >= 0) by (nonlinear_arith)
        requires 0 < budget, 0 < denom, q == budget * (10_000 * SCALE) / denom;
    if q <= 0 {
        assert(spec_buy_cost(q, mid, m) == 0);
    } else {
        // q * denom <= budget * 10^10
        assert(q * denom <= budget * (10_000 * SCALE)) by (nonlinear_arith)
            requires 0 < denom, q == budget * (10_000 * SCALE) / denom,
                0 <= budget * (10_000 * SCALE);
        let notional = q * fill / (SCALE as int);
        // notional * (10000 + fee) <= q * fill * (10000 + fee) / SCALE
        assert(notional * (10_000 + fee) <= q * fill * (10_000 + fee) / (SCALE as int))
            by (nonlinear_arith)
            requires
                notional == q * fill / (SCALE as int),
                0 <= q * fill,
                0 <= 10_000 + fee;
        assert(q * fill * (10_000 + fee) == q * denom) by (nonlinear_arith)
            requires denom == fill * (10_000 + fee);
        assert(q * denom / (SCALE as int) <= budget * (10_000 * SCALE) / (SCALE as int))
            by (nonlinear_arith)
            requires q * denom <= budget * (10_000 * SCALE);
        assert(budget * (10_000 * SCALE) / (SCALE as int) == budget * 10_000)
            by (nonlinear_arith);
        assert(notional * (10_000 + fee) <= budget * 10_000);
        assert(notional * (10_000 + fee) / 10_000 <= budget * 10_000 / 10_000)
            by (nonlinear_arith)
            requires notional * (10_000 + fee) <= budget * 10_000;
        assert(budget * 10_000 / 10_000 == budget) by (nonlinear_arith);
    }
}

} // verus!
