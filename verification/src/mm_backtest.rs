//! Market-making backtest drivers: the single-timeframe bar loop and the
//! multi-timeframe loop with a defensive grid profile and an optional
//! bootstrap rebalance.

use vstd::prelude::*;

use crate::bos::BosParams;
use crate::bos::BosState;
use crate::bos::BosTracker;
use crate::bos::bos_params_wf;
use crate::bos::bos_wf;
use crate::candle::Candle;
use crate::candle::candle_wf;
use crate::candle::candles_wf;
use crate::exec_sim::ExecutionModel;
use crate::exec_sim::exec_model_wf;
use crate::exec_sim::spec_buy_fill;
use crate::exec_sim::spec_eff_bps;
use crate::feed::CandleFeed;
use crate::feed::feed_wf;
use crate::fills::FillMode;
use crate::fills::FillRecord;
use crate::fills::LedgerState;
use crate::fills::TradeStats;
use crate::fills::fill_bar;
use crate::fills::ledger_wf;
use crate::fills::sort_orders;
use crate::fills::stats_wf;
use crate::grid::GridParams;
use crate::grid::Inventory;
use crate::grid::Side;
use crate::grid::base_ratio;
use crate::grid::build_grid;
use crate::grid::grid_params_wf;
use crate::mm_policy::MmDecisionReason;
use crate::mm_policy::MmMode;
use crate::mm_policy::MmPolicyParams;
use crate::mm_policy::mm_policy_decision;
use crate::mm_policy::mm_policy_params_wf;
use crate::pullback::PullbackParams;
use crate::pullback::PullbackTracker;
use crate::pullback::pullback_params_wf;
use crate::pullback::pullback_wf;
use crate::report::ProfitFactor;
use crate::report::pf_wf;
use crate::structure::StructureParams;
use crate::structure::detect_structure;
use crate::structure::structure_params_wf;
use crate::trend_backtest::roi_pct;
use crate::trend_backtest::driver_bos_params;
use crate::trend_backtest::driver_pullback_params;
use crate::trend_backtest::driver_structure_params;
use crate::types::Bps;
use crate::types::MAX_AMOUNT;
use crate::types::MAX_BPS;
use crate::types::Money;
use crate::types::Price;
use crate::types::Qty;
use crate::types::Ratio;
use crate::types::SCALE;
use crate::types::TimestampMs;
use crate::types::add_sat;
use crate::types::div_count;
use crate::types::inc_u64;
use crate::types::lemma_capped_mul_div;
use crate::types::min_i64;
use crate::types::mul_div;
use crate::types::mul_div_u64;

verus! {

/// One row of the equity log: balances and drawdown after a bar.
#[derive(Clone, Copy, Debug, PartialEq, Eq)]
pub struct EquityRecord {
    pub ts: TimestampMs,
    pub close: Price,
    pub mode: MmMode,
    pub quote: Money,
    pub base: Qty,
    pub cost_basis_quote: Money,
    pub equity: Money,
    /// Drawdown at this bar, percent (fixed point).
    pub drawdown_pct: Ratio,
}

pub open spec fn equity_rows_ok(s: Seq<EquityRecord>) -> bool {
    forall|i: int| 0 <= i < s.len() ==> {
        &&& 0 <= (#[trigger] s[i]).drawdown_pct.0 <= 100 * SCALE
        &&& s[i].quote.0 >= 0
        &&& s[i].base.0 >= 0
    }
}

/// Performance summary of a market-making backtest.
#[derive(Clone, Copy, Debug, PartialEq, Eq, Structural)]
pub struct MmReport {
    pub buy_fills: u64,
    pub sell_fills: u64,
    pub stop_like_disables: u64,
    pub winning_sells: u64,
    pub losing_sells: u64,
    pub win_rate_pct: Ratio,
    pub avg_win: Money,
    pub avg_loss: Money,
    pub profit_factor: ProfitFactor,
    pub max_drawdown_pct: Ratio,
    pub pnl: Money,
    pub roi_pct: Ratio,
    pub final_equity: Money,
}

/// One point of the MTF sweep's Cartesian product.
#[derive(Clone, Copy, Debug, PartialEq, Eq, Structural)]
pub struct MmMtfConfig {
    pub levels: usize,
    pub step_bps: Bps,
    pub base_quote_per_order: Money,
    pub max_size_mult: Ratio,
    pub soft_min: Ratio,
    pub soft_max: Ratio,
    pub hard_min: Ratio,
    pub hard_max: Ratio,
    pub maker_fee_bps: Bps,
    pub defensive_step_mult: Ratio,
    pub defensive_size_mult: Ratio,
}

/// The grid step under the defensive profile: the base step scaled by
/// `max(1, defensive_step_mult)`.
pub open spec fn spec_def_step(c: MmMtfConfig) -> int {
    let eff = if c.defensive_step_mult.0 >= SCALE { c.defensive_step_mult.0 as int } else {
        SCALE as int
    };
    c.step_bps.0 * eff / (SCALE as int)
}

pub open spec fn mm_mtf_config_wf(c: MmMtfConfig) -> bool {
    &&& c.levels <= 10_000
    &&& 1 <= c.step_bps.0 <= MAX_BPS
    &&& 0 <= c.base_quote_per_order.0 <= MAX_AMOUNT
    &&& SCALE <= c.max_size_mult.0 <= 100 * SCALE
    &&& 0 <= c.hard_min.0 <= c.soft_min.0 <= c.soft_max.0 <= c.hard_max.0 <= SCALE
    &&& 0 <= c.maker_fee_bps.0 <= 10_000
    &&& c.defensive_step_mult.0 <= 100 * SCALE
    &&& -MAX_AMOUNT <= c.defensive_size_mult.0 <= MAX_AMOUNT
    &&& (c.levels as int) * spec_def_step(c) <= MAX_BPS
}

/// Summary of one MTF market-making run.
#[derive(Clone, Copy, Debug, PartialEq, Eq, Structural)]
pub struct MmMtfReport {
    pub buy_fills: u64,
    pub sell_fills: u64,
    pub bootstrap_trades: u64,
    pub winning_sells: u64,
    pub losing_sells: u64,
    pub win_rate_pct: Ratio,
    pub avg_win: Money,
    pub avg_loss: Money,
    pub profit_factor: ProfitFactor,
    pub max_drawdown_pct: Ratio,
    pub pnl: Money,
    pub roi_pct: Ratio,
}

/// Mark the ledger to market after a bar: update the running equity peak
/// and maximum drawdown, and report this bar's equity and drawdown percent.
pub fn observe_equity(
    st: &LedgerState,
    close: Price,
    max_equity: &mut i64,
    max_drawdown: &mut i64,
) -> (r: (i64, i64))
    requires
        ledger_wf(*st),
        0 <= close.0 <= MAX_AMOUNT,
        0 <= *old(max_equity) <= i64::MAX - MAX_AMOUNT,
        0 <= *old(max_drawdown) <= SCALE,
    ensures
        r.0 == st.quote.0 + st.base.0 * close.0 / (SCALE as int),
        *final(max_equity) == if r.0 > *old(max_equity) { r.0 as int } else { *old(max_equity) as int },
        0 <= *final(max_equity) <= i64::MAX - MAX_AMOUNT,
        *final(max_equity) > 0 ==> r.1 == (*final(max_equity) - r.0) * SCALE
            / (*final(max_equity) as int) * 100,
        *final(max_equity) == 0 ==> r.1 == 0 && *final(max_drawdown) == *old(max_drawdown),
        *final(max_equity) > 0 ==> ({
            let dd = (*final(max_equity) - r.0) * SCALE / (*final(max_equity) as int);
            *final(max_drawdown) == if dd > *old(max_drawdown) {
                dd
            } else {
                *old(max_drawdown) as int
            }
        }),
        0 <= r.1 <= 100 * SCALE,
        0 <= *final(max_drawdown) <= SCALE,
        *final(max_drawdown) >= *old(max_drawdown),
{
    proof {
        crate::types::lemma_amount_product_bounded(st.base.0 as int, close.0 as int);
    }
    let bv = mul_div(st.base.0, close.0, SCALE);
    let e = st.quote.0 + bv;
    if e > *max_equity {
        *max_equity = e;
    }
    if *max_equity > 0 {
        let m = *max_equity;
        proof {
            assert((m - e) * SCALE / (m as int) <= m * SCALE / (m as int)) by (nonlinear_arith)
                requires 0 <= m - e <= m, 0 < m, 0 < SCALE;
            assert(m * SCALE / (m as int) == SCALE) by (nonlinear_arith)
                requires 0 < m;
        }
        let dd = mul_div(m - e, SCALE, m);
        if dd > *max_drawdown {
            *max_drawdown = dd;
        }
        (e, dd * 100)
    } else {
        (e, 0)
    }
}

/// The whole liquidation as a value: sell every base unit at the final
/// mark under the force-close cost model, realize PnL against the full
/// remaining cost basis, zero the position.
pub open spec fn spec_force_close(
    st: LedgerState,
    stats: TradeStats,
    mark: int,
    fce: ExecutionModel,
    ts: TimestampMs,
) -> (LedgerState, TradeStats, Option<FillRecord>) {
    if st.base.0 <= 0 {
        (st, stats, None)
    } else {
        let proceeds = crate::exec_sim::spec_sell_proceeds(st.base.0 as int, mark, fce);
        let removed = st.cost_basis_quote.0 as int;
        let realized = proceeds - removed;
        let gross = st.base.0 * mark / (SCALE as int);
        let fee = if gross >= proceeds { gross - proceeds } else { 0int };
        (
            LedgerState {
                quote: Money(
                    (if proceeds <= MAX_AMOUNT - st.quote.0 {
                        st.quote.0 + proceeds
                    } else {
                        MAX_AMOUNT as int
                    }) as i64,
                ),
                base: Qty(0),
                cost_basis_quote: Money(0),
            },
            crate::fills::spec_record_sell(stats, realized),
            Some(FillRecord {
                ts,
                side: Side::Sell,
                mode: FillMode::ForceClose,
                qty: st.base,
                price: Price(mark as i64),
                fee_quote: Money(fee as i64),
                quote_delta: Money(proceeds as i64),
                realized_pnl: Some(Money(realized as i64)),
            }),
        )
    }
}

/// Liquidate the whole base position at the force-close cost model,
/// realizing PnL against the full remaining cost basis.
pub fn force_close_position(
    st: &mut LedgerState,
    stats: &mut TradeStats,
    final_mark: Price,
    fce: ExecutionModel,
    ts: TimestampMs,
) -> (r: Option<FillRecord>)
    requires
        ledger_wf(*old(st)),
        stats_wf(*old(stats)),
        exec_model_wf(fce),
        0 <= final_mark.0 <= MAX_AMOUNT,
    ensures
        ledger_wf(*final(st)),
        stats_wf(*final(stats)),
        (*final(st), *final(stats), r) == spec_force_close(
            *old(st),
            *old(stats),
            final_mark.0 as int,
            fce,
            ts,
        ),
        final(st).base.0 == 0 || final(st).base.0 == old(st).base.0,
{
    if st.base.0 <= 0 {
        return None;
    }
    let exit_qty = st.base.0;
    let proceeds = fce.sell_proceeds(Qty(exit_qty), final_mark);
    // average cost of the full position is the full cost basis
    let removed = st.cost_basis_quote.0;
    let realized = proceeds.0 - removed;
    proof {
        crate::types::lemma_amount_product_bounded(exit_qty as int, final_mark.0 as int);
    }
    let gross = mul_div(exit_qty, final_mark.0, SCALE);
    let fee = if gross >= proceeds.0 { gross - proceeds.0 } else { 0 };
    st.quote = if proceeds.0 <= MAX_AMOUNT - st.quote.0 {
        Money(st.quote.0 + proceeds.0)
    } else {
        Money(MAX_AMOUNT)
    };
    st.base = Qty(0);
    st.cost_basis_quote = Money(0);
    stats.sell_fills = inc_u64(stats.sell_fills);
    if realized > 0 {
        stats.winning_sells = inc_u64(stats.winning_sells);
        stats.gross_profit = Money(add_sat(stats.gross_profit.0, realized));
    } else if realized < 0 {
        stats.losing_sells = inc_u64(stats.losing_sells);
        stats.gross_loss = Money(add_sat(stats.gross_loss.0, 0 - realized));
    }
    Some(FillRecord {
        ts,
        side: Side::Sell,
        mode: FillMode::ForceClose,
        qty: Qty(exit_qty),
        price: final_mark,
        fee_quote: Money(fee),
        quote_delta: proceeds,
        realized_pnl: Some(Money(realized)),
    })
}

/// The whole bootstrap rebalance step as a value: the new ledger, the new
/// statistics, and the fill record if a trade happened. A positive value
/// gap buys the affordable quantity toward the target; a negative gap sells
/// at most the base on hand; a trade whose result would leave the
/// representable range is not taken.
pub open spec fn spec_bootstrap_step(
    st: LedgerState,
    stats: TradeStats,
    mid: int,
    fce: ExecutionModel,
    target_ratio: int,
    ts: TimestampMs,
) -> (LedgerState, TradeStats, Option<FillRecord>) {
    let bv = st.base.0 * mid / (SCALE as int);
    let e = st.quote.0 + bv;
    let target = if target_ratio < 0 { 0int } else if target_ratio > SCALE {
        SCALE as int
    } else {
        target_ratio
    };
    let target_base_value = target * e / (SCALE as int);
    let delta_value = target_base_value - bv;
    if delta_value > 0 && st.quote.0 > 0 {
        let budget = if delta_value <= st.quote.0 { delta_value } else { st.quote.0 as int };
        let qty = crate::exec_sim::spec_buy_qty_for_quote(budget, mid, fce);
        if qty > 0 && qty <= MAX_AMOUNT - st.base.0 {
            let cost = crate::exec_sim::spec_buy_cost(qty, mid, fce);
            if cost <= st.quote.0 && cost <= MAX_AMOUNT - st.cost_basis_quote.0 {
                (
                    LedgerState {
                        quote: Money((st.quote.0 - cost) as i64),
                        base: Qty((st.base.0 + qty) as i64),
                        cost_basis_quote: Money((st.cost_basis_quote.0 + cost) as i64),
                    },
                    TradeStats {
                        buy_fills: if stats.buy_fills < u64::MAX {
                            (stats.buy_fills + 1) as u64
                        } else {
                            stats.buy_fills
                        },
                        ..stats
                    },
                    Some(FillRecord {
                        ts,
                        side: Side::Buy,
                        mode: FillMode::Bootstrap,
                        qty: Qty(qty as i64),
                        price: Price(spec_buy_fill(mid, fce) as i64),
                        fee_quote: Money(0),
                        quote_delta: Money((0 - cost) as i64),
                        realized_pnl: None,
                    }),
                )
            } else {
                (st, stats, None)
            }
        } else {
            (st, stats, None)
        }
    } else if delta_value < 0 && st.base.0 > 0 {
        let neg_delta = bv - target_base_value;
        let by_value = neg_delta * SCALE / mid;
        let qty = if by_value <= st.base.0 { by_value } else { st.base.0 as int };
        if qty > 0 {
            let proceeds = crate::exec_sim::spec_sell_proceeds(qty, mid, fce);
            let removed = st.cost_basis_quote.0 * qty / (st.base.0 as int);
            let realized = proceeds - removed;
            if proceeds <= MAX_AMOUNT - st.quote.0 {
                let new_base = st.base.0 - qty;
                (
                    LedgerState {
                        quote: Money((st.quote.0 + proceeds) as i64),
                        base: Qty(new_base as i64),
                        cost_basis_quote: Money(
                            if new_base == 0 {
                                0
                            } else {
                                (st.cost_basis_quote.0 - removed) as i64
                            },
                        ),
                    },
                    crate::fills::spec_record_sell(stats, realized),
                    Some(FillRecord {
                        ts,
                        side: Side::Sell,
                        mode: FillMode::Bootstrap,
                        qty: Qty(qty as i64),
                        price: Price(crate::exec_sim::spec_sell_fill(mid, fce) as i64),
                        fee_quote: Money(0),
                        quote_delta: Money(proceeds as i64),
                        realized_pnl: Some(Money(realized as i64)),
                    }),
                )
            } else {
                (st, stats, None)
            }
        } else {
            (st, stats, None)
        }
    } else {
        (st, stats, None)
    }
}

/// One bootstrap rebalance attempt: a single market trade toward the target
/// base ratio using the force-close cost model. Trades exactly when the
/// value gap is non-zero and the balances cover the trade; a positive gap
/// buys, a negative gap sells.
pub fn bootstrap_rebalance_step(
    st: &mut LedgerState,
    stats: &mut TradeStats,
    mid: Price,
    fce: ExecutionModel,
    target_ratio: Ratio,
    ts: TimestampMs,
) -> (r: Option<FillRecord>)
    requires
        ledger_wf(*old(st)),
        stats_wf(*old(stats)),
        exec_model_wf(fce),
        0 < mid.0 <= MAX_AMOUNT,
    ensures
        ledger_wf(*final(st)),
        stats_wf(*final(stats)),
        (*final(st), *final(stats), r) == spec_bootstrap_step(
            *old(st),
            *old(stats),
            mid.0 as int,
            fce,
            target_ratio.0 as int,
            ts,
        ),
{
    proof {
        crate::types::lemma_amount_product_bounded(st.base.0 as int, mid.0 as int);
    }
    let bv = mul_div(st.base.0, mid.0, SCALE);
    let e = st.quote.0 + bv;
    let target = if target_ratio.0 < 0 {
        0
    } else if target_ratio.0 > SCALE {
        SCALE
    } else {
        target_ratio.0
    };
    proof {
        assert(target * e / (SCALE as int) <= e) by (nonlinear_arith)
            requires 0 <= target <= SCALE, 0 <= e;
        assert(0 <= target * e / (SCALE as int)) by (nonlinear_arith)
            requires 0 <= target, 0 <= e, 0 < SCALE;
    }
    let target_base_value = mul_div(target, e, SCALE);
    let delta_value = target_base_value - bv;
    if delta_value > 0 && st.quote.0 > 0 {
        let budget = min_i64(delta_value, st.quote.0);
        let qty = fce.buy_qty_for_quote(Money(budget), mid);
        if qty.0 > 0 && qty.0 <= MAX_AMOUNT - st.base.0 {
            proof {
                let fill = spec_buy_fill(mid.0 as int, fce);
                let fe = spec_eff_bps(fce.fee_bps.0 as int);
                assert(qty.0 * fill * 10_000 <= qty.0 * fill * (10_000 + fe)) by (nonlinear_arith)
                    requires 0 <= qty.0 * fill, 0 <= fe;
                assert(qty.0 * fill * (10_000 + fe) <= budget * (10_000 * SCALE));
                assert(qty.0 * fill <= budget * SCALE) by (nonlinear_arith)
                    requires qty.0 * fill * 10_000 <= budget * (10_000 * SCALE), 0 <= qty.0 * fill;
                assert(budget * SCALE <= MAX_AMOUNT * SCALE) by (nonlinear_arith)
                    requires 0 <= budget <= MAX_AMOUNT;
                assert(0 <= qty.0 * fill) by (nonlinear_arith)
                    requires 0 <= qty.0, 0 <= fill;
            }
            let cost = fce.buy_cost(qty, mid);
            if cost.0 <= st.quote.0 && cost.0 <= MAX_AMOUNT - st.cost_basis_quote.0 {
                let fill_price = fce.buy_fill_price(mid);
                st.quote = Money(st.quote.0 - cost.0);
                st.base = Qty(st.base.0 + qty.0);
                st.cost_basis_quote = Money(st.cost_basis_quote.0 + cost.0);
                stats.buy_fills = inc_u64(stats.buy_fills);
                return Some(FillRecord {
                    ts,
                    side: Side::Buy,
                    mode: FillMode::Bootstrap,
                    qty,
                    price: fill_price,
                    fee_quote: Money(0),
                    quote_delta: Money(0 - cost.0),
                    realized_pnl: None,
                });
            }
        }
        None
    } else if delta_value < 0 && st.base.0 > 0 {
        let neg_delta = bv - target_base_value;
        proof {
            lemma_capped_mul_div(neg_delta as int, st.base.0 as int, mid.0 as int, SCALE as int);
        }
        let qty = min_i64(mul_div(neg_delta, SCALE, mid.0), st.base.0);
        if qty > 0 {
            let proceeds = fce.sell_proceeds(Qty(qty), mid);
            proof {
                assert(st.cost_basis_quote.0 * qty / (st.base.0 as int) <= st.cost_basis_quote.0)
                    by (nonlinear_arith)
                    requires 0 <= st.cost_basis_quote.0, 0 < qty <= st.base.0;
                assert(0 <= st.cost_basis_quote.0 * qty / (st.base.0 as int))
                    by (nonlinear_arith)
                    requires 0 <= st.cost_basis_quote.0, 0 < qty, 0 < st.base.0;
            }
            let removed = mul_div(st.cost_basis_quote.0, qty, st.base.0);
            let realized = proceeds.0 - removed;
            if proceeds.0 <= MAX_AMOUNT - st.quote.0 {
                let fill_price = fce.sell_fill_price(mid);
                let new_base = st.base.0 - qty;
                st.quote = Money(st.quote.0 + proceeds.0);
                st.base = Qty(new_base);
                st.cost_basis_quote = Money(
                    if new_base == 0 {
                        0
                    } else {
                        st.cost_basis_quote.0 - removed
                    },
                );
                stats.sell_fills = inc_u64(stats.sell_fills);
                if realized > 0 {
                    stats.winning_sells = inc_u64(stats.winning_sells);
                    stats.gross_profit = Money(add_sat(stats.gross_profit.0, realized));
                } else if realized < 0 {
                    stats.losing_sells = inc_u64(stats.losing_sells);
                    stats.gross_loss = Money(add_sat(stats.gross_loss.0, 0 - realized));
                }
                return Some(FillRecord {
                    ts,
                    side: Side::Sell,
                    mode: FillMode::Bootstrap,
                    qty: Qty(qty),
                    price: fill_price,
                    fee_quote: Money(0),
                    quote_delta: proceeds,
                    realized_pnl: Some(Money(realized)),
                });
            }
        }
        None
    } else {
        None
    }
}

/// Build the win-rate and averages part of a report from the final
/// statistics.
fn stats_summary(stats: &TradeStats) -> (r: (Ratio, Money, Money))
    requires
        stats_wf(*stats),
    ensures
        r.0.0 == (if stats.sell_fills > 0 {
            (stats.winning_sells as int) * (100 * SCALE) / (stats.sell_fills as int)
        } else {
            0int
        }),
        0 <= r.0.0 <= 100 * SCALE,
        r.1.0 == (if stats.winning_sells > 0 {
            stats.gross_profit.0 as int / (stats.winning_sells as int)
        } else {
            0int
        }),
        r.2.0 == (if stats.losing_sells > 0 {
            stats.gross_loss.0 as int / (stats.losing_sells as int)
        } else {
            0int
        }),
{
    let win_rate: i64 = if stats.sell_fills > 0 {
        proof {
            assert((stats.winning_sells as int) * (100 * SCALE) / (stats.sell_fills as int)
                <= (stats.sell_fills as int) * (100 * SCALE) / (stats.sell_fills as int))
                by (nonlinear_arith)
                requires 0 <= stats.winning_sells <= stats.sell_fills, 0 < stats.sell_fills;
            assert((stats.sell_fills as int) * (100 * SCALE) / (stats.sell_fills as int) == 100
                * SCALE) by (nonlinear_arith)
                requires 0 < stats.sell_fills;
            assert(0 <= (stats.winning_sells as int) * (100 * SCALE) / (stats.sell_fills as int))
                by (nonlinear_arith)
                requires 0 <= stats.winning_sells, 0 < stats.sell_fills;
        }
        mul_div_u64(stats.winning_sells, 100 * SCALE, stats.sell_fills)
    } else {
        0
    };
    let avg_win = if stats.winning_sells > 0 {
        div_count(stats.gross_profit.0, stats.winning_sells)
    } else {
        0
    };
    let avg_loss = if stats.losing_sells > 0 {
        div_count(stats.gross_loss.0, stats.losing_sells)
    } else {
        0
    };
    (Ratio(win_rate), Money(avg_win), Money(avg_loss))
}

/// All evolving state of a market-making backtest between bars.
#[derive(Clone, Copy, Debug)]
pub struct MmRunState {
    pub ledger: LedgerState,
    pub stats: TradeStats,
    pub bos: BosTracker,
    pub pullback: PullbackTracker,
    pub stop_like_disables: u64,
    pub max_equity: i64,
    pub max_drawdown: i64,
    pub last_ts: TimestampMs,
}

pub open spec fn mm_state_wf(s: MmRunState) -> bool {
    &&& ledger_wf(s.ledger)
    &&& stats_wf(s.stats)
    &&& bos_wf(s.bos)
    &&& pullback_wf(s.pullback)
    &&& 0 <= s.max_equity <= i64::MAX - MAX_AMOUNT
    &&& 0 <= s.max_drawdown <= SCALE
}

/// The state a market-making backtest starts from: the cost basis of any
/// starting base position is marked at the first close (clamped into the
/// representable range).
pub open spec fn spec_mm_init(initial_quote: int, initial_base: int, c0: Candle) -> MmRunState {
    let bv0 = initial_base * c0.close.0 / (SCALE as int);
    let cb0 = if initial_base > 0 {
        if bv0 <= MAX_AMOUNT {
            bv0
        } else {
            MAX_AMOUNT as int
        }
    } else {
        0int
    };
    MmRunState {
        ledger: LedgerState {
            quote: Money(initial_quote as i64),
            base: Qty(initial_base as i64),
            cost_basis_quote: Money(cb0 as i64),
        },
        stats: TradeStats {
            buy_fills: 0,
            sell_fills: 0,
            winning_sells: 0,
            losing_sells: 0,
            gross_profit: Money(0),
            gross_loss: Money(0),
        },
        bos: crate::bos::spec_bos_reset(),
        pullback: PullbackTracker { max_price_after_bos: None, triggered: false },
        stop_like_disables: 0,
        max_equity: (initial_quote + bv0) as i64,
        max_drawdown: 0,
        last_ts: c0.ts,
    }
}

/// One bar of the single-timeframe loop, as a value: push the candle,
/// update structure, BOS and pullback, decide the policy, fill the grid at
/// the mid, and mark to market.
pub open spec fn spec_mm_bar_step(
    s: MmRunState,
    fs: Seq<Candle>,
    rows: Seq<EquityRecord>,
    fills: Seq<FillRecord>,
    c: Candle,
    window: int,
    gp: GridParams,
    pp: MmPolicyParams,
    bosp: BosParams,
    pbp: PullbackParams,
    sp: StructureParams,
    maker_fee: int,
) -> (MmRunState, Seq<Candle>, Seq<EquityRecord>, Seq<FillRecord>) {
    let s0 = MmRunState { last_ts: c.ts, ..s };
    let fs2 = crate::feed::spec_feed_push(fs, window, c);
    if fs2.len() < 2 {
        (s0, fs2, rows, fills)
    } else {
        let atr = Price(crate::atr::spec_atr_val(fs2) as i64);
        let mid = fs2.last().close;
        let ms = crate::structure::spec_detect_structure(fs2, sp);
        let bos2 = crate::bos::spec_bos_step(s0.bos, c, ms, atr, bosp);
        let pb2 = if bos2.state == BosState::Confirmed {
            crate::pullback::spec_pullback_step(s0.pullback, c, bos2, atr, pbp)
        } else {
            PullbackTracker { max_price_after_bos: None, triggered: false }
        };
        let s1 = MmRunState { bos: bos2, pullback: pb2, ..s0 };
        let inv = Inventory { base: s1.ledger.base, quote: s1.ledger.quote };
        if crate::grid::spec_equity(inv, mid.0 as int) <= 0 {
            (s1, fs2, rows, fills)
        } else {
            let ratio = crate::grid::spec_base_ratio_val(inv, mid.0 as int);
            let policy = crate::mm_policy::spec_mm_policy(bos2.state, pb2.triggered, ratio, pp);
            let s2 = if policy.mode == MmMode::Disabled {
                MmRunState {
                    stop_like_disables: crate::types::spec_inc_u64(s1.stop_like_disables),
                    ..s1
                }
            } else {
                s1
            };
            let traded: (LedgerState, TradeStats, Seq<FillRecord>) = if (policy.mode
                == MmMode::Normal || policy.mode == MmMode::Defensive)
                && !crate::grid::spec_grid_rejected(mid.0 as int, mid.0 as int, inv, gp) {
                let m = crate::grid::spec_grid_mults(ratio, gp);
                let orders = crate::grid::spec_grid_build(
                    mid.0 as int,
                    gp,
                    m.0,
                    m.1,
                    gp.levels as int,
                    inv.quote.0 as int,
                    inv.base.0 as int,
                ).0;
                let sorted = crate::fills::spec_sort_orders(orders);
                let fmode = if policy.mode == MmMode::Normal {
                    FillMode::Normal
                } else {
                    FillMode::Defensive
                };
                crate::fills::spec_fill_bar(
                    s2.ledger,
                    s2.stats,
                    sorted,
                    c.low.0 as int,
                    c.high.0 as int,
                    c.ts,
                    fmode,
                    maker_fee,
                )
            } else {
                (s2.ledger, s2.stats, Seq::empty())
            };
            let led3 = traded.0;
            let bv = led3.base.0 * c.close.0 / (SCALE as int);
            let e = led3.quote.0 + bv;
            let max_e = if e > s2.max_equity { e } else { s2.max_equity as int };
            let s3 = MmRunState { ledger: led3, stats: traded.1, max_equity: max_e as i64, ..s2 };
            if max_e > 0 {
                let dd = (max_e - e) * SCALE / max_e;
                let mdd = if dd > s3.max_drawdown { dd } else { s3.max_drawdown as int };
                (
                    MmRunState { max_drawdown: mdd as i64, ..s3 },
                    fs2,
                    rows.push(
                        EquityRecord {
                            ts: c.ts,
                            close: c.close,
                            mode: policy.mode,
                            quote: led3.quote,
                            base: led3.base,
                            cost_basis_quote: led3.cost_basis_quote,
                            equity: Money(e as i64),
                            drawdown_pct: Ratio((dd * 100) as i64),
                        },
                    ),
                    fills + traded.2,
                )
            } else {
                (s3, fs2, rows, fills + traded.2)
            }
        }
    }
}

/// The whole single-timeframe bar loop, folded from the first candle.
pub open spec fn spec_mm_run(
    s0: MmRunState,
    fs0: Seq<Candle>,
    candles: Seq<Candle>,
    window: int,
    gp: GridParams,
    pp: MmPolicyParams,
    bosp: BosParams,
    pbp: PullbackParams,
    sp: StructureParams,
    maker_fee: int,
) -> (MmRunState, Seq<Candle>, Seq<EquityRecord>, Seq<FillRecord>)
    decreases candles.len(),
{
    if candles.len() == 0 {
        (s0, fs0, Seq::empty(), Seq::empty())
    } else {
        let prev = spec_mm_run(
            s0,
            fs0,
            candles.drop_last(),
            window,
            gp,
            pp,
            bosp,
            pbp,
            sp,
            maker_fee,
        );
        spec_mm_bar_step(
            prev.0,
            prev.1,
            prev.2,
            prev.3,
            candles.last(),
            window,
            gp,
            pp,
            bosp,
            pbp,
            sp,
            maker_fee,
        )
    }
}

/// The optional liquidation after the loop, at the last close seen.
pub open spec fn spec_mm_close_out(
    s: MmRunState,
    fs: Seq<Candle>,
    fce: ExecutionModel,
    enabled: bool,
) -> (MmRunState, Option<FillRecord>) {
    if enabled {
        let mark = if fs.len() > 0 { fs.last().close.0 as int } else { 0int };
        let fc = spec_force_close(s.ledger, s.stats, mark, fce, s.last_ts);
        (MmRunState { ledger: fc.0, stats: fc.1, ..s }, fc.2)
    } else {
        (s, None)
    }
}

/// The report read off the final state.
pub open spec fn spec_mm_report(
    s: MmRunState,
    fs: Seq<Candle>,
    initial_quote: int,
    initial_base: int,
) -> MmReport {
    let mark = if fs.len() > 0 { fs.last().close.0 as int } else { 0int };
    let final_equity = s.ledger.quote.0 + s.ledger.base.0 * mark / (SCALE as int);
    let initial_equity = initial_quote + initial_base * mark / (SCALE as int);
    let pnl = final_equity - initial_equity;
    let win_rate = if s.stats.sell_fills > 0 {
        (s.stats.winning_sells as int) * (100 * SCALE) / (s.stats.sell_fills as int)
    } else {
        0int
    };
    let avg_win = if s.stats.winning_sells > 0 {
        s.stats.gross_profit.0 as int / (s.stats.winning_sells as int)
    } else {
        0int
    };
    let avg_loss = if s.stats.losing_sells > 0 {
        s.stats.gross_loss.0 as int / (s.stats.losing_sells as int)
    } else {
        0int
    };
    MmReport {
        buy_fills: s.stats.buy_fills,
        sell_fills: s.stats.sell_fills,
        stop_like_disables: s.stop_like_disables,
        winning_sells: s.stats.winning_sells,
        losing_sells: s.stats.losing_sells,
        win_rate_pct: Ratio(win_rate as i64),
        avg_win: Money(avg_win as i64),
        avg_loss: Money(avg_loss as i64),
        profit_factor: ProfitFactor {
            gross_profit: s.stats.gross_profit,
            gross_loss: s.stats.gross_loss,
        },
        max_drawdown_pct: Ratio((s.max_drawdown * 100) as i64),
        pnl: Money(pnl as i64),
        roi_pct: Ratio(crate::trend_backtest::spec_roi_pct(pnl, initial_equity) as i64),
        final_equity: Money(final_equity as i64),
    }
}

/// Single-timeframe market-making backtest: per bar, update structure, BOS
/// and pullback, decide the policy, build and fill the grid at the mid, and
/// mark to market. Spot long-only: base and quote never go negative.
///
/// The report, equity rows and fill records equal the fold of the per-bar
/// step over the candles, followed by the optional close-out: the backtest
/// is a pure function of its arguments.
#[verifier::rlimit(100)]
pub fn run_mm(
    candles: &Vec<Candle>,
    window: usize,
    grid_params: GridParams,
    mm_policy: MmPolicyParams,
    bos_params: BosParams,
    pullback_params: PullbackParams,
    structure_params: StructureParams,
    maker_fee_bps: Bps,
    force_close_exec: ExecutionModel,
    initial_quote: Money,
    initial_base: Qty,
    force_close_at_end: bool,
) -> (r: (MmReport, Vec<EquityRecord>, Vec<FillRecord>))
    requires
        candles_wf(candles@),
        candles@.len() >= 1,
        grid_params_wf(grid_params),
        mm_policy_params_wf(mm_policy),
        bos_params_wf(bos_params),
        pullback_params_wf(pullback_params),
        structure_params_wf(structure_params),
        0 <= maker_fee_bps.0 <= 10_000,
        exec_model_wf(force_close_exec),
        0 <= initial_quote.0 <= MAX_AMOUNT,
        0 <= initial_base.0 <= MAX_AMOUNT,
    ensures
        ({
            let run = spec_mm_run(
                spec_mm_init(initial_quote.0 as int, initial_base.0 as int, candles@[0]),
                Seq::empty(),
                candles@,
                window as int,
                grid_params,
                mm_policy,
                bos_params,
                pullback_params,
                structure_params,
                maker_fee_bps.0 as int,
            );
            let closed = spec_mm_close_out(run.0, run.1, force_close_exec, force_close_at_end);
            &&& r.0 == spec_mm_report(
                closed.0,
                run.1,
                initial_quote.0 as int,
                initial_base.0 as int,
            )
            &&& r.1@ == run.2
            &&& r.2@ == (match closed.1 {
                Some(rec) => run.3.push(rec),
                None => run.3,
            })
            &&& force_close_at_end ==> closed.0.ledger.base.0 == 0
        }),
        r.0.winning_sells <= r.0.sell_fills,
        r.0.win_rate_pct.0 == (if r.0.sell_fills > 0 {
            (r.0.winning_sells as int) * (100 * SCALE) / (r.0.sell_fills as int)
        } else {
            0int
        }),
        0 <= r.0.win_rate_pct.0 <= 100 * SCALE,
        r.0.avg_win.0 >= 0,
        r.0.avg_loss.0 >= 0,
        pf_wf(r.0.profit_factor),
        0 <= r.0.max_drawdown_pct.0 <= 100 * SCALE,
        equity_rows_ok(r.1@),
{
    let c0 = candles[0];
    proof {
        assert(candle_wf(candles@[0]));
        crate::types::lemma_amount_product_bounded(initial_base.0 as int, c0.close.0 as int);
    }
    let bv0 = mul_div(initial_base.0, c0.close.0, SCALE);
    let cb0 = if initial_base.0 > 0 { min_i64(bv0, MAX_AMOUNT) } else { 0 };
    let mut st = MmRunState {
        ledger: LedgerState {
            quote: initial_quote,
            base: initial_base,
            cost_basis_quote: Money(cb0),
        },
        stats: TradeStats::new(),
        bos: BosTracker::new(),
        pullback: PullbackTracker::new(),
        stop_like_disables: 0,
        max_equity: initial_quote.0 + bv0,
        max_drawdown: 0,
        last_ts: c0.ts,
    };
    let ghost init = spec_mm_init(initial_quote.0 as int, initial_base.0 as int, candles@[0]);
    proof {
        assert(st == init);
        assert(candles@.subrange(0, 0) =~= Seq::<Candle>::empty());
    }
    let mut rows: Vec<EquityRecord> = Vec::new();
    let mut frecs: Vec<FillRecord> = Vec::new();
    let mut feed = CandleFeed::new(window);

    let mut i: usize = 0;
    while i < candles.len()
        invariant
            0 <= i <= candles@.len(),
            candles_wf(candles@),
            grid_params_wf(grid_params),
            mm_policy_params_wf(mm_policy),
            bos_params_wf(bos_params),
            pullback_params_wf(pullback_params),
            structure_params_wf(structure_params),
            0 <= maker_fee_bps.0 <= 10_000,
            exec_model_wf(force_close_exec),
            feed.window == window,
            feed_wf(feed),
            init == spec_mm_init(initial_quote.0 as int, initial_base.0 as int, candles@[0]),
            mm_state_wf(st),
            equity_rows_ok(rows@),
            (st, feed.candles@, rows@, frecs@) == spec_mm_run(
                init,
                Seq::<Candle>::empty(),
                candles@.subrange(0, i as int),
                window as int,
                grid_params,
                mm_policy,
                bos_params,
                pullback_params,
                structure_params,
                maker_fee_bps.0 as int,
            ),
        decreases candles@.len() - i,
    {
        let ghost pre = (st, feed.candles@, rows@, frecs@);
        let c = candles[i];
        proof {
            assert(candle_wf(candles@[i as int]));
            assert(crate::candle::candle_ts_ok(candles@[i as int]));
        }
        st.last_ts = c.ts;
        feed.push(c);
        let ghost fs2 = feed.candles@;
        let ghost s0x = st;
        proof {
            assert(fs2 == crate::feed::spec_feed_push(pre.1, window as int, c));
            assert(s0x == (MmRunState { last_ts: c.ts, ..pre.0 }));
        }
        let atr_opt = feed.atr();
        match atr_opt {
            Some(atr) => {
                let mid = match feed.mid() {
                    Some(m) => m,
                    None => Price(0),
                };
                proof {
                    assert(candle_wf(feed.candles@[feed.candles@.len() - 1]));
                    assert(atr == Price(crate::atr::spec_atr_val(fs2) as i64));
                    assert(mid == fs2.last().close);
                }
                let ms = detect_structure(&feed.candles, structure_params);
                st.bos.on_candle_close(&c, &ms, atr, bos_params);
                if matches!(st.bos.state, BosState::Confirmed) {
                    st.pullback.on_candle_close(&c, &st.bos, atr, pullback_params);
                } else {
                    st.pullback.reset();
                }
                let ghost s1x = st;
                proof {
                    assert(ms == crate::structure::spec_detect_structure(
                        fs2,
                        structure_params,
                    ));
                    assert(s1x.bos == crate::bos::spec_bos_step(
                        s0x.bos,
                        c,
                        ms,
                        atr,
                        bos_params,
                    ));
                    assert(s1x == (MmRunState { bos: s1x.bos, pullback: s1x.pullback, ..s0x }));
                }
                let inv = Inventory { base: st.ledger.base, quote: st.ledger.quote };
                match base_ratio(inv, mid) {
                    Some(ratio) => {
                        let policy = mm_policy_decision(st.bos.state, &st.pullback, ratio, mm_policy);
                        if matches!(policy.mode, MmMode::Disabled) {
                            st.stop_like_disables = inc_u64(st.stop_like_disables);
                        }
                        let ghost s2x = st;
                        if matches!(policy.mode, MmMode::Normal)
                            || matches!(policy.mode, MmMode::Defensive) {
                            match build_grid(mid, mid, inv, grid_params) {
                                Some(orders) => {
                                    let sorted = sort_orders(orders);
                                    let fmode = if matches!(policy.mode, MmMode::Normal) {
                                        FillMode::Normal
                                    } else {
                                        FillMode::Defensive
                                    };
                                    let mut led = st.ledger;
                                    let mut stats = st.stats;
                                    let recs = fill_bar(
                                        &mut led,
                                        &mut stats,
                                        &sorted,
                                        c.low,
                                        c.high,
                                        c.ts,
                                        fmode,
                                        maker_fee_bps,
                                    );
                                    st.ledger = led;
                                    st.stats = stats;
                                    let mut k: usize = 0;
                                    while k < recs.len()
                                        invariant
                                            0 <= k <= recs@.len(),
                                            frecs@ == pre.3 + recs@.subrange(0, k as int),
                                        decreases recs@.len() - k,
                                    {
                                        proof {
                                            assert(recs@.subrange(0, k + 1int)
                                                =~= recs@.subrange(0, k as int).push(
                                                recs@[k as int],
                                            ));
                                            assert(pre.3 + recs@.subrange(0, k as int).push(
                                                recs@[k as int],
                                            ) =~= (pre.3 + recs@.subrange(0, k as int)).push(
                                                recs@[k as int],
                                            ));
                                        }
                                        frecs.push(recs[k]);
                                        k = k + 1;
                                    }
                                    proof {
                                        assert(recs@.subrange(0, recs@.len() as int) =~= recs@);
                                        assert(frecs@ == pre.3 + recs@);
                                    }
                                }
                                None => {
                                    proof {
                                        assert(frecs@ =~= pre.3 + Seq::<FillRecord>::empty());
                                    }
                                }
                            }
                        } else {
                            proof {
                                assert(frecs@ =~= pre.3 + Seq::<FillRecord>::empty());
                            }
                        }
                        proof {
                            let ratio_v = crate::grid::spec_base_ratio_val(inv, mid.0 as int);
                            assert(ratio.0 as int == ratio_v);
                            assert(policy == crate::mm_policy::spec_mm_policy(
                                s1x.bos.state,
                                s1x.pullback.triggered,
                                ratio_v,
                                mm_policy,
                            ));
                            let tr: (LedgerState, TradeStats, Seq<FillRecord>) = if (policy.mode
                                == MmMode::Normal || policy.mode == MmMode::Defensive)
                                && !crate::grid::spec_grid_rejected(
                                mid.0 as int,
                                mid.0 as int,
                                inv,
                                grid_params,
                            ) {
                                let m = crate::grid::spec_grid_mults(ratio_v, grid_params);
                                let orders = crate::grid::spec_grid_build(
                                    mid.0 as int,
                                    grid_params,
                                    m.0,
                                    m.1,
                                    grid_params.levels as int,
                                    inv.quote.0 as int,
                                    inv.base.0 as int,
                                ).0;
                                crate::fills::spec_fill_bar(
                                    s2x.ledger,
                                    s2x.stats,
                                    crate::fills::spec_sort_orders(orders),
                                    c.low.0 as int,
                                    c.high.0 as int,
                                    c.ts,
                                    if policy.mode == MmMode::Normal {
                                        FillMode::Normal
                                    } else {
                                        FillMode::Defensive
                                    },
                                    maker_fee_bps.0 as int,
                                )
                            } else {
                                (s2x.ledger, s2x.stats, Seq::<FillRecord>::empty())
                            };
                            assert(st.ledger == tr.0);
                            assert(st.stats == tr.1);
                            assert(frecs@ == pre.3 + tr.2);
                        }
                        let (e, dd_pct) = observe_equity(
                            &st.ledger,
                            c.close,
                            &mut st.max_equity,
                            &mut st.max_drawdown,
                        );
                        if st.max_equity > 0 {
                            rows.push(EquityRecord {
                                ts: c.ts,
                                close: c.close,
                                mode: policy.mode,
                                quote: st.ledger.quote,
                                base: st.ledger.base,
                                cost_basis_quote: st.ledger.cost_basis_quote,
                                equity: Money(e),
                                drawdown_pct: Ratio(dd_pct),
                            });
                        }
                        proof {
                            assert((st, feed.candles@, rows@, frecs@) == spec_mm_bar_step(
                                pre.0,
                                pre.1,
                                pre.2,
                                pre.3,
                                c,
                                window as int,
                                grid_params,
                                mm_policy,
                                bos_params,
                                pullback_params,
                                structure_params,
                                maker_fee_bps.0 as int,
                            ));
                        }
                    }
                    None => {
                        proof {
                            assert((st, feed.candles@, rows@, frecs@) == spec_mm_bar_step(
                                pre.0,
                                pre.1,
                                pre.2,
                                pre.3,
                                c,
                                window as int,
                                grid_params,
                                mm_policy,
                                bos_params,
                                pullback_params,
                                structure_params,
                                maker_fee_bps.0 as int,
                            ));
                        }
                    }
                }
            }
            None => {
                proof {
                    assert(fs2.len() < 2);
                    assert((st, feed.candles@, rows@, frecs@) == spec_mm_bar_step(
                        pre.0,
                        pre.1,
                        pre.2,
                        pre.3,
                        c,
                        window as int,
                        grid_params,
                        mm_policy,
                        bos_params,
                        pullback_params,
                        structure_params,
                        maker_fee_bps.0 as int,
                    ));
                }
            }
        }
        proof {
            let post = candles@.subrange(0, i + 1int);
            assert(post.drop_last() =~= candles@.subrange(0, i as int));
            assert(post.last() == candles@[i as int]);
        }
        i = i + 1;
    }
    proof {
        assert(candles@.subrange(0, candles@.len() as int) =~= candles@);
    }

    let ghost run_end = (st, feed.candles@, rows@, frecs@);
    if force_close_at_end {
        let final_mark = match feed.mid() {
            Some(m) => m,
            None => Price(0),
        };
        proof {
            if feed.candles@.len() > 0 {
                assert(candle_wf(feed.candles@[feed.candles@.len() - 1]));
            }
        }
        let mut led = st.ledger;
        let mut stats = st.stats;
        let rec = force_close_position(&mut led, &mut stats, final_mark, force_close_exec, st.last_ts);
        st.ledger = led;
        st.stats = stats;
        match rec {
            Some(fr) => {
                frecs.push(fr);
            }
            None => {}
        }
    }
    proof {
        let closed = spec_mm_close_out(run_end.0, run_end.1, force_close_exec, force_close_at_end);
        assert(st == closed.0);
        assert(frecs@ == (match closed.1 {
            Some(rec) => run_end.3.push(rec),
            None => run_end.3,
        }));
    }

    let final_mark = match feed.mid() {
        Some(m) => m,
        None => Price(0),
    };
    proof {
        if feed.candles@.len() > 0 {
            assert(candle_wf(feed.candles@[feed.candles@.len() - 1]));
        }
        crate::types::lemma_amount_product_bounded(st.ledger.base.0 as int, final_mark.0 as int);
        crate::types::lemma_amount_product_bounded(initial_base.0 as int, final_mark.0 as int);
    }
    let final_equity = st.ledger.quote.0 + mul_div(st.ledger.base.0, final_mark.0, SCALE);
    let initial_equity = initial_quote.0 + mul_div(initial_base.0, final_mark.0, SCALE);
    let pnl = final_equity - initial_equity;
    let roi = roi_pct(Money(pnl), Money(initial_equity));
    let (win_rate, avg_win, avg_loss) = stats_summary(&st.stats);

    (
        MmReport {
            buy_fills: st.stats.buy_fills,
            sell_fills: st.stats.sell_fills,
            stop_like_disables: st.stop_like_disables,
            winning_sells: st.stats.winning_sells,
            losing_sells: st.stats.losing_sells,
            win_rate_pct: win_rate,
            avg_win,
            avg_loss,
            profit_factor: ProfitFactor {
                gross_profit: st.stats.gross_profit,
                gross_loss: st.stats.gross_loss,
            },
            max_drawdown_pct: Ratio(st.max_drawdown * 100),
            pnl: Money(pnl),
            roi_pct: roi,
            final_equity: Money(final_equity),
        },
        rows,
        frecs,
    )
}

/// All evolving state of the multi-timeframe loop between bars.
#[derive(Clone, Copy, Debug)]
pub struct MtfRunState {
    pub ledger: LedgerState,
    pub stats: TradeStats,
    pub bos: BosTracker,
    pub pullback: PullbackTracker,
    pub active_mode: MmMode,
    pub bootstrap_trades: u64,
    pub ltf_idx: usize,
    pub max_equity: i64,
    pub max_drawdown: i64,
    pub last_ts: TimestampMs,
}

pub open spec fn mtf_state_wf(s: MtfRunState, ltf_len: int) -> bool {
    &&& ledger_wf(s.ledger)
    &&& stats_wf(s.stats)
    &&& bos_wf(s.bos)
    &&& pullback_wf(s.pullback)
    &&& 0 <= s.ltf_idx <= ltf_len
    &&& 0 <= s.max_equity <= i64::MAX - MAX_AMOUNT
    &&& 0 <= s.max_drawdown <= SCALE
}

/// The first low-timeframe index at or past the window start.
pub open spec fn spec_mtf_skip(ltf: Seq<Candle>, idx: int, window_start: int) -> int
    decreases ltf.len() - idx,
{
    if 0 <= idx < ltf.len() && ltf[idx].ts.0 < window_start {
        spec_mtf_skip(ltf, idx + 1, window_start)
    } else {
        idx
    }
}

/// One low-timeframe bar under the active mode: fill the grid anchored at
/// its close and mark to market.
pub open spec fn spec_mtf_ltf_bar(
    s: MtfRunState,
    rows: Seq<EquityRecord>,
    fills: Seq<FillRecord>,
    lc: Candle,
    gp: GridParams,
    dgp: GridParams,
    maker_fee: int,
) -> (MtfRunState, Seq<EquityRecord>, Seq<FillRecord>) {
    let s0 = MtfRunState { last_ts: lc.ts, ..s };
    let inv = Inventory { base: s0.ledger.base, quote: s0.ledger.quote };
    let mgp = if s0.active_mode == MmMode::Defensive { dgp } else { gp };
    let traded: (LedgerState, TradeStats, Seq<FillRecord>) = if (s0.active_mode == MmMode::Normal
        || s0.active_mode == MmMode::Defensive) && !crate::grid::spec_grid_rejected(
        lc.close.0 as int,
        lc.close.0 as int,
        inv,
        mgp,
    ) {
        let ratio = crate::grid::spec_base_ratio_val(inv, lc.close.0 as int);
        let m = crate::grid::spec_grid_mults(ratio, mgp);
        let orders = crate::grid::spec_grid_build(
            lc.close.0 as int,
            mgp,
            m.0,
            m.1,
            mgp.levels as int,
            inv.quote.0 as int,
            inv.base.0 as int,
        ).0;
        let fmode = if s0.active_mode == MmMode::Defensive {
            FillMode::Defensive
        } else {
            FillMode::Normal
        };
        crate::fills::spec_fill_bar(
            s0.ledger,
            s0.stats,
            crate::fills::spec_sort_orders(orders),
            lc.low.0 as int,
            lc.high.0 as int,
            lc.ts,
            fmode,
            maker_fee,
        )
    } else {
        (s0.ledger, s0.stats, Seq::empty())
    };
    let led = traded.0;
    let bv = led.base.0 * lc.close.0 / (SCALE as int);
    let e = led.quote.0 + bv;
    let max_e = if e > s0.max_equity { e } else { s0.max_equity as int };
    let s1 = MtfRunState { ledger: led, stats: traded.1, max_equity: max_e as i64, ..s0 };
    if max_e > 0 {
        let dd = (max_e - e) * SCALE / max_e;
        let mdd = if dd > s1.max_drawdown { dd } else { s1.max_drawdown as int };
        (
            MtfRunState { max_drawdown: mdd as i64, ..s1 },
            rows.push(
                EquityRecord {
                    ts: lc.ts,
                    close: lc.close,
                    mode: s0.active_mode,
                    quote: led.quote,
                    base: led.base,
                    cost_basis_quote: led.cost_basis_quote,
                    equity: Money(e as i64),
                    drawdown_pct: Ratio((dd * 100) as i64),
                },
            ),
            fills + traded.2,
        )
    } else {
        (s1, rows, fills + traded.2)
    }
}

/// Consume every low-timeframe bar before the window end.
pub open spec fn spec_mtf_consume(
    s: MtfRunState,
    rows: Seq<EquityRecord>,
    fills: Seq<FillRecord>,
    ltf: Seq<Candle>,
    window_end: int,
    gp: GridParams,
    dgp: GridParams,
    maker_fee: int,
) -> (MtfRunState, Seq<EquityRecord>, Seq<FillRecord>)
    decreases ltf.len() - s.ltf_idx,
{
    if s.ltf_idx < ltf.len() && ltf.len() <= usize::MAX && ltf[s.ltf_idx as int].ts.0
        < window_end {
        let stepped = spec_mtf_ltf_bar(s, rows, fills, ltf[s.ltf_idx as int], gp, dgp, maker_fee);
        spec_mtf_consume(
            MtfRunState { ltf_idx: (s.ltf_idx + 1) as usize, ..stepped.0 },
            stepped.1,
            stepped.2,
            ltf,
            window_end,
            gp,
            dgp,
            maker_fee,
        )
    } else {
        (s, rows, fills)
    }
}

/// The high-timeframe close: recompute structure, BOS, pullback and the
/// policy (with the optional one-shot bootstrap) and set the active mode.
/// `fs2` is the feed window already holding `h`.
pub open spec fn spec_mtf_htf_close(
    s: MtfRunState,
    fs2: Seq<Candle>,
    fills: Seq<FillRecord>,
    h: Candle,
    pp: MmPolicyParams,
    bosp: BosParams,
    pbp: PullbackParams,
    sp: StructureParams,
    fce: ExecutionModel,
    bootstrap: bool,
    target: int,
) -> (MtfRunState, Seq<FillRecord>) {
    if fs2.len() < 2 {
        (MtfRunState { active_mode: MmMode::Disabled, ..s }, fills)
    } else {
        let atr = Price(crate::atr::spec_atr_val(fs2) as i64);
        let mid = fs2.last().close;
        let ms = crate::structure::spec_detect_structure(fs2, sp);
        let bos2 = crate::bos::spec_bos_step(s.bos, h, ms, atr, bosp);
        let pb2 = if bos2.state == BosState::Confirmed {
            crate::pullback::spec_pullback_step(s.pullback, h, bos2, atr, pbp)
        } else {
            PullbackTracker { max_price_after_bos: None, triggered: false }
        };
        let s1 = MtfRunState { bos: bos2, pullback: pb2, ..s };
        let inv = Inventory { base: s1.ledger.base, quote: s1.ledger.quote };
        if crate::grid::spec_equity(inv, mid.0 as int) <= 0 {
            (MtfRunState { active_mode: MmMode::Disabled, ..s1 }, fills)
        } else {
            let ratio = crate::grid::spec_base_ratio_val(inv, mid.0 as int);
            let d0 = crate::mm_policy::spec_mm_policy(bos2.state, pb2.triggered, ratio, pp);
            if bootstrap && d0.reason == MmDecisionReason::InventoryOutsideHardBand && bos2.state
                == BosState::Confirmed && pb2.triggered && mid.0 > 0 {
                let b = spec_bootstrap_step(s1.ledger, s1.stats, mid.0 as int, fce, target, h.ts);
                let s2 = MtfRunState {
                    ledger: b.0,
                    stats: b.1,
                    bootstrap_trades: if b.2 is Some {
                        crate::types::spec_inc_u64(s1.bootstrap_trades)
                    } else {
                        s1.bootstrap_trades
                    },
                    ..s1
                };
                let fills2 = match b.2 {
                    Some(rec) => fills.push(rec),
                    None => fills,
                };
                let inv2 = Inventory { base: s2.ledger.base, quote: s2.ledger.quote };
                let d = if crate::grid::spec_equity(inv2, mid.0 as int) > 0 {
                    crate::mm_policy::spec_mm_policy(
                        bos2.state,
                        pb2.triggered,
                        crate::grid::spec_base_ratio_val(inv2, mid.0 as int),
                        pp,
                    )
                } else {
                    d0
                };
                (MtfRunState { active_mode: d.mode, ..s2 }, fills2)
            } else {
                (MtfRunState { active_mode: d0.mode, ..s1 }, fills)
            }
        }
    }
}

/// One high-timeframe bar: skip stale low-timeframe bars, consume the
/// window, push the bar into the feed, and run the close logic.
pub open spec fn spec_mtf_bar_step(
    s: MtfRunState,
    fs: Seq<Candle>,
    rows: Seq<EquityRecord>,
    fills: Seq<FillRecord>,
    h: Candle,
    ltf: Seq<Candle>,
    htf_ms: int,
    gp: GridParams,
    dgp: GridParams,
    pp: MmPolicyParams,
    bosp: BosParams,
    pbp: PullbackParams,
    sp: StructureParams,
    fce: ExecutionModel,
    maker_fee: int,
    bootstrap: bool,
    target: int,
) -> (MtfRunState, Seq<Candle>, Seq<EquityRecord>, Seq<FillRecord>) {
    let ws = h.ts.0 as int;
    let we = ws + htf_ms;
    let skipped = spec_mtf_skip(ltf, s.ltf_idx as int, ws);
    let s0 = MtfRunState { ltf_idx: skipped as usize, ..s };
    let consumed = spec_mtf_consume(s0, rows, fills, ltf, we, gp, dgp, maker_fee);
    let fs2 = crate::feed::spec_feed_push(fs, 240, h);
    let closed = spec_mtf_htf_close(
        consumed.0,
        fs2,
        consumed.2,
        h,
        pp,
        bosp,
        pbp,
        sp,
        fce,
        bootstrap,
        target,
    );
    (closed.0, fs2, consumed.1, closed.1)
}

/// The whole multi-timeframe loop, folded from the first high-timeframe
/// bar.
pub open spec fn spec_mtf_run(
    s0: MtfRunState,
    fs0: Seq<Candle>,
    htf: Seq<Candle>,
    ltf: Seq<Candle>,
    htf_ms: int,
    gp: GridParams,
    dgp: GridParams,
    pp: MmPolicyParams,
    bosp: BosParams,
    pbp: PullbackParams,
    sp: StructureParams,
    fce: ExecutionModel,
    maker_fee: int,
    bootstrap: bool,
    target: int,
) -> (MtfRunState, Seq<Candle>, Seq<EquityRecord>, Seq<FillRecord>)
    decreases htf.len(),
{
    if htf.len() == 0 {
        (s0, fs0, Seq::empty(), Seq::empty())
    } else {
        let prev = spec_mtf_run(
            s0,
            fs0,
            htf.drop_last(),
            ltf,
            htf_ms,
            gp,
            dgp,
            pp,
            bosp,
            pbp,
            sp,
            fce,
            maker_fee,
            bootstrap,
            target,
        );
        spec_mtf_bar_step(
            prev.0,
            prev.1,
            prev.2,
            prev.3,
            htf.last(),
            ltf,
            htf_ms,
            gp,
            dgp,
            pp,
            bosp,
            pbp,
            sp,
            fce,
            maker_fee,
            bootstrap,
            target,
        )
    }
}

/// The state the multi-timeframe backtest starts from.
pub open spec fn spec_mtf_init(initial_quote: int, initial_base: int, h0: Candle) -> MtfRunState {
    let bv0 = initial_base * h0.close.0 / (SCALE as int);
    let cb0 = if initial_base > 0 {
        if bv0 <= MAX_AMOUNT {
            bv0
        } else {
            MAX_AMOUNT as int
        }
    } else {
        0int
    };
    MtfRunState {
        ledger: LedgerState {
            quote: Money(initial_quote as i64),
            base: Qty(initial_base as i64),
            cost_basis_quote: Money(cb0 as i64),
        },
        stats: TradeStats {
            buy_fills: 0,
            sell_fills: 0,
            winning_sells: 0,
            losing_sells: 0,
            gross_profit: Money(0),
            gross_loss: Money(0),
        },
        bos: crate::bos::spec_bos_reset(),
        pullback: PullbackTracker { max_price_after_bos: None, triggered: false },
        active_mode: MmMode::Disabled,
        bootstrap_trades: 0,
        ltf_idx: 0,
        max_equity: (initial_quote + bv0) as i64,
        max_drawdown: 0,
        last_ts: h0.ts,
    }
}

/// The optional liquidation after the loop, at the last low-timeframe
/// close.
pub open spec fn spec_mtf_close_out(
    s: MtfRunState,
    ltf: Seq<Candle>,
    fce: ExecutionModel,
    enabled: bool,
) -> (MtfRunState, Option<FillRecord>) {
    if enabled {
        let mark = if ltf.len() > 0 { ltf.last().close.0 as int } else { 0int };
        let fc = spec_force_close(s.ledger, s.stats, mark, fce, s.last_ts);
        (MtfRunState { ledger: fc.0, stats: fc.1, ..s }, fc.2)
    } else {
        (s, None)
    }
}

/// The report read off the final state, marked at the last low-timeframe
/// close.
pub open spec fn spec_mtf_report(
    s: MtfRunState,
    ltf: Seq<Candle>,
    initial_quote: int,
    initial_base: int,
) -> MmMtfReport {
    let mark = if ltf.len() > 0 { ltf.last().close.0 as int } else { 0int };
    let final_equity = s.ledger.quote.0 + s.ledger.base.0 * mark / (SCALE as int);
    let initial_equity = initial_quote + initial_base * mark / (SCALE as int);
    let pnl = final_equity - initial_equity;
    let win_rate = if s.stats.sell_fills > 0 {
        (s.stats.winning_sells as int) * (100 * SCALE) / (s.stats.sell_fills as int)
    } else {
        0int
    };
    let avg_win = if s.stats.winning_sells > 0 {
        s.stats.gross_profit.0 as int / (s.stats.winning_sells as int)
    } else {
        0int
    };
    let avg_loss = if s.stats.losing_sells > 0 {
        s.stats.gross_loss.0 as int / (s.stats.losing_sells as int)
    } else {
        0int
    };
    MmMtfReport {
        buy_fills: s.stats.buy_fills,
        sell_fills: s.stats.sell_fills,
        bootstrap_trades: s.bootstrap_trades,
        winning_sells: s.stats.winning_sells,
        losing_sells: s.stats.losing_sells,
        win_rate_pct: Ratio(win_rate as i64),
        avg_win: Money(avg_win as i64),
        avg_loss: Money(avg_loss as i64),
        profit_factor: ProfitFactor {
            gross_profit: s.stats.gross_profit,
            gross_loss: s.stats.gross_loss,
        },
        max_drawdown_pct: Ratio((s.max_drawdown * 100) as i64),
        pnl: Money(pnl as i64),
        roi_pct: Ratio(crate::trend_backtest::spec_roi_pct(pnl, initial_equity) as i64),
    }
}

/// Multi-timeframe market-making backtest: fills run on the low-timeframe
/// bars under the mode decided at the previous high-timeframe close; at
/// each high-timeframe close structure, BOS, pullback and the policy are
/// recomputed, with an optional one-shot bootstrap rebalance when only the
/// hard inventory band blocks trading.
///
/// The report, equity rows and fill records equal the fold of the per-bar
/// step over the high-timeframe series (consuming the low-timeframe bars
/// window by window), followed by the optional close-out: the backtest is
/// a pure function of its arguments. With the close-out enabled the final
/// base position is zero.
#[verifier::rlimit(100)]
pub fn run_mm_mtf(
    htf: &Vec<Candle>,
    ltf: &Vec<Candle>,
    htf_ms: i64,
    cfg: MmMtfConfig,
    min_base_qty: Qty,
    initial_quote: Money,
    initial_base: Qty,
    force_close_exec: ExecutionModel,
    force_close_at_end: bool,
    bootstrap_rebalance: bool,
    bootstrap_target_ratio: Ratio,
) -> (r: (MmMtfReport, Vec<EquityRecord>, Vec<FillRecord>))
    requires
        candles_wf(htf@),
        candles_wf(ltf@),
        htf@.len() >= 1,
        mm_mtf_config_wf(cfg),
        0 <= min_base_qty.0 <= MAX_AMOUNT,
        0 <= initial_quote.0 <= MAX_AMOUNT,
        0 <= initial_base.0 <= MAX_AMOUNT,
        exec_model_wf(force_close_exec),
        0 < htf_ms <= 1_000_000_000_000,
    ensures
        ({
            let gp = spec_mtf_grid_params(cfg, min_base_qty);
            let dgp = spec_mtf_defensive_params(cfg, min_base_qty);
            let pp = spec_mtf_policy_params(cfg);
            let run = spec_mtf_run(
                spec_mtf_init(initial_quote.0 as int, initial_base.0 as int, htf@[0]),
                Seq::empty(),
                htf@,
                ltf@,
                htf_ms as int,
                gp,
                dgp,
                pp,
                driver_bos_params(),
                driver_pullback_params(),
                driver_structure_params(),
                force_close_exec,
                cfg.maker_fee_bps.0 as int,
                bootstrap_rebalance,
                bootstrap_target_ratio.0 as int,
            );
            let closed = spec_mtf_close_out(run.0, ltf@, force_close_exec, force_close_at_end);
            &&& r.0 == spec_mtf_report(
                closed.0,
                ltf@,
                initial_quote.0 as int,
                initial_base.0 as int,
            )
            &&& r.1@ == run.2
            &&& r.2@ == (match closed.1 {
                Some(rec) => run.3.push(rec),
                None => run.3,
            })
            &&& force_close_at_end ==> closed.0.ledger.base.0 == 0
        }),
        r.0.winning_sells <= r.0.sell_fills,
        r.0.win_rate_pct.0 == (if r.0.sell_fills > 0 {
            (r.0.winning_sells as int) * (100 * SCALE) / (r.0.sell_fills as int)
        } else {
            0int
        }),
        0 <= r.0.win_rate_pct.0 <= 100 * SCALE,
        r.0.avg_win.0 >= 0,
        r.0.avg_loss.0 >= 0,
        pf_wf(r.0.profit_factor),
        0 <= r.0.max_drawdown_pct.0 <= 100 * SCALE,
        equity_rows_ok(r.1@),
{
    let bos_params = BosParams { confirm_candles: 2, epsilon_frac: Ratio(100_000) };
    let pullback_params = PullbackParams {
        epsilon_frac: Ratio(100_000),
        retrace_frac: Ratio(400_000),
    };
    let structure_params = StructureParams { pivot_k: 1, min_atr_frac: Ratio(100_000) };

    let grid_params = GridParams {
        levels: cfg.levels,
        step: cfg.step_bps,
        base_quote_per_order: cfg.base_quote_per_order,
        max_size_mult: cfg.max_size_mult,
        soft_min: cfg.soft_min,
        soft_max: cfg.soft_max,
        hard_min: cfg.hard_min,
        hard_max: cfg.hard_max,
        min_base_qty,
    };
    let eff_step_mult = if cfg.defensive_step_mult.0 >= SCALE {
        cfg.defensive_step_mult.0
    } else {
        SCALE
    };
    proof {
        assert(cfg.step_bps.0 * eff_step_mult / (SCALE as int) <= cfg.step_bps.0 * 100)
            by (nonlinear_arith)
            requires 0 <= cfg.step_bps.0, SCALE <= eff_step_mult <= 100 * SCALE,
                SCALE == 1_000_000;
        assert(cfg.step_bps.0 * 100 <= MAX_BPS * 100) by (nonlinear_arith)
            requires 0 <= cfg.step_bps.0 <= MAX_BPS;
        assert(cfg.step_bps.0 * eff_step_mult / (SCALE as int) >= cfg.step_bps.0)
            by (nonlinear_arith)
            requires 1 <= cfg.step_bps.0, SCALE <= eff_step_mult;
        assert((cfg.levels as int) * (cfg.step_bps.0 as int) <= (cfg.levels as int)
            * spec_def_step(cfg)) by (nonlinear_arith)
            requires 0 <= cfg.levels, cfg.step_bps.0 <= spec_def_step(cfg);
    }
    let def_step = mul_div(cfg.step_bps.0, eff_step_mult, SCALE);
    let clamped_size = if cfg.defensive_size_mult.0 < SCALE / 20 {
        SCALE / 20
    } else if cfg.defensive_size_mult.0 > SCALE {
        SCALE
    } else {
        cfg.defensive_size_mult.0
    };
    proof {
        assert(cfg.base_quote_per_order.0 * clamped_size / (SCALE as int)
            <= cfg.base_quote_per_order.0) by (nonlinear_arith)
            requires 0 <= cfg.base_quote_per_order.0, 0 <= clamped_size <= SCALE;
        assert(0 <= cfg.base_quote_per_order.0 * clamped_size / (SCALE as int))
            by (nonlinear_arith)
            requires 0 <= cfg.base_quote_per_order.0, 0 <= clamped_size;
    }
    let def_bqpo = mul_div(cfg.base_quote_per_order.0, clamped_size, SCALE);
    let defensive_params = GridParams {
        step: Bps(def_step),
        base_quote_per_order: Money(def_bqpo),
        ..grid_params
    };
    let policy_params = MmPolicyParams {
        soft_min: cfg.soft_min,
        soft_max: cfg.soft_max,
        hard_min: cfg.hard_min,
        hard_max: cfg.hard_max,
    };
    proof {
        assert(grid_params == spec_mtf_grid_params(cfg, min_base_qty));
        assert(defensive_params == spec_mtf_defensive_params(cfg, min_base_qty));
        assert(policy_params == spec_mtf_policy_params(cfg));
    }

    let h0 = htf[0];
    proof {
        assert(candle_wf(htf@[0]));
        crate::types::lemma_amount_product_bounded(initial_base.0 as int, h0.close.0 as int);
    }
    let bv0 = mul_div(initial_base.0, h0.close.0, SCALE);
    let cb0 = if initial_base.0 > 0 { min_i64(bv0, MAX_AMOUNT) } else { 0 };
    let mut st = MtfRunState {
        ledger: LedgerState {
            quote: initial_quote,
            base: initial_base,
            cost_basis_quote: Money(cb0),
        },
        stats: TradeStats::new(),
        bos: BosTracker::new(),
        pullback: PullbackTracker::new(),
        active_mode: MmMode::Disabled,
        bootstrap_trades: 0,
        ltf_idx: 0,
        max_equity: initial_quote.0 + bv0,
        max_drawdown: 0,
        last_ts: h0.ts,
    };
    let ghost init = spec_mtf_init(initial_quote.0 as int, initial_base.0 as int, htf@[0]);
    proof {
        assert(st == init);
        assert(htf@.subrange(0, 0) =~= Seq::<Candle>::empty());
    }
    let mut rows: Vec<EquityRecord> = Vec::new();
    let mut frecs: Vec<FillRecord> = Vec::new();
    let mut feed = CandleFeed::new(240);

    let mut hi: usize = 0;
    while hi < htf.len()
        invariant
            0 <= hi <= htf@.len(),
            candles_wf(htf@),
            candles_wf(ltf@),
            htf@.len() >= 1,
            mm_mtf_config_wf(cfg),
            grid_params == spec_mtf_grid_params(cfg, min_base_qty),
            defensive_params == spec_mtf_defensive_params(cfg, min_base_qty),
            policy_params == spec_mtf_policy_params(cfg),
            grid_params_wf(grid_params),
            grid_params_wf(defensive_params),
            bos_params == driver_bos_params(),
            pullback_params == driver_pullback_params(),
            structure_params == driver_structure_params(),
            0 <= cfg.maker_fee_bps.0 <= 10_000,
            exec_model_wf(force_close_exec),
            0 < htf_ms <= 1_000_000_000_000,
            feed.window == 240,
            feed_wf(feed),
            init == spec_mtf_init(initial_quote.0 as int, initial_base.0 as int, htf@[0]),
            mtf_state_wf(st, ltf@.len() as int),
            equity_rows_ok(rows@),
            (st, feed.candles@, rows@, frecs@) == spec_mtf_run(
                init,
                Seq::<Candle>::empty(),
                htf@.subrange(0, hi as int),
                ltf@,
                htf_ms as int,
                grid_params,
                defensive_params,
                policy_params,
                bos_params,
                pullback_params,
                structure_params,
                force_close_exec,
                cfg.maker_fee_bps.0 as int,
                bootstrap_rebalance,
                bootstrap_target_ratio.0 as int,
            ),
        decreases htf@.len() - hi,
    {
        let ghost pre = (st, feed.candles@, rows@, frecs@);
        let h = htf[hi];
        proof {
            assert(candle_wf(htf@[hi as int]));
            assert(crate::candle::candle_ts_ok(htf@[hi as int]));
        }
        let window_start = h.ts.0;
        let window_end = window_start + htf_ms;

        while st.ltf_idx < ltf.len() && ltf[st.ltf_idx].ts.0 < window_start
            invariant
                0 <= st.ltf_idx <= ltf@.len(),
                st == (MtfRunState { ltf_idx: st.ltf_idx, ..pre.0 }),
                window_start == h.ts.0,
                spec_mtf_skip(ltf@, pre.0.ltf_idx as int, window_start as int) == spec_mtf_skip(
                    ltf@,
                    st.ltf_idx as int,
                    window_start as int,
                ),
            decreases ltf@.len() - st.ltf_idx,
        {
            st.ltf_idx = st.ltf_idx + 1;
        }
        let ghost s_skip = st;
        proof {
            assert(s_skip.ltf_idx as int == spec_mtf_skip(
                ltf@,
                pre.0.ltf_idx as int,
                window_start as int,
            ));
        }

        while st.ltf_idx < ltf.len() && ltf[st.ltf_idx].ts.0 < window_end
            invariant
                0 <= st.ltf_idx <= ltf@.len(),
                candles_wf(ltf@),
                grid_params_wf(grid_params),
                grid_params_wf(defensive_params),
                0 <= cfg.maker_fee_bps.0 <= 10_000,
                window_end == h.ts.0 + htf_ms,
                ledger_wf(st.ledger),
                stats_wf(st.stats),
                0 <= st.max_equity <= i64::MAX - MAX_AMOUNT,
                0 <= st.max_drawdown <= SCALE,
                equity_rows_ok(rows@),
                spec_mtf_consume(
                    s_skip,
                    pre.2,
                    pre.3,
                    ltf@,
                    window_end as int,
                    grid_params,
                    defensive_params,
                    cfg.maker_fee_bps.0 as int,
                ) == spec_mtf_consume(
                    st,
                    rows@,
                    frecs@,
                    ltf@,
                    window_end as int,
                    grid_params,
                    defensive_params,
                    cfg.maker_fee_bps.0 as int,
                ),
                st.bos == s_skip.bos,
                st.pullback == s_skip.pullback,
                st.active_mode == s_skip.active_mode,
                st.bootstrap_trades == s_skip.bootstrap_trades,
            decreases ltf@.len() - st.ltf_idx,
        {
            let ghost lpre = (st, rows@, frecs@);
            let lc = ltf[st.ltf_idx];
            proof {
                assert(candle_wf(ltf@[st.ltf_idx as int]));
            }
            st.last_ts = lc.ts;
            let inv = Inventory { base: st.ledger.base, quote: st.ledger.quote };
            if matches!(st.active_mode, MmMode::Normal) || matches!(st.active_mode, MmMode::Defensive) {
                let mode_grid_params = if matches!(st.active_mode, MmMode::Defensive) {
                    defensive_params
                } else {
                    grid_params
                };
                match build_grid(lc.close, lc.close, inv, mode_grid_params) {
                    Some(orders) => {
                        let sorted = sort_orders(orders);
                        let fmode = if matches!(st.active_mode, MmMode::Defensive) {
                            FillMode::Defensive
                        } else {
                            FillMode::Normal
                        };
                        let mut led = st.ledger;
                        let mut stats = st.stats;
                        let recs = fill_bar(
                            &mut led,
                            &mut stats,
                            &sorted,
                            lc.low,
                            lc.high,
                            lc.ts,
                            fmode,
                            cfg.maker_fee_bps,
                        );
                        st.ledger = led;
                        st.stats = stats;
                        let mut k: usize = 0;
                        while k < recs.len()
                            invariant
                                0 <= k <= recs@.len(),
                                frecs@ == lpre.2 + recs@.subrange(0, k as int),
                            decreases recs@.len() - k,
                        {
                            proof {
                                assert(recs@.subrange(0, k + 1int) =~= recs@.subrange(
                                    0,
                                    k as int,
                                ).push(recs@[k as int]));
                                assert(lpre.2 + recs@.subrange(0, k as int).push(
                                    recs@[k as int],
                                ) =~= (lpre.2 + recs@.subrange(0, k as int)).push(
                                    recs@[k as int],
                                ));
                            }
                            frecs.push(recs[k]);
                            k = k + 1;
                        }
                        proof {
                            assert(recs@.subrange(0, recs@.len() as int) =~= recs@);
                            assert(frecs@ == lpre.2 + recs@);
                        }
                    }
                    None => {
                        proof {
                            assert(frecs@ =~= lpre.2 + Seq::<FillRecord>::empty());
                        }
                    }
                }
            } else {
                proof {
                    assert(frecs@ =~= lpre.2 + Seq::<FillRecord>::empty());
                }
            }
            let (e, dd_pct) = observe_equity(
                &st.ledger,
                lc.close,
                &mut st.max_equity,
                &mut st.max_drawdown,
            );
            if st.max_equity > 0 {
                rows.push(EquityRecord {
                    ts: lc.ts,
                    close: lc.close,
                    mode: st.active_mode,
                    quote: st.ledger.quote,
                    base: st.ledger.base,
                    cost_basis_quote: st.ledger.cost_basis_quote,
                    equity: Money(e),
                    drawdown_pct: Ratio(dd_pct),
                });
            }
            proof {
                assert((MtfRunState { ltf_idx: st.ltf_idx, ..st }, rows@, frecs@)
                    == spec_mtf_ltf_bar(
                    lpre.0,
                    lpre.1,
                    lpre.2,
                    lc,
                    grid_params,
                    defensive_params,
                    cfg.maker_fee_bps.0 as int,
                ));
            }
            st.ltf_idx = st.ltf_idx + 1;
        }
        let ghost s_cons = (st, rows@, frecs@);
        proof {
            assert(spec_mtf_consume(
                s_skip,
                pre.2,
                pre.3,
                ltf@,
                window_end as int,
                grid_params,
                defensive_params,
                cfg.maker_fee_bps.0 as int,
            ) == (s_cons.0, s_cons.1, s_cons.2));
        }

        feed.push(h);
        let ghost fs2 = feed.candles@;
        proof {
            assert(fs2 == crate::feed::spec_feed_push(pre.1, 240, h));
        }
        let atr_opt = feed.atr();
        match atr_opt {
            Some(atr) => {
                let mid = match feed.mid() {
                    Some(m) => m,
                    None => Price(0),
                };
                proof {
                    assert(candle_wf(feed.candles@[feed.candles@.len() - 1]));
                    assert(atr == Price(crate::atr::spec_atr_val(fs2) as i64));
                    assert(mid == fs2.last().close);
                }
                let ms = detect_structure(&feed.candles, structure_params);
                st.bos.on_candle_close(&h, &ms, atr, bos_params);
                if matches!(st.bos.state, BosState::Confirmed) {
                    st.pullback.on_candle_close(&h, &st.bos, atr, pullback_params);
                } else {
                    st.pullback.reset();
                }
                let ghost s1x = st;
                proof {
                    assert(s1x.bos == crate::bos::spec_bos_step(
                        s_cons.0.bos,
                        h,
                        crate::structure::spec_detect_structure(fs2, structure_params),
                        atr,
                        bos_params,
                    ));
                    assert(s1x == (MtfRunState { bos: s1x.bos, pullback: s1x.pullback, ..s_cons.0 }));
                }
                let inv = Inventory { base: st.ledger.base, quote: st.ledger.quote };
                match base_ratio(inv, mid) {
                    Some(ratio) => {
                        let mut decision = mm_policy_decision(
                            st.bos.state,
                            &st.pullback,
                            ratio,
                            policy_params,
                        );
                        if bootstrap_rebalance
                            && matches!(
                            decision.reason,
                            MmDecisionReason::InventoryOutsideHardBand,
                        ) && matches!(st.bos.state, BosState::Confirmed) && st.pullback.triggered
                            && mid.0 > 0 {
                            let mut led = st.ledger;
                            let mut stats = st.stats;
                            let rec = bootstrap_rebalance_step(
                                &mut led,
                                &mut stats,
                                mid,
                                force_close_exec,
                                bootstrap_target_ratio,
                                h.ts,
                            );
                            st.ledger = led;
                            st.stats = stats;
                            match rec {
                                Some(fr) => {
                                    st.bootstrap_trades = inc_u64(st.bootstrap_trades);
                                    frecs.push(fr);
                                }
                                None => {}
                            }
                            let inv2 = Inventory { base: st.ledger.base, quote: st.ledger.quote };
                            match base_ratio(inv2, mid) {
                                Some(r2) => {
                                    decision = mm_policy_decision(
                                        st.bos.state,
                                        &st.pullback,
                                        r2,
                                        policy_params,
                                    );
                                }
                                None => {}
                            }
                        }
                        st.active_mode = decision.mode;
                    }
                    None => {
                        st.active_mode = MmMode::Disabled;
                    }
                }
            }
            None => {
                st.active_mode = MmMode::Disabled;
            }
        }
        proof {
            let closed = spec_mtf_htf_close(
                s_cons.0,
                fs2,
                s_cons.2,
                h,
                policy_params,
                bos_params,
                pullback_params,
                structure_params,
                force_close_exec,
                bootstrap_rebalance,
                bootstrap_target_ratio.0 as int,
            );
            assert(st == closed.0);
            assert(frecs@ == closed.1);
            assert((st, feed.candles@, rows@, frecs@) == spec_mtf_bar_step(
                pre.0,
                pre.1,
                pre.2,
                pre.3,
                h,
                ltf@,
                htf_ms as int,
                grid_params,
                defensive_params,
                policy_params,
                bos_params,
                pullback_params,
                structure_params,
                force_close_exec,
                cfg.maker_fee_bps.0 as int,
                bootstrap_rebalance,
                bootstrap_target_ratio.0 as int,
            ));
            let post = htf@.subrange(0, hi + 1int);
            assert(post.drop_last() =~= htf@.subrange(0, hi as int));
            assert(post.last() == htf@[hi as int]);
        }
        hi = hi + 1;
    }
    proof {
        assert(htf@.subrange(0, htf@.len() as int) =~= htf@);
    }

    let ghost run_end = (st, feed.candles@, rows@, frecs@);
    if force_close_at_end {
        let final_mark = if ltf.len() > 0 {
            proof {
                assert(candle_wf(ltf@[ltf@.len() - 1]));
            }
            ltf[ltf.len() - 1].close
        } else {
            Price(0)
        };
        let mut led = st.ledger;
        let mut stats = st.stats;
        let rec = force_close_position(&mut led, &mut stats, final_mark, force_close_exec, st.last_ts);
        st.ledger = led;
        st.stats = stats;
        match rec {
            Some(fr) => {
                frecs.push(fr);
            }
            None => {}
        }
    }
    proof {
        let closed = spec_mtf_close_out(run_end.0, ltf@, force_close_exec, force_close_at_end);
        assert(st == closed.0);
        assert(frecs@ == (match closed.1 {
            Some(rec) => run_end.3.push(rec),
            None => run_end.3,
        }));
    }

    let final_mark = if ltf.len() > 0 {
        proof {
            assert(candle_wf(ltf@[ltf@.len() - 1]));
        }
        ltf[ltf.len() - 1].close
    } else {
        Price(0)
    };
    proof {
        crate::types::lemma_amount_product_bounded(st.ledger.base.0 as int, final_mark.0 as int);
        crate::types::lemma_amount_product_bounded(initial_base.0 as int, final_mark.0 as int);
    }
    let final_equity = st.ledger.quote.0 + mul_div(st.ledger.base.0, final_mark.0, SCALE);
    let initial_equity = initial_quote.0 + mul_div(initial_base.0, final_mark.0, SCALE);
    let pnl = final_equity - initial_equity;
    let roi = roi_pct(Money(pnl), Money(initial_equity));
    let (win_rate, avg_win, avg_loss) = stats_summary(&st.stats);

    (
        MmMtfReport {
            buy_fills: st.stats.buy_fills,
            sell_fills: st.stats.sell_fills,
            bootstrap_trades: st.bootstrap_trades,
            winning_sells: st.stats.winning_sells,
            losing_sells: st.stats.losing_sells,
            win_rate_pct: win_rate,
            avg_win,
            avg_loss,
            profit_factor: ProfitFactor {
                gross_profit: st.stats.gross_profit,
                gross_loss: st.stats.gross_loss,
            },
            max_drawdown_pct: Ratio(st.max_drawdown * 100),
            pnl: Money(pnl),
            roi_pct: roi,
        },
        rows,
        frecs,
    )
}

/// The grid parameters a configuration induces.
pub open spec fn spec_mtf_grid_params(cfg: MmMtfConfig, min_base_qty: Qty) -> GridParams {
    GridParams {
        levels: cfg.levels,
        step: cfg.step_bps,
        base_quote_per_order: cfg.base_quote_per_order,
        max_size_mult: cfg.max_size_mult,
        soft_min: cfg.soft_min,
        soft_max: cfg.soft_max,
        hard_min: cfg.hard_min,
        hard_max: cfg.hard_max,
        min_base_qty,
    }
}

/// The defensive grid profile: step widened by `max(1, step_mult)`, order
/// size scaled by the size multiplier clamped into `[0.05, 1]`.
pub open spec fn spec_mtf_defensive_params(cfg: MmMtfConfig, min_base_qty: Qty) -> GridParams {
    let eff = if cfg.defensive_step_mult.0 >= SCALE { cfg.defensive_step_mult.0 as int } else {
        SCALE as int
    };
    let clamped = if cfg.defensive_size_mult.0 < SCALE / 20 {
        (SCALE / 20) as int
    } else if cfg.defensive_size_mult.0 > SCALE {
        SCALE as int
    } else {
        cfg.defensive_size_mult.0 as int
    };
    GridParams {
        step: Bps((cfg.step_bps.0 * eff / (SCALE as int)) as i64),
        base_quote_per_order: Money(
            (cfg.base_quote_per_order.0 * clamped / (SCALE as int)) as i64,
        ),
        ..spec_mtf_grid_params(cfg, min_base_qty)
    }
}

/// The policy bands a configuration induces.
pub open spec fn spec_mtf_policy_params(cfg: MmMtfConfig) -> MmPolicyParams {
    MmPolicyParams {
        soft_min: cfg.soft_min,
        soft_max: cfg.soft_max,
        hard_min: cfg.hard_min,
        hard_max: cfg.hard_max,
    }
}

} // verus!
