//! Trend backtest driver: EMA-cross long-only strategy with entry gates,
//! ATR stop, execution costs, and performance metrics.

use vstd::prelude::*;

use crate::bos::BosParams;
use crate::bos::BosState;
use crate::bos::BosTracker;
use crate::bos::bos_wf;
use crate::candle::Candle;
use crate::candle::candle_wf;
use crate::candle::candles_wf;
use crate::atr::spec_atr_val;
use crate::ema::EmaCalc;
use crate::ema::ema_wf;
use crate::exec_sim::ExecutionModel;
use crate::exec_sim::exec_model_wf;
use crate::exec_sim::spec_buy_fill;
use crate::exec_sim::spec_eff_bps;
use crate::feed::CandleFeed;
use crate::feed::feed_wf;
use crate::pullback::PullbackParams;
use crate::pullback::PullbackTracker;
use crate::pullback::pullback_wf;
use crate::report::ProfitFactor;
use crate::report::pf_wf;
use crate::structure::StructureParams;
use crate::structure::detect_structure;
use crate::trend_policy::TrendAction;
use crate::trend_policy::TrendDecisionReason;
use crate::trend_policy::TrendMode;
use crate::trend_policy::TrendPolicyDecision;
use crate::trend_policy::TrendPolicyInput;
use crate::trend_policy::TrendPolicyParams;
use crate::trend_policy::trend_params_wf;
use crate::trend_policy::trend_policy_decision;
use crate::trend_transition::TrendCause;
use crate::trend_transition::TrendState;
use crate::trend_transition::trend_transition;
use crate::types::Bps;
use crate::types::MAX_AMOUNT;
use crate::types::Money;
use crate::types::Price;
use crate::types::Qty;
use crate::types::Ratio;
use crate::types::SCALE;
use crate::types::add_sat;
use crate::types::inc_u64;
use crate::types::mul_div;
use crate::types::mul_div_u64;
use crate::types::mul_div_opt;

verus! {

/// Additional preconditions applied on a trend entry during sweeps.
#[derive(Clone, Copy, Debug, PartialEq, Eq, Structural)]
pub enum EntryGate {
    /// EMA cross alone.
    Trend,
    /// EMA cross and a confirmed break of structure.
    TrendBos,
    /// EMA cross, a confirmed break, and a triggered pullback.
    TrendBosPullback,
}

/// One point of the sweep's Cartesian product.
#[derive(Clone, Copy, Debug, PartialEq, Eq, Structural)]
pub struct SweepConfig {
    pub ema_fast: usize,
    pub ema_slow: usize,
    pub entry_gate: EntryGate,
    pub min_trend_gap_bps: Bps,
    pub cooldown_bars: u64,
    /// Largest tolerated ATR as a percentage of the close (fixed point).
    pub max_atr_pct: Ratio,
}

pub open spec fn sweep_config_wf(c: SweepConfig) -> bool {
    &&& 1 <= c.ema_fast <= 1_000_000
    &&& 1 <= c.ema_slow <= 1_000_000
    &&& -MAX_AMOUNT <= c.min_trend_gap_bps.0 <= MAX_AMOUNT
    &&& -MAX_AMOUNT <= c.max_atr_pct.0 <= MAX_AMOUNT
}

/// Performance summary of one trend backtest.
#[derive(Clone, Copy, Debug, PartialEq, Eq, Structural)]
pub struct BacktestReport {
    pub trades: u64,
    pub closed_trades: u64,
    pub stop_exits: u64,
    pub winning_trades: u64,
    pub win_rate_pct: Ratio,
    pub profit_factor: ProfitFactor,
    pub max_drawdown_pct: Ratio,
    pub pnl: Money,
    pub roi_pct: Ratio,
}

/// Percent ROI of `pnl` on `initial`, signed, saturating at the integer
/// bounds; zero when nothing was invested.
pub open spec fn spec_roi_pct(pnl: int, initial: int) -> int {
    if initial > 0 {
        if pnl >= 0 {
            let m = pnl * (100 * SCALE) / initial;
            if m > i64::MAX {
                i64::MAX as int
            } else {
                m
            }
        } else {
            let m = (-pnl) * (100 * SCALE) / initial;
            if m > i64::MAX {
                -(i64::MAX as int)
            } else {
                -m
            }
        }
    } else {
        0
    }
}

/// Percent ROI (exec): `100 * pnl / initial`, fixed point.
pub fn roi_pct(pnl: Money, initial: Money) -> (r: Ratio)
    requires
        -i64::MAX <= pnl.0,
    ensures
        r.0 == spec_roi_pct(pnl.0 as int, initial.0 as int),
{
    if initial.0 <= 0 {
        return Ratio(0);
    }
    if pnl.0 >= 0 {
        match mul_div_opt(pnl.0, 100 * SCALE, initial.0) {
            Some(v) => Ratio(v),
            None => Ratio(i64::MAX),
        }
    } else {
        match mul_div_opt(0 - pnl.0, 100 * SCALE, initial.0) {
            Some(v) => Ratio(0 - v),
            None => Ratio(0 - i64::MAX),
        }
    }
}

/// The trend mode that corresponds to a machine state.
pub fn trend_mode_from_state(state: TrendState) -> (r: TrendMode)
    ensures
        r == (match state {
            TrendState::Flat => TrendMode::Flat,
            TrendState::Long => TrendMode::Long,
        }),
{
    match state {
        TrendState::Flat => TrendMode::Flat,
        TrendState::Long => TrendMode::Long,
    }
}

/// Clamp at zero (spec).
pub open spec fn spec_max0(v: int) -> int {
    if v < 0 { 0 } else { v }
}

/// The trend gap in bps: `(fast - slow) / close * 10_000`.
pub open spec fn spec_trend_gap_bps(fast: int, slow: int, close: int) -> int {
    if close > 0 {
        (fast - slow) * 10_000 / close
    } else {
        0
    }
}

/// ATR as a percentage of the close (fixed point); saturates above the
/// integer bound.
pub open spec fn spec_atr_pct(atr: int, close: int) -> int {
    if close > 0 {
        let m = atr * (100 * SCALE) / close;
        if m > i64::MAX {
            i64::MAX as int
        } else {
            m
        }
    } else {
        0
    }
}

/// All four sweep entry gates: structure gate per the configured kind, a
/// minimum trend gap, a cooldown since the last exit, and an ATR ceiling.
pub open spec fn spec_entry_gate_ok(
    cfg: SweepConfig,
    bos_state: BosState,
    pullback_triggered: bool,
    close: int,
    atr: int,
    fast: int,
    slow: int,
    bars_since_exit: u64,
) -> bool {
    let bos_ok = match cfg.entry_gate {
        EntryGate::Trend => true,
        EntryGate::TrendBos => bos_state == BosState::Confirmed,
        EntryGate::TrendBosPullback => bos_state == BosState::Confirmed && pullback_triggered,
    };
    let gap_ok = spec_trend_gap_bps(fast, slow, close) >= spec_max0(cfg.min_trend_gap_bps.0 as int);
    let cooldown_ok = bars_since_exit >= cfg.cooldown_bars;
    let atr_ok = spec_atr_pct(atr, close) <= spec_max0(cfg.max_atr_pct.0 as int);
    bos_ok && gap_ok && cooldown_ok && atr_ok
}

/// Evaluate the sweep entry gates on one bar.
pub fn entry_gate_ok(
    cfg: SweepConfig,
    bos_state: BosState,
    pullback_triggered: bool,
    close: Price,
    atr: Price,
    fast: Price,
    slow: Price,
    bars_since_exit: u64,
) -> (r: bool)
    requires
        sweep_config_wf(cfg),
        0 <= close.0 <= MAX_AMOUNT,
        0 <= atr.0 <= MAX_AMOUNT,
        0 <= fast.0 <= MAX_AMOUNT,
        0 <= slow.0 <= MAX_AMOUNT,
        fast.0 >= slow.0,
    ensures
        r == spec_entry_gate_ok(
            cfg,
            bos_state,
            pullback_triggered,
            close.0 as int,
            atr.0 as int,
            fast.0 as int,
            slow.0 as int,
            bars_since_exit,
        ),
{
    let bos_ok = match cfg.entry_gate {
        EntryGate::Trend => true,
        EntryGate::TrendBos => matches!(bos_state, BosState::Confirmed),
        EntryGate::TrendBosPullback => matches!(bos_state, BosState::Confirmed)
            && pullback_triggered,
    };
    let gap_bps: i64 = if close.0 > 0 {
        proof {
            assert((fast.0 - slow.0) * 10_000 / (close.0 as int) <= (fast.0 - slow.0) * 10_000)
                by (nonlinear_arith)
                requires 0 <= fast.0 - slow.0, 0 < close.0;
            assert((fast.0 - slow.0) * 10_000 <= MAX_AMOUNT * 10_000) by (nonlinear_arith)
                requires 0 <= fast.0 - slow.0 <= MAX_AMOUNT;
        }
        mul_div(fast.0 - slow.0, 10_000, close.0)
    } else {
        0
    };
    let min_gap = if cfg.min_trend_gap_bps.0 < 0 { 0 } else { cfg.min_trend_gap_bps.0 };
    let gap_ok = gap_bps >= min_gap;
    let cooldown_ok = bars_since_exit >= cfg.cooldown_bars;
    let atr_pct: i64 = if close.0 > 0 {
        match mul_div_opt(atr.0, 100 * SCALE, close.0) {
            Some(v) => v,
            None => i64::MAX,
        }
    } else {
        0
    };
    let max_atr = if cfg.max_atr_pct.0 < 0 { 0 } else { cfg.max_atr_pct.0 };
    let atr_ok = atr_pct <= max_atr;
    bos_ok && gap_ok && cooldown_ok && atr_ok
}

/// All evolving state of one trend backtest between bars.
#[derive(Clone, Copy, Debug)]
pub struct TrendRunState {
    pub ema_fast: EmaCalc,
    pub ema_slow: EmaCalc,
    pub machine: TrendState,
    pub quote: i64,
    pub base: i64,
    pub entry_price: Option<Price>,
    pub entry_cost_quote: Option<i64>,
    pub bos: BosTracker,
    pub pullback: PullbackTracker,
    pub trades: u64,
    pub stop_exits: u64,
    pub closed_trades: u64,
    pub winning_trades: u64,
    pub gross_profit: i64,
    pub gross_loss: i64,
    pub max_equity: i64,
    pub max_drawdown: i64,
    pub bars_since_exit: u64,
}

/// The fixed tracker parameters the drivers run with.
pub open spec fn driver_bos_params() -> BosParams {
    BosParams { confirm_candles: 2, epsilon_frac: Ratio(100_000) }
}

pub open spec fn driver_pullback_params() -> PullbackParams {
    PullbackParams { epsilon_frac: Ratio(100_000), retrace_frac: Ratio(400_000) }
}

pub open spec fn driver_structure_params() -> StructureParams {
    StructureParams { pivot_k: 1, min_atr_frac: Ratio(100_000) }
}

/// The state a trend backtest starts from.
pub open spec fn spec_trend_init(cfg: SweepConfig, initial_quote: int) -> TrendRunState {
    TrendRunState {
        ema_fast: EmaCalc {
            period: if cfg.ema_fast >= 1 { cfg.ema_fast } else { 1usize },
            value: None,
        },
        ema_slow: EmaCalc {
            period: if cfg.ema_slow >= 1 { cfg.ema_slow } else { 1usize },
            value: None,
        },
        machine: TrendState::Flat,
        quote: initial_quote as i64,
        base: 0,
        entry_price: None,
        entry_cost_quote: None,
        bos: crate::bos::spec_bos_reset(),
        pullback: PullbackTracker { max_price_after_bos: None, triggered: false },
        trades: 0,
        stop_exits: 0,
        closed_trades: 0,
        winning_trades: 0,
        gross_profit: 0,
        gross_loss: 0,
        max_equity: initial_quote as i64,
        max_drawdown: 0,
        bars_since_exit: (u64::MAX / 2) as u64,
    }
}

/// One bar of the trend backtest, as a value: push the candle, update the
/// averages and trackers, decide, trade, and mark to market. Returns the
/// new state and the new feed window.
pub open spec fn spec_trend_bar_step(
    s: TrendRunState,
    fs: Seq<Candle>,
    c: Candle,
    window: int,
    cfg: SweepConfig,
    params: TrendPolicyParams,
    em: ExecutionModel,
) -> (TrendRunState, Seq<Candle>) {
    let bars0 = crate::types::spec_inc_u64(s.bars_since_exit);
    let fs2 = crate::feed::spec_feed_push(fs, window, c);
    let (ef, fast) = crate::ema::spec_ema_update(s.ema_fast, c.close.0);
    let (es, slow) = crate::ema::spec_ema_update(s.ema_slow, c.close.0);
    let s1 = TrendRunState { ema_fast: ef, ema_slow: es, bars_since_exit: bars0, ..s };
    if fs2.len() < 2 {
        (s1, fs2)
    } else {
        let atr = Price(spec_atr_val(fs2) as i64);
        let ms = crate::structure::spec_detect_structure(fs2, driver_structure_params());
        let bos2 = crate::bos::spec_bos_step(s1.bos, c, ms, atr, driver_bos_params());
        let pb2 = if bos2.state == BosState::Confirmed {
            crate::pullback::spec_pullback_step(s1.pullback, c, bos2, atr, driver_pullback_params())
        } else {
            PullbackTracker { max_price_after_bos: None, triggered: false }
        };
        let mode = match s1.machine {
            TrendState::Flat => TrendMode::Flat,
            TrendState::Long => TrendMode::Long,
        };
        let d0 = crate::trend_policy::spec_trend_policy(
            mode,
            TrendPolicyInput {
                close: c.close,
                atr,
                ema_fast: Price(fast as i64),
                ema_slow: Price(slow as i64),
                position_qty: Qty(s1.base),
                entry_price: s1.entry_price,
            },
            params,
        );
        let gate_ok = if fast >= slow {
            spec_entry_gate_ok(
                cfg,
                bos2.state,
                pb2.triggered,
                c.close.0 as int,
                atr.0 as int,
                fast,
                slow,
                bars0,
            )
        } else {
            false
        };
        let d = if d0.action == TrendAction::EnterLong && !gate_ok {
            match mode {
                TrendMode::Flat => TrendPolicyDecision {
                    next_mode: TrendMode::Flat,
                    action: TrendAction::HoldFlat,
                    reason: TrendDecisionReason::NoSignal,
                },
                TrendMode::Long => TrendPolicyDecision {
                    next_mode: TrendMode::Long,
                    action: TrendAction::HoldLong,
                    reason: TrendDecisionReason::NoSignal,
                },
            }
        } else {
            d0
        };
        let s2 = TrendRunState { bos: bos2, pullback: pb2, ..s1 };
        let s3 = spec_trend_act(s2, c, d, em);
        let bv = s3.base * c.close.0 / (SCALE as int);
        let e = s3.quote + bv;
        let max_e = if e > s3.max_equity { e } else { s3.max_equity as int };
        let max_dd = if max_e > 0 {
            let dd = (max_e - e) * SCALE / max_e;
            if dd > s3.max_drawdown {
                dd
            } else {
                s3.max_drawdown as int
            }
        } else {
            s3.max_drawdown as int
        };
        (
            TrendRunState { max_equity: max_e as i64, max_drawdown: max_dd as i64, ..s3 },
            fs2,
        )
    }
}

/// Apply the decided action to the holdings and counters.
pub open spec fn spec_trend_act(
    s: TrendRunState,
    c: Candle,
    d: TrendPolicyDecision,
    em: ExecutionModel,
) -> TrendRunState {
    if d.action == TrendAction::EnterLong {
        let s1 = if s.quote > 0 {
            let qty = crate::exec_sim::spec_buy_qty_for_quote(s.quote as int, c.close.0 as int, em);
            if qty > 0 && qty <= MAX_AMOUNT - s.base {
                let cost = crate::exec_sim::spec_buy_cost(qty, c.close.0 as int, em);
                TrendRunState {
                    quote: (if s.quote >= cost { s.quote - cost } else { 0int }) as i64,
                    base: (s.base + qty) as i64,
                    entry_price: Some(c.close),
                    entry_cost_quote: Some((if cost >= 0 { cost } else { 0int }) as i64),
                    trades: crate::types::spec_inc_u64(s.trades),
                    ..s
                }
            } else {
                s
            }
        } else {
            s
        };
        TrendRunState {
            machine: crate::trend_transition::spec_trend_step_if_legal(
                s1.machine,
                TrendCause::EntrySignal,
            ),
            ..s1
        }
    } else if d.action == TrendAction::ExitLong {
        let s1 = if s.base > 0 {
            let proceeds = crate::exec_sim::spec_sell_proceeds(
                s.base as int,
                c.close.0 as int,
                em,
            );
            let s0 = match s.entry_cost_quote {
                Some(cost) => {
                    let trade_pnl = proceeds - cost;
                    let closed = crate::types::spec_inc_u64(s.closed_trades);
                    if trade_pnl > 0 {
                        TrendRunState {
                            closed_trades: closed,
                            winning_trades: crate::types::spec_inc_u64(s.winning_trades),
                            gross_profit: crate::types::spec_add_sat(
                                s.gross_profit as int,
                                trade_pnl,
                            ) as i64,
                            ..s
                        }
                    } else if trade_pnl < 0 {
                        TrendRunState {
                            closed_trades: closed,
                            gross_loss: crate::types::spec_add_sat(
                                s.gross_loss as int,
                                -trade_pnl,
                            ) as i64,
                            ..s
                        }
                    } else {
                        TrendRunState { closed_trades: closed, ..s }
                    }
                },
                None => s,
            };
            TrendRunState {
                quote: (if proceeds <= MAX_AMOUNT - s.quote {
                    s.quote + proceeds
                } else {
                    MAX_AMOUNT as int
                }) as i64,
                base: 0,
                entry_price: None,
                entry_cost_quote: None,
                bars_since_exit: 0,
                trades: crate::types::spec_inc_u64(s0.trades),
                ..s0
            }
        } else {
            s
        };
        let s2 = if d.reason == TrendDecisionReason::AtrStopHit {
            TrendRunState { stop_exits: crate::types::spec_inc_u64(s1.stop_exits), ..s1 }
        } else {
            s1
        };
        let cause = match d.reason {
            TrendDecisionReason::AtrStopHit => TrendCause::StopLossHit,
            TrendDecisionReason::InvalidLongOnlyInvariant => TrendCause::ForceFlat,
            _ => TrendCause::ExitSignal,
        };
        TrendRunState {
            machine: crate::trend_transition::spec_trend_step_if_legal(s2.machine, cause),
            ..s2
        }
    } else {
        s
    }
}

/// The whole bar loop, folded from the first candle.
pub open spec fn spec_trend_run(
    s0: TrendRunState,
    fs0: Seq<Candle>,
    candles: Seq<Candle>,
    window: int,
    cfg: SweepConfig,
    params: TrendPolicyParams,
    em: ExecutionModel,
) -> (TrendRunState, Seq<Candle>)
    decreases candles.len(),
{
    if candles.len() == 0 {
        (s0, fs0)
    } else {
        let prev = spec_trend_run(s0, fs0, candles.drop_last(), window, cfg, params, em);
        spec_trend_bar_step(prev.0, prev.1, candles.last(), window, cfg, params, em)
    }
}

/// The optional liquidation after the loop: sell the whole position at the
/// final mark.
pub open spec fn spec_trend_close_out(
    s: TrendRunState,
    fs: Seq<Candle>,
    em: ExecutionModel,
    enabled: bool,
) -> TrendRunState {
    if enabled && s.base > 0 {
        let mark = if fs.len() > 0 { fs.last().close } else { Price(0) };
        let proceeds = crate::exec_sim::spec_sell_proceeds(s.base as int, mark.0 as int, em);
        let s0 = match s.entry_cost_quote {
            Some(cost) => {
                let trade_pnl = proceeds - cost;
                let closed = crate::types::spec_inc_u64(s.closed_trades);
                if trade_pnl > 0 {
                    TrendRunState {
                        closed_trades: closed,
                        winning_trades: crate::types::spec_inc_u64(s.winning_trades),
                        gross_profit: crate::types::spec_add_sat(
                            s.gross_profit as int,
                            trade_pnl,
                        ) as i64,
                        ..s
                    }
                } else if trade_pnl < 0 {
                    TrendRunState {
                        closed_trades: closed,
                        gross_loss: crate::types::spec_add_sat(s.gross_loss as int, -trade_pnl)
                            as i64,
                        ..s
                    }
                } else {
                    TrendRunState { closed_trades: closed, ..s }
                }
            },
            None => s,
        };
        TrendRunState {
            quote: (if proceeds <= MAX_AMOUNT - s.quote {
                s.quote + proceeds
            } else {
                MAX_AMOUNT as int
            }) as i64,
            base: 0,
            trades: crate::types::spec_inc_u64(s0.trades),
            ..s0
        }
    } else {
        s
    }
}

/// The report read off the final state.
pub open spec fn spec_trend_report(
    s: TrendRunState,
    fs: Seq<Candle>,
    initial_quote: int,
) -> BacktestReport {
    let mark = if fs.len() > 0 { fs.last().close.0 as int } else { 0int };
    let final_equity = s.quote + s.base * mark / (SCALE as int);
    let pnl = final_equity - initial_quote;
    let win_rate = if s.closed_trades > 0 {
        (s.winning_trades as int) * (100 * SCALE) / (s.closed_trades as int)
    } else {
        0int
    };
    BacktestReport {
        trades: s.trades,
        closed_trades: s.closed_trades,
        stop_exits: s.stop_exits,
        winning_trades: s.winning_trades,
        win_rate_pct: Ratio(win_rate as i64),
        profit_factor: ProfitFactor {
            gross_profit: Money(s.gross_profit),
            gross_loss: Money(s.gross_loss),
        },
        max_drawdown_pct: Ratio((s.max_drawdown * 100) as i64),
        pnl: Money(pnl as i64),
        roi_pct: Ratio(spec_roi_pct(pnl, initial_quote) as i64),
    }
}

/// The well-formedness the loop maintains.
pub open spec fn trend_state_wf(s: TrendRunState) -> bool {
    &&& crate::ema::ema_wf(s.ema_fast)
    &&& crate::ema::ema_wf(s.ema_slow)
    &&& crate::bos::bos_wf(s.bos)
    &&& crate::pullback::pullback_wf(s.pullback)
    &&& 0 <= s.quote <= MAX_AMOUNT
    &&& 0 <= s.base <= MAX_AMOUNT
    &&& (s.entry_price matches Some(p) ==> 0 <= p.0 <= MAX_AMOUNT)
    &&& (s.entry_cost_quote matches Some(c) ==> 0 <= c)
    &&& s.winning_trades <= s.closed_trades
    &&& 0 <= s.gross_profit
    &&& 0 <= s.gross_loss
    &&& 0 <= s.max_equity <= i64::MAX - MAX_AMOUNT
    &&& 0 <= s.max_drawdown <= SCALE
}

/// Run the trend strategy over the candle series and report its
/// performance. Spot long-only: the base held never goes negative and an
/// entry never spends more quote than is on hand.
///
/// The report equals the fold of the per-bar step over the candles,
/// followed by the optional close-out: the backtest is a pure function of
/// its arguments. The report is also internally consistent: the win rate is
/// exactly `100 * winning / closed`, the ROI exactly `100 * pnl / initial`,
/// the drawdown within `[0, 100]` percent.
#[verifier::rlimit(100)]
pub fn run_backtest(
    candles: &Vec<Candle>,
    cfg: SweepConfig,
    atr_stop_mult: Ratio,
    exec_model: ExecutionModel,
    initial_quote: Money,
    force_close_at_end: bool,
) -> (r: BacktestReport)
    requires
        candles_wf(candles@),
        sweep_config_wf(cfg),
        trend_params_wf(TrendPolicyParams { atr_stop_mult }),
        exec_model_wf(exec_model),
        0 <= initial_quote.0 <= MAX_AMOUNT,
    ensures
        ({
            let params = TrendPolicyParams { atr_stop_mult };
            let window = (if cfg.ema_slow >= 1 { cfg.ema_slow } else { 1 }) * 5;
            let run = spec_trend_run(
                spec_trend_init(cfg, initial_quote.0 as int),
                Seq::empty(),
                candles@,
                window as int,
                cfg,
                params,
                exec_model,
            );
            let closed = spec_trend_close_out(run.0, run.1, exec_model, force_close_at_end);
            r == spec_trend_report(closed, run.1, initial_quote.0 as int)
        }),
        r.winning_trades <= r.closed_trades,
        r.win_rate_pct.0 == (if r.closed_trades > 0 {
            (r.winning_trades as int) * (100 * SCALE) / (r.closed_trades as int)
        } else {
            0int
        }),
        0 <= r.win_rate_pct.0 <= 100 * SCALE,
        pf_wf(r.profit_factor),
        0 <= r.max_drawdown_pct.0 <= 100 * SCALE,
        r.roi_pct.0 == spec_roi_pct(r.pnl.0 as int, initial_quote.0 as int),
{
    let window = cfg.ema_slow * 5;
    let mut feed = CandleFeed::new(window);
    let params = TrendPolicyParams { atr_stop_mult };
    let bos_params = BosParams { confirm_candles: 2, epsilon_frac: Ratio(100_000) };
    let pullback_params = PullbackParams {
        epsilon_frac: Ratio(100_000),
        retrace_frac: Ratio(400_000),
    };
    let structure_params = StructureParams { pivot_k: 1, min_atr_frac: Ratio(100_000) };

    let mut st = TrendRunState {
        ema_fast: EmaCalc::new(cfg.ema_fast),
        ema_slow: EmaCalc::new(cfg.ema_slow),
        machine: TrendState::Flat,
        quote: initial_quote.0,
        base: 0,
        entry_price: None,
        entry_cost_quote: None,
        bos: BosTracker::new(),
        pullback: PullbackTracker::new(),
        trades: 0,
        stop_exits: 0,
        closed_trades: 0,
        winning_trades: 0,
        gross_profit: 0,
        gross_loss: 0,
        max_equity: initial_quote.0,
        max_drawdown: 0,
        bars_since_exit: u64::MAX / 2,
    };
    proof {
        assert(st == spec_trend_init(cfg, initial_quote.0 as int));
        assert(candles@.subrange(0, 0) =~= Seq::<Candle>::empty());
    }

    let ghost init = spec_trend_init(cfg, initial_quote.0 as int);
    let mut i: usize = 0;
    while i < candles.len()
        invariant
            0 <= i <= candles@.len(),
            candles_wf(candles@),
            sweep_config_wf(cfg),
            trend_params_wf(params),
            params == (TrendPolicyParams { atr_stop_mult }),
            exec_model_wf(exec_model),
            0 <= initial_quote.0 <= MAX_AMOUNT,
            window == (if cfg.ema_slow >= 1 { cfg.ema_slow } else { 1 }) * 5,
            feed.window == window,
            feed_wf(feed),
            bos_params == driver_bos_params(),
            pullback_params == driver_pullback_params(),
            structure_params == driver_structure_params(),
            init == spec_trend_init(cfg, initial_quote.0 as int),
            trend_state_wf(st),
            (st, feed.candles@) == spec_trend_run(
                init,
                Seq::<Candle>::empty(),
                candles@.subrange(0, i as int),
                window as int,
                cfg,
                params,
                exec_model,
            ),
        decreases candles@.len() - i,
    {
        let ghost pre = (st, feed.candles@);
        let c = candles[i];
        proof {
            assert(candle_wf(candles@[i as int]));
            assert(crate::candle::candle_ts_ok(candles@[i as int]));
        }
        st.bars_since_exit = inc_u64(st.bars_since_exit);
        feed.push(c);
        let fast = st.ema_fast.update(c.close.0);
        let slow = st.ema_slow.update(c.close.0);
        let ghost fs2 = feed.candles@;
        let ghost s1x = st;
        proof {
            assert(fs2 == crate::feed::spec_feed_push(pre.1, window as int, c));
            assert(s1x == (TrendRunState {
                ema_fast: crate::ema::spec_ema_update(pre.0.ema_fast, c.close.0).0,
                ema_slow: crate::ema::spec_ema_update(pre.0.ema_slow, c.close.0).0,
                bars_since_exit: crate::types::spec_inc_u64(pre.0.bars_since_exit),
                ..pre.0
            }));
            assert(fast as int == crate::ema::spec_ema_update(pre.0.ema_fast, c.close.0).1);
            assert(slow as int == crate::ema::spec_ema_update(pre.0.ema_slow, c.close.0).1);
        }

        let atr_opt = feed.atr();
        match atr_opt {
            Some(atr) => {
                proof {
                    assert(atr == Price(spec_atr_val(fs2) as i64));
                }
                let ms = detect_structure(&feed.candles, structure_params);
                st.bos.on_candle_close(&c, &ms, atr, bos_params);
                if matches!(st.bos.state, BosState::Confirmed) {
                    st.pullback.on_candle_close(&c, &st.bos, atr, pullback_params);
                } else {
                    st.pullback.reset();
                }
                let ghost s2x = st;
                proof {
                    assert(ms == crate::structure::spec_detect_structure(
                        fs2,
                        driver_structure_params(),
                    ));
                    assert(s2x.bos == crate::bos::spec_bos_step(
                        s1x.bos,
                        c,
                        ms,
                        atr,
                        driver_bos_params(),
                    ));
                    assert(s2x == (TrendRunState {
                        bos: s2x.bos,
                        pullback: s2x.pullback,
                        ..s1x
                    }));
                }

                let mode = trend_mode_from_state(st.machine);
                let mut decision = trend_policy_decision(
                    mode,
                    TrendPolicyInput {
                        close: c.close,
                        atr,
                        ema_fast: Price(fast),
                        ema_slow: Price(slow),
                        position_qty: Qty(st.base),
                        entry_price: st.entry_price,
                    },
                    params,
                );

                if matches!(decision.action, TrendAction::EnterLong) {
                    // the policy only enters on an up-cross, so fast >= slow
                    let gate_ok = if fast >= slow {
                        entry_gate_ok(
                            cfg,
                            st.bos.state,
                            st.pullback.triggered,
                            c.close,
                            atr,
                            Price(fast),
                            Price(slow),
                            st.bars_since_exit,
                        )
                    } else {
                        false
                    };
                    if !gate_ok {
                        decision = match mode {
                            TrendMode::Flat => TrendPolicyDecision {
                                next_mode: TrendMode::Flat,
                                action: TrendAction::HoldFlat,
                                reason: TrendDecisionReason::NoSignal,
                            },
                            TrendMode::Long => TrendPolicyDecision {
                                next_mode: TrendMode::Long,
                                action: TrendAction::HoldLong,
                                reason: TrendDecisionReason::NoSignal,
                            },
                        };
                    }
                }

                match decision.action {
                    TrendAction::EnterLong => {
                        if st.quote > 0 {
                            let qty = exec_model.buy_qty_for_quote(Money(st.quote), c.close);
                            if qty.0 > 0 && qty.0 <= MAX_AMOUNT - st.base {
                                proof {
                                    let fill = spec_buy_fill(c.close.0 as int, exec_model);
                                    let fe = spec_eff_bps(exec_model.fee_bps.0 as int);
                                    assert(qty.0 * fill * 10_000 <= qty.0 * fill * (10_000 + fe))
                                        by (nonlinear_arith)
                                        requires 0 <= qty.0 * fill, 0 <= fe;
                                    assert(qty.0 * fill * (10_000 + fe) <= st.quote * (10_000
                                        * SCALE));
                                    assert(qty.0 * fill <= st.quote * SCALE) by (nonlinear_arith)
                                        requires qty.0 * fill * 10_000 <= st.quote * (10_000
                                            * SCALE), 0 <= qty.0 * fill;
                                    assert(st.quote * SCALE <= MAX_AMOUNT * SCALE)
                                        by (nonlinear_arith)
                                        requires 0 <= st.quote <= MAX_AMOUNT;
                                    assert(0 <= qty.0 * fill) by (nonlinear_arith)
                                        requires 0 <= qty.0, 0 <= fill;
                                }
                                let cost = exec_model.buy_cost(qty, c.close);
                                st.quote = if st.quote >= cost.0 { st.quote - cost.0 } else { 0 };
                                st.base = st.base + qty.0;
                                st.entry_price = Some(c.close);
                                st.entry_cost_quote = Some(if cost.0 >= 0 { cost.0 } else { 0 });
                                st.trades = inc_u64(st.trades);
                            }
                        }
                        match trend_transition(st.machine, TrendCause::EntrySignal) {
                            Ok(next) => {
                                st.machine = next;
                            }
                            Err(_) => {}
                        }
                    }
                    TrendAction::ExitLong => {
                        if st.base > 0 {
                            let proceeds = exec_model.sell_proceeds(Qty(st.base), c.close);
                            match st.entry_cost_quote {
                                Some(cost) => {
                                    let trade_pnl = proceeds.0 - cost;
                                    st.closed_trades = inc_u64(st.closed_trades);
                                    if trade_pnl > 0 {
                                        st.winning_trades = inc_u64(st.winning_trades);
                                        st.gross_profit = add_sat(st.gross_profit, trade_pnl);
                                    } else if trade_pnl < 0 {
                                        st.gross_loss = add_sat(st.gross_loss, 0 - trade_pnl);
                                    }
                                }
                                None => {}
                            }
                            st.quote = if proceeds.0 <= MAX_AMOUNT - st.quote {
                                st.quote + proceeds.0
                            } else {
                                MAX_AMOUNT
                            };
                            st.base = 0;
                            st.entry_price = None;
                            st.entry_cost_quote = None;
                            st.bars_since_exit = 0;
                            st.trades = inc_u64(st.trades);
                        }
                        let cause = match decision.reason {
                            TrendDecisionReason::AtrStopHit => {
                                st.stop_exits = inc_u64(st.stop_exits);
                                TrendCause::StopLossHit
                            }
                            TrendDecisionReason::InvalidLongOnlyInvariant => TrendCause::ForceFlat,
                            _ => TrendCause::ExitSignal,
                        };
                        match trend_transition(st.machine, cause) {
                            Ok(next) => {
                                st.machine = next;
                            }
                            Err(_) => {}
                        }
                    }
                    TrendAction::HoldFlat => {}
                    TrendAction::HoldLong => {}
                }
                let ghost s3x = st;
                proof {
                    assert(s3x == spec_trend_act(s2x, c, decision, exec_model));
                }

                proof {
                    crate::types::lemma_amount_product_bounded(st.base as int, c.close.0 as int);
                }
                let bv = mul_div(st.base, c.close.0, SCALE);
                let equity_now = st.quote + bv;
                if equity_now > st.max_equity {
                    st.max_equity = equity_now;
                }
                if st.max_equity > 0 {
                    proof {
                        assert((st.max_equity - equity_now) * SCALE / (st.max_equity as int)
                            <= st.max_equity * SCALE / (st.max_equity as int))
                            by (nonlinear_arith)
                            requires 0 <= st.max_equity - equity_now <= st.max_equity,
                                0 < st.max_equity, 0 < SCALE;
                        assert(st.max_equity * SCALE / (st.max_equity as int) == SCALE)
                            by (nonlinear_arith)
                            requires 0 < st.max_equity;
                    }
                    let dd = mul_div(st.max_equity - equity_now, SCALE, st.max_equity);
                    if dd > st.max_drawdown {
                        st.max_drawdown = dd;
                    }
                }
                proof {
                    assert(st == (TrendRunState {
                        max_equity: st.max_equity,
                        max_drawdown: st.max_drawdown,
                        ..s3x
                    }));
                    assert((st, feed.candles@) == spec_trend_bar_step(
                        pre.0,
                        pre.1,
                        c,
                        window as int,
                        cfg,
                        params,
                        exec_model,
                    ));
                }
            }
            None => {
                proof {
                    assert(fs2.len() < 2);
                    assert((st, feed.candles@) == spec_trend_bar_step(
                        pre.0,
                        pre.1,
                        c,
                        window as int,
                        cfg,
                        params,
                        exec_model,
                    ));
                }
            }
        }
        proof {
            let post = candles@.subrange(0, i + 1int);
            assert(post.drop_last() =~= candles@.subrange(0, i as int));
            assert(post.last() == candles@[i as int]);
        }
        i = i + 1;
    }
    proof {
        assert(candles@.subrange(0, candles@.len() as int) =~= candles@);
    }

    if force_close_at_end && st.base > 0 {
        let final_mark = match feed.mid() {
            Some(m) => m,
            None => Price(0),
        };
        proof {
            if feed.candles@.len() > 0 {
                assert(candle_wf(feed.candles@[feed.candles@.len() - 1]));
            }
        }
        let proceeds = exec_model.sell_proceeds(Qty(st.base), final_mark);
        match st.entry_cost_quote {
            Some(cost) => {
                let trade_pnl = proceeds.0 - cost;
                st.closed_trades = inc_u64(st.closed_trades);
                if trade_pnl > 0 {
                    st.winning_trades = inc_u64(st.winning_trades);
                    st.gross_profit = add_sat(st.gross_profit, trade_pnl);
                } else if trade_pnl < 0 {
                    st.gross_loss = add_sat(st.gross_loss, 0 - trade_pnl);
                }
            }
            None => {}
        }
        st.quote = if proceeds.0 <= MAX_AMOUNT - st.quote {
            st.quote + proceeds.0
        } else {
            MAX_AMOUNT
        };
        st.base = 0;
        st.trades = inc_u64(st.trades);
        let _ = trend_transition(st.machine, TrendCause::ForceFlat);
    }

    let final_mark = match feed.mid() {
        Some(m) => m,
        None => Price(0),
    };
    proof {
        if feed.candles@.len() > 0 {
            assert(candle_wf(feed.candles@[feed.candles@.len() - 1]));
        }
        crate::types::lemma_amount_product_bounded(st.base as int, final_mark.0 as int);
    }
    let final_equity = st.quote + mul_div(st.base, final_mark.0, SCALE);
    let pnl = final_equity - initial_quote.0;
    let roi = roi_pct(Money(pnl), initial_quote);

    let win_rate: i64 = if st.closed_trades > 0 {
        proof {
            assert((st.winning_trades as int) * (100 * SCALE) / (st.closed_trades as int)
                <= (st.closed_trades as int) * (100 * SCALE) / (st.closed_trades as int))
                by (nonlinear_arith)
                requires 0 <= st.winning_trades <= st.closed_trades, 0 < st.closed_trades;
            assert((st.closed_trades as int) * (100 * SCALE) / (st.closed_trades as int) == 100
                * SCALE) by (nonlinear_arith)
                requires 0 < st.closed_trades;
            assert(0 <= (st.winning_trades as int) * (100 * SCALE) / (st.closed_trades as int))
                by (nonlinear_arith)
                requires 0 <= st.winning_trades, 0 < st.closed_trades;
        }
        mul_div_u64(st.winning_trades, 100 * SCALE, st.closed_trades)
    } else {
        0
    };

    BacktestReport {
        trades: st.trades,
        closed_trades: st.closed_trades,
        stop_exits: st.stop_exits,
        winning_trades: st.winning_trades,
        win_rate_pct: Ratio(win_rate),
        profit_factor: ProfitFactor {
            gross_profit: Money(st.gross_profit),
            gross_loss: Money(st.gross_loss),
        },
        max_drawdown_pct: Ratio(st.max_drawdown * 100),
        pnl: Money(pnl),
        roi_pct: roi,
    }
}

/// Well-formedness shorthands for the fixed driver parameters.
pub open spec fn bos_params_ok(p: BosParams) -> bool {
    crate::bos::bos_params_wf(p)
}

pub open spec fn pullback_params_ok(p: PullbackParams) -> bool {
    crate::pullback::pullback_params_wf(p)
}

pub open spec fn structure_params_ok(p: StructureParams) -> bool {
    crate::structure::structure_params_wf(p)
}

} // verus!
