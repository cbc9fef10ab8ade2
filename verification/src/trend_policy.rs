//! Trend policy: long-only EMA-cross decisions with an ATR stop.

use vstd::prelude::*;

use crate::types::MAX_AMOUNT;
use crate::types::Price;
use crate::types::Qty;
use crate::types::Ratio;
use crate::types::SCALE;
use crate::types::amount_ok;
use crate::types::mul_div;

verus! {

/// Position mode of the strategy.
#[derive(Clone, Copy, Debug, PartialEq, Eq, Structural)]
pub enum TrendMode {
    Flat,
    Long,
}

/// Action to take on the current bar.
#[derive(Clone, Copy, Debug, PartialEq, Eq, Structural)]
pub enum TrendAction {
    HoldFlat,
    EnterLong,
    HoldLong,
    ExitLong,
}

/// Why the action was chosen.
#[derive(Clone, Copy, Debug, PartialEq, Eq, Structural)]
pub enum TrendDecisionReason {
    TrendUpEntry,
    TrendDown,
    AtrStopHit,
    NoSignal,
    InvalidLongOnlyInvariant,
    MissingEntryPrice,
}

/// Parameters: the stop sits at `entry - atr_stop_mult * ATR`.
#[derive(Clone, Copy, Debug, PartialEq, Eq, Structural)]
pub struct TrendPolicyParams {
    pub atr_stop_mult: Ratio,
}

pub open spec fn trend_params_wf(p: TrendPolicyParams) -> bool {
    p.atr_stop_mult.0 <= 1_000 * SCALE
}

/// Everything the decision looks at on one bar.
#[derive(Clone, Copy, Debug, PartialEq, Eq)]
pub struct TrendPolicyInput {
    pub close: Price,
    pub atr: Price,
    pub ema_fast: Price,
    pub ema_slow: Price,
    pub position_qty: Qty,
    pub entry_price: Option<Price>,
}

pub open spec fn trend_input_wf(i: TrendPolicyInput) -> bool {
    &&& amount_ok(i.close.0)
    &&& amount_ok(i.atr.0)
    &&& amount_ok(i.ema_fast.0)
    &&& amount_ok(i.ema_slow.0)
    &&& amount_ok(i.position_qty.0)
    &&& (i.entry_price matches Some(e) ==> amount_ok(e.0))
}

/// The decision: next mode, action, reason.
#[derive(Clone, Copy, Debug, PartialEq, Eq, Structural)]
pub struct TrendPolicyDecision {
    pub next_mode: TrendMode,
    pub action: TrendAction,
    pub reason: TrendDecisionReason,
}

/// Clamp at zero.
pub open spec fn spec_max0(v: int) -> int {
    if v < 0 { 0 } else { v }
}

/// The stop level: `entry - max(0, mult) * max(0, atr)`.
pub open spec fn spec_stop_level(entry: int, atr: int, p: TrendPolicyParams) -> int {
    entry - spec_max0(p.atr_stop_mult.0 as int) * spec_max0(atr) / (SCALE as int)
}

/// The decision table, evaluated in order. A negative position is rejected
/// outright; from `Flat` an open position normalizes to `Long`; from `Long`
/// a missing entry price, a down-cross, or a close at or under the stop all
/// exit.
pub open spec fn spec_trend_policy(
    mode: TrendMode,
    input: TrendPolicyInput,
    p: TrendPolicyParams,
) -> TrendPolicyDecision {
    if input.position_qty.0 < 0 {
        TrendPolicyDecision {
            next_mode: TrendMode::Flat,
            action: TrendAction::ExitLong,
            reason: TrendDecisionReason::InvalidLongOnlyInvariant,
        }
    } else {
        let trend_up = input.ema_fast.0 > input.ema_slow.0;
        let trend_down = input.ema_fast.0 < input.ema_slow.0;
        match mode {
            TrendMode::Flat => if input.position_qty.0 > 0 {
                TrendPolicyDecision {
                    next_mode: TrendMode::Long,
                    action: TrendAction::HoldLong,
                    reason: TrendDecisionReason::NoSignal,
                }
            } else if trend_up {
                TrendPolicyDecision {
                    next_mode: TrendMode::Long,
                    action: TrendAction::EnterLong,
                    reason: TrendDecisionReason::TrendUpEntry,
                }
            } else {
                TrendPolicyDecision {
                    next_mode: TrendMode::Flat,
                    action: TrendAction::HoldFlat,
                    reason: TrendDecisionReason::NoSignal,
                }
            },
            TrendMode::Long => if input.position_qty.0 == 0 {
                TrendPolicyDecision {
                    next_mode: TrendMode::Flat,
                    action: TrendAction::HoldFlat,
                    reason: TrendDecisionReason::NoSignal,
                }
            } else {
                match input.entry_price {
                    None => TrendPolicyDecision {
                        next_mode: TrendMode::Flat,
                        action: TrendAction::ExitLong,
                        reason: TrendDecisionReason::MissingEntryPrice,
                    },
                    Some(entry) => if trend_down {
                        TrendPolicyDecision {
                            next_mode: TrendMode::Flat,
                            action: TrendAction::ExitLong,
                            reason: TrendDecisionReason::TrendDown,
                        }
                    } else if input.close.0
                        <= spec_stop_level(entry.0 as int, input.atr.0 as int, p) {
                        TrendPolicyDecision {
                            next_mode: TrendMode::Flat,
                            action: TrendAction::ExitLong,
                            reason: TrendDecisionReason::AtrStopHit,
                        }
                    } else {
                        TrendPolicyDecision {
                            next_mode: TrendMode::Long,
                            action: TrendAction::HoldLong,
                            reason: TrendDecisionReason::NoSignal,
                        }
                    },
                }
            },
        }
    }
}

/// Decide the action for one bar.
pub fn trend_policy_decision(
    mode: TrendMode,
    input: TrendPolicyInput,
    params: TrendPolicyParams,
) -> (r: TrendPolicyDecision)
    requires
        trend_input_wf(input),
        trend_params_wf(params),
    ensures
        r == spec_trend_policy(mode, input, params),
{
    if input.position_qty.0 < 0 {
        return TrendPolicyDecision {
            next_mode: TrendMode::Flat,
            action: TrendAction::ExitLong,
            reason: TrendDecisionReason::InvalidLongOnlyInvariant,
        };
    }
    let trend_up = input.ema_fast.0 > input.ema_slow.0;
    let trend_down = input.ema_fast.0 < input.ema_slow.0;
    match mode {
        TrendMode::Flat => {
            if input.position_qty.0 > 0 {
                // safety: flat mode with an open position normalizes to long
                return TrendPolicyDecision {
                    next_mode: TrendMode::Long,
                    action: TrendAction::HoldLong,
                    reason: TrendDecisionReason::NoSignal,
                };
            }
            if trend_up {
                return TrendPolicyDecision {
                    next_mode: TrendMode::Long,
                    action: TrendAction::EnterLong,
                    reason: TrendDecisionReason::TrendUpEntry,
                };
            }
            TrendPolicyDecision {
                next_mode: TrendMode::Flat,
                action: TrendAction::HoldFlat,
                reason: TrendDecisionReason::NoSignal,
            }
        }
        TrendMode::Long => {
            if input.position_qty.0 == 0 {
                return TrendPolicyDecision {
                    next_mode: TrendMode::Flat,
                    action: TrendAction::HoldFlat,
                    reason: TrendDecisionReason::NoSignal,
                };
            }
            let entry = match input.entry_price {
                Some(e) => e,
                None => {
                    return TrendPolicyDecision {
                        next_mode: TrendMode::Flat,
                        action: TrendAction::ExitLong,
                        reason: TrendDecisionReason::MissingEntryPrice,
                    };
                }
            };
            if trend_down {
                return TrendPolicyDecision {
                    next_mode: TrendMode::Flat,
                    action: TrendAction::ExitLong,
                    reason: TrendDecisionReason::TrendDown,
                };
            }
            let eff_mult = if params.atr_stop_mult.0 < 0 { 0 } else { params.atr_stop_mult.0 };
            let eff_atr = if input.atr.0 < 0 { 0 } else { input.atr.0 };
            proof {
                assert(eff_mult * eff_atr / (SCALE as int) <= (1_000 * SCALE) * MAX_AMOUNT
                    / (SCALE as int)) by (nonlinear_arith)
                    requires 0 <= eff_mult <= 1_000 * SCALE, 0 <= eff_atr <= MAX_AMOUNT;
            }
            let stop_offset = mul_div(eff_mult, eff_atr, SCALE);
            let stop = entry.0 - stop_offset;
            if input.close.0 <= stop {
                return TrendPolicyDecision {
                    next_mode: TrendMode::Flat,
                    action: TrendAction::ExitLong,
                    reason: TrendDecisionReason::AtrStopHit,
                };
            }
            TrendPolicyDecision {
                next_mode: TrendMode::Long,
                action: TrendAction::HoldLong,
                reason: TrendDecisionReason::NoSignal,
            }
        }
    }
}

} // verus!
