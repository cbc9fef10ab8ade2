//! One engine "thinking" tick: policy decision, state-machine causes, and
//! the desired grid, reported as events.

use vstd::prelude::*;

use crate::bos::BosParams;
use crate::bos::BosTracker;
use crate::bos::bos_params_wf;
use crate::bos::bos_wf;
use crate::grid::GridParams;
use crate::grid::Inventory;
use crate::grid::base_ratio;
use crate::grid::build_grid;
use crate::grid::grid_params_wf;
use crate::grid::spec_base_ratio_val;
use crate::grid::spec_equity;
use crate::mm_policy::MmDecisionReason;
use crate::mm_policy::MmMode;
use crate::mm_policy::MmPolicyDecision;
use crate::mm_policy::MmPolicyParams;
use crate::mm_policy::mm_policy_decision;
use crate::mm_policy::mm_policy_params_wf;
use crate::mm_policy::spec_mm_policy;
use crate::pullback::PullbackParams;
use crate::pullback::PullbackTracker;
use crate::pullback::pullback_params_wf;
use crate::pullback::pullback_wf;
use crate::transition::BotState;
use crate::transition::TransitionCause;
use crate::transition::spec_transition;
use crate::transition::transition;
use crate::types::MAX_AMOUNT;
use crate::types::Price;

verus! {

/// Engine runtime context that lives between ticks.
pub struct EngineCtx {
    pub state: BotState,
    pub bos: BosTracker,
    pub pullback: PullbackTracker,
    pub mm_policy: MmPolicyParams,
    pub grid: GridParams,
    pub bos_params: BosParams,
    pub pullback_params: PullbackParams,
}

pub open spec fn engine_ctx_wf(ctx: EngineCtx) -> bool {
    &&& bos_wf(ctx.bos)
    &&& pullback_wf(ctx.pullback)
    &&& mm_policy_params_wf(ctx.mm_policy)
    &&& grid_params_wf(ctx.grid)
    &&& bos_params_wf(ctx.bos_params)
    &&& pullback_params_wf(ctx.pullback_params)
}

impl EngineCtx {
    /// A fresh context with reset trackers.
    pub fn new(
        state: BotState,
        mm_policy: MmPolicyParams,
        grid: GridParams,
        bos_params: BosParams,
        pullback_params: PullbackParams,
    ) -> (r: Self)
        requires
            mm_policy_params_wf(mm_policy),
            grid_params_wf(grid),
            bos_params_wf(bos_params),
            pullback_params_wf(pullback_params),
        ensures
            r.state == state,
            r.bos == crate::bos::spec_bos_reset(),
            !r.pullback.triggered,
            r.pullback.max_price_after_bos is None,
            r.mm_policy == mm_policy,
            r.grid == grid,
            r.bos_params == bos_params,
            r.pullback_params == pullback_params,
            engine_ctx_wf(r),
    {
        EngineCtx {
            state,
            bos: BosTracker::new(),
            pullback: PullbackTracker::new(),
            mm_policy,
            grid,
            bos_params,
            pullback_params,
        }
    }
}

/// Data a tick reasons over.
#[derive(Clone, Copy, Debug)]
pub struct TickInput {
    pub mid: Price,
    pub atr: Price,
    pub inv: Inventory,
    pub ltf_broken_down: bool,
    pub ltf_recovered: bool,
}

pub open spec fn tick_input_wf(i: TickInput) -> bool {
    &&& 0 <= i.inv.base.0 <= MAX_AMOUNT
    &&& 0 <= i.inv.quote.0 <= MAX_AMOUNT
    &&& 0 <= i.mid.0 <= MAX_AMOUNT
}

/// What one tick observed and decided.
#[derive(Clone, Debug)]
pub enum EngineEvent {
    Transition { from: BotState, cause: TransitionCause, to: BotState },
    PolicyDecision { mode: MmMode, reason: MmDecisionReason },
    GridPlanned { orders: usize },
    Log(String),
}

/// Apply a cause when the table allows it; otherwise stay.
pub open spec fn spec_step_if_legal(s: BotState, c: TransitionCause) -> BotState {
    match spec_transition(s, c) {
        Some(n) => n,
        None => s,
    }
}

/// The machine state after one tick: a triggered pullback, the two LTF
/// signals, and a policy shutdown while market-making each push the machine
/// along, in that order.
pub open spec fn spec_tick_state(
    s0: BotState,
    decision: MmPolicyDecision,
    triggered: bool,
    broken: bool,
    recovered: bool,
) -> BotState {
    let s1 = if triggered {
        spec_step_if_legal(s0, TransitionCause::PullbackDetected)
    } else {
        s0
    };
    let s2 = if broken {
        spec_step_if_legal(s1, TransitionCause::LtfBosDown)
    } else {
        s1
    };
    let s3 = if recovered {
        spec_step_if_legal(s2, TransitionCause::LtfStructureRecovered)
    } else {
        s2
    };
    if (s3 == BotState::MMNormal || s3 == BotState::MMDefensive) && decision.mode
        == MmMode::Disabled {
        spec_step_if_legal(s3, TransitionCause::HtfBosDown)
    } else {
        s3
    }
}

/// One tick of thinking: decide the policy, feed the state machine, and
/// plan the grid when market-making is allowed. Only the machine state of
/// the context changes; the first event is the policy decision (or a log
/// line when the inventory ratio is unavailable).
pub fn tick(ctx: &mut EngineCtx, input: TickInput) -> (events: Vec<EngineEvent>)
    requires
        engine_ctx_wf(*old(ctx)),
        tick_input_wf(input),
    ensures
        engine_ctx_wf(*final(ctx)),
        final(ctx).bos == old(ctx).bos,
        final(ctx).pullback == old(ctx).pullback,
        final(ctx).mm_policy == old(ctx).mm_policy,
        final(ctx).grid == old(ctx).grid,
        events@.len() >= 1,
        spec_equity(input.inv, input.mid.0 as int) <= 0 ==> final(ctx).state == old(ctx).state
            && (events@[0] matches EngineEvent::Log(m) && m@ == "base_ratio unavailable"@),
        spec_equity(input.inv, input.mid.0 as int) > 0 ==> {
            let decision = spec_mm_policy(
                old(ctx).bos.state,
                old(ctx).pullback.triggered,
                spec_base_ratio_val(input.inv, input.mid.0 as int),
                old(ctx).mm_policy,
            );
            &&& final(ctx).state == spec_tick_state(
                old(ctx).state,
                decision,
                old(ctx).pullback.triggered,
                input.ltf_broken_down,
                input.ltf_recovered,
            )
            &&& (events@[0] matches EngineEvent::PolicyDecision { mode, reason } && mode
                == decision.mode && reason == decision.reason)
        },
{
    let mut events: Vec<EngineEvent> = Vec::new();

    let r = match base_ratio(input.inv, input.mid) {
        Some(x) => x,
        None => {
            events.push(EngineEvent::Log("base_ratio unavailable".to_owned()));
            return events;
        }
    };

    let decision = mm_policy_decision(ctx.bos.state, &ctx.pullback, r, ctx.mm_policy);
    events.push(EngineEvent::PolicyDecision { mode: decision.mode, reason: decision.reason });

    // pullback allows the rebalance to begin
    if ctx.pullback.triggered {
        match transition(ctx.state, TransitionCause::PullbackDetected) {
            Ok(next) => {
                events.push(
                    EngineEvent::Transition {
                        from: ctx.state,
                        cause: TransitionCause::PullbackDetected,
                        to: next,
                    },
                );
                ctx.state = next;
            }
            Err(_) => {}
        }
    }

    // low-timeframe signals
    if input.ltf_broken_down {
        match transition(ctx.state, TransitionCause::LtfBosDown) {
            Ok(next) => {
                events.push(
                    EngineEvent::Transition {
                        from: ctx.state,
                        cause: TransitionCause::LtfBosDown,
                        to: next,
                    },
                );
                ctx.state = next;
            }
            Err(_) => {}
        }
    }
    if input.ltf_recovered {
        match transition(ctx.state, TransitionCause::LtfStructureRecovered) {
            Ok(next) => {
                events.push(
                    EngineEvent::Transition {
                        from: ctx.state,
                        cause: TransitionCause::LtfStructureRecovered,
                        to: next,
                    },
                );
                ctx.state = next;
            }
            Err(_) => {}
        }
    }

    // a disabled policy while market-making is an exit intent
    if (matches!(ctx.state, BotState::MMNormal) || matches!(ctx.state, BotState::MMDefensive))
        && matches!(decision.mode, MmMode::Disabled) {
        match transition(ctx.state, TransitionCause::HtfBosDown) {
            Ok(next) => {
                events.push(
                    EngineEvent::Transition {
                        from: ctx.state,
                        cause: TransitionCause::HtfBosDown,
                        to: next,
                    },
                );
                ctx.state = next;
            }
            Err(_) => {}
        }
    }

    // build the desired grid when market-making is allowed
    if matches!(decision.mode, MmMode::Normal) || matches!(decision.mode, MmMode::Defensive) {
        // the anchor is the mid for now
        let anchor = input.mid;
        match build_grid(anchor, input.mid, input.inv, ctx.grid) {
            Some(orders) => {
                events.push(EngineEvent::GridPlanned { orders: orders.len() });
            }
            None => {
                events.push(
                    EngineEvent::Log("grid disabled by hard band or invalid inputs".to_owned()),
                );
            }
        }
    }

    events
}

} // verus!
