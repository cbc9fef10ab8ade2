//! Drive the market-making state machine once from a policy decision,
//! without placing orders.

use vstd::prelude::*;

use crate::bos::BosTracker;
use crate::bos::bos_wf;
use crate::grid::Inventory;
use crate::grid::base_ratio;
use crate::grid::spec_base_ratio_val;
use crate::grid::spec_equity;
use crate::mm_policy::MmMode;
use crate::mm_policy::MmPolicyParams;
use crate::mm_policy::mm_policy_decision;
use crate::mm_policy::spec_mm_policy;
use crate::pullback::PullbackTracker;
use crate::pullback::pullback_wf;
use crate::transition::BotState;
use crate::transition::TransitionCause;
use crate::transition::TransitionError;
use crate::transition::spec_transition;
use crate::transition::transition;
use crate::types::MAX_AMOUNT;
use crate::types::Price;

verus! {

/// The result of one drive step: the policy decision mapped onto the
/// machine. A disabled policy while market-making exits; an enabled policy
/// while rebalancing completes the rebalance; anything else stays put.
pub open spec fn spec_drive_once(
    state: BotState,
    bos: BosTracker,
    pullback: PullbackTracker,
    inv: Inventory,
    mid: int,
    mm_policy: MmPolicyParams,
) -> Result<BotState, TransitionError> {
    if spec_equity(inv, mid) <= 0 {
        Ok(state)
    } else {
        let decision = spec_mm_policy(
            bos.state,
            pullback.triggered,
            spec_base_ratio_val(inv, mid),
            mm_policy,
        );
        if (state == BotState::MMNormal || state == BotState::MMDefensive) && decision.mode
            == MmMode::Disabled {
            match spec_transition(state, TransitionCause::HtfBosDown) {
                Some(next) => Ok(next),
                None => Err(
                    TransitionError::IllegalTransition {
                        from: state,
                        cause: TransitionCause::HtfBosDown,
                    },
                ),
            }
        } else if state == BotState::Rebalancing && (decision.mode == MmMode::Normal
            || decision.mode == MmMode::Defensive) {
            match spec_transition(state, TransitionCause::RebalanceDone) {
                Some(next) => Ok(next),
                None => Err(
                    TransitionError::IllegalTransition {
                        from: state,
                        cause: TransitionCause::RebalanceDone,
                    },
                ),
            }
        } else {
            Ok(state)
        }
    }
}

/// Apply the market-making policy to the state machine once. No orders are
/// placed here; only the mode moves.
pub fn drive_once(
    state: BotState,
    bos: &BosTracker,
    pullback: &PullbackTracker,
    inv: Inventory,
    mid: Price,
    mm_policy: MmPolicyParams,
) -> (r: Result<BotState, TransitionError>)
    requires
        bos_wf(*bos),
        pullback_wf(*pullback),
        0 <= inv.base.0 <= MAX_AMOUNT,
        0 <= inv.quote.0 <= MAX_AMOUNT,
        0 <= mid.0 <= MAX_AMOUNT,
    ensures
        r == spec_drive_once(state, *bos, *pullback, inv, mid.0 as int, mm_policy),
{
    let ratio = match base_ratio(inv, mid) {
        Some(x) => x,
        None => {
            return Ok(state);
        }
    };

    let decision = mm_policy_decision(bos.state, pullback, ratio, mm_policy);

    if (matches!(state, BotState::MMNormal) || matches!(state, BotState::MMDefensive))
        && matches!(decision.mode, MmMode::Disabled) {
        transition(state, TransitionCause::HtfBosDown)
    } else if matches!(state, BotState::Rebalancing) && (matches!(decision.mode, MmMode::Normal)
        || matches!(decision.mode, MmMode::Defensive)) {
        transition(state, TransitionCause::RebalanceDone)
    } else {
        Ok(state)
    }
}

} // verus!
