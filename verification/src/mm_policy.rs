//! Market-making policy: maps the BOS state, the pullback latch, and the
//! inventory ratio to a mode with a reason, guarded by the inventory bands.

use vstd::prelude::*;

use crate::bos::BosState;
use crate::pullback::PullbackTracker;
use crate::types::Ratio;
use crate::types::SCALE;

verus! {

/// Operating mode of the market maker.
#[derive(Clone, Copy, Debug, PartialEq, Eq, Structural)]
pub enum MmMode {
    Disabled,
    Normal,
    Defensive,
}

/// Why a mode was chosen.
#[derive(Clone, Copy, Debug, PartialEq, Eq, Structural)]
pub enum MmDecisionReason {
    NoConfirmedBos,
    NoPullback,
    InventoryOutsideSoftBand,
    InventoryOutsideHardBand,
    LtfStructureBroken,
    AllClear,
}

/// Inventory bands. Invariant:
/// `0 <= hard_min <= soft_min <= soft_max <= hard_max <= 1`.
#[derive(Clone, Copy, Debug, PartialEq, Eq, Structural)]
pub struct MmPolicyParams {
    pub soft_min: Ratio,
    pub soft_max: Ratio,
    pub hard_min: Ratio,
    pub hard_max: Ratio,
}

pub open spec fn mm_policy_params_wf(p: MmPolicyParams) -> bool {
    0 <= p.hard_min.0 <= p.soft_min.0 <= p.soft_max.0 <= p.hard_max.0 <= SCALE
}

/// The decision: a mode and its reason.
#[derive(Clone, Copy, Debug, PartialEq, Eq, Structural)]
pub struct MmPolicyDecision {
    pub mode: MmMode,
    pub reason: MmDecisionReason,
}

/// The policy, evaluated in order: confirmed BOS, pullback latch, hard band,
/// soft band, else normal.
pub open spec fn spec_mm_policy(
    bos_state: BosState,
    triggered: bool,
    r: int,
    p: MmPolicyParams,
) -> MmPolicyDecision {
    if bos_state != BosState::Confirmed {
        MmPolicyDecision { mode: MmMode::Disabled, reason: MmDecisionReason::NoConfirmedBos }
    } else if !triggered {
        MmPolicyDecision { mode: MmMode::Disabled, reason: MmDecisionReason::NoPullback }
    } else if r < p.hard_min.0 || r > p.hard_max.0 {
        MmPolicyDecision {
            mode: MmMode::Disabled,
            reason: MmDecisionReason::InventoryOutsideHardBand,
        }
    } else if r < p.soft_min.0 || r > p.soft_max.0 {
        MmPolicyDecision {
            mode: MmMode::Defensive,
            reason: MmDecisionReason::InventoryOutsideSoftBand,
        }
    } else {
        MmPolicyDecision { mode: MmMode::Normal, reason: MmDecisionReason::AllClear }
    }
}

/// Decide whether, and how, to market-make.
pub fn mm_policy_decision(
    bos_state: BosState,
    pullback: &PullbackTracker,
    base_ratio: Ratio,
    params: MmPolicyParams,
) -> (r: MmPolicyDecision)
    ensures
        r == spec_mm_policy(bos_state, pullback.triggered, base_ratio.0 as int, params),
{
    if !matches!(bos_state, BosState::Confirmed) {
        return MmPolicyDecision {
            mode: MmMode::Disabled,
            reason: MmDecisionReason::NoConfirmedBos,
        };
    }
    if !pullback.triggered {
        return MmPolicyDecision { mode: MmMode::Disabled, reason: MmDecisionReason::NoPullback };
    }
    let r = base_ratio.0;
    if r < params.hard_min.0 || r > params.hard_max.0 {
        return MmPolicyDecision {
            mode: MmMode::Disabled,
            reason: MmDecisionReason::InventoryOutsideHardBand,
        };
    }
    if r < params.soft_min.0 || r > params.soft_max.0 {
        return MmPolicyDecision {
            mode: MmMode::Defensive,
            reason: MmDecisionReason::InventoryOutsideSoftBand,
        };
    }
    MmPolicyDecision { mode: MmMode::Normal, reason: MmDecisionReason::AllClear }
}

/// Law: the policy is a pure function of
/// `(bos_state, triggered, base_ratio, params)` — equal inputs give equal
/// decisions.
pub proof fn lemma_mm_policy_pure(
    b1: BosState,
    t1: bool,
    r1: int,
    p1: MmPolicyParams,
    b2: BosState,
    t2: bool,
    r2: int,
    p2: MmPolicyParams,
)
    requires
        b1 == b2,
        t1 == t2,
        r1 == r2,
        p1 == p2,
    ensures
        spec_mm_policy(b1, t1, r1, p1) == spec_mm_policy(b2, t2, r2, p2),
{
}

} // verus!
