//! Market-making lifecycle state machine.
//!
//! A pure transition table: a `(state, cause)` pair either maps to the next
//! state or is illegal. Drivers treat an illegal transition as a logic bug.

use vstd::prelude::*;

verus! {

/// Lifecycle states of the market-making bot.
#[derive(Clone, Copy, Debug, PartialEq, Eq, Structural)]
pub enum BotState {
    IdleUSDT,
    BosPotential,
    BosConfirmed,
    Rebalancing,
    MMNormal,
    MMDefensive,
    Exiting,
}

/// Events that drive the market-making lifecycle.
#[derive(Clone, Copy, Debug, PartialEq, Eq, Structural)]
pub enum TransitionCause {
    HtfBosUpDetected,
    BosConfirmed,
    BosFailed,
    PullbackDetected,
    RebalanceDone,
    RebalanceFailed,
    LtfBosDown,
    LtfStructureRecovered,
    HtfBosDown,
    BreakEvenHit,
    BreakEvenWithFeesHit,
    ExitDone,
}

/// Error carrying the offending pair.
#[derive(Clone, Copy, Debug, PartialEq, Eq, Structural)]
pub enum TransitionError {
    IllegalTransition { from: BotState, cause: TransitionCause },
}

/// The transition table: `Some(next)` for a legal pair, `None` otherwise.
pub open spec fn spec_transition(state: BotState, cause: TransitionCause) -> Option<BotState> {
    match (state, cause) {
        (BotState::IdleUSDT, TransitionCause::HtfBosUpDetected) => Some(BotState::BosPotential),

        (BotState::BosPotential, TransitionCause::BosConfirmed) => Some(BotState::BosConfirmed),
        (BotState::BosPotential, TransitionCause::BosFailed) => Some(BotState::IdleUSDT),
        (BotState::BosPotential, TransitionCause::HtfBosDown) => Some(BotState::IdleUSDT),

        (BotState::BosConfirmed, TransitionCause::PullbackDetected) => Some(BotState::Rebalancing),
        (BotState::BosConfirmed, TransitionCause::HtfBosDown) => Some(BotState::IdleUSDT),

        (BotState::Rebalancing, TransitionCause::RebalanceDone) => Some(BotState::MMNormal),
        (BotState::Rebalancing, TransitionCause::RebalanceFailed) => Some(BotState::Exiting),
        (BotState::Rebalancing, TransitionCause::HtfBosDown) => Some(BotState::Exiting),

        (BotState::MMNormal, TransitionCause::LtfBosDown) => Some(BotState::MMDefensive),
        (BotState::MMNormal, TransitionCause::HtfBosDown) => Some(BotState::Exiting),
        (BotState::MMNormal, TransitionCause::BreakEvenHit) => Some(BotState::Exiting),
        (BotState::MMNormal, TransitionCause::BreakEvenWithFeesHit) => Some(BotState::Exiting),

        (BotState::MMDefensive, TransitionCause::LtfStructureRecovered) => Some(BotState::MMNormal),
        (BotState::MMDefensive, TransitionCause::HtfBosDown) => Some(BotState::Exiting),
        (BotState::MMDefensive, TransitionCause::BreakEvenHit) => Some(BotState::Exiting),
        (BotState::MMDefensive, TransitionCause::BreakEvenWithFeesHit) => Some(BotState::Exiting),

        (BotState::Exiting, TransitionCause::ExitDone) => Some(BotState::IdleUSDT),

        _ => None,
    }
}

/// Apply one cause to the machine. A pair that is not in the table returns
/// the `IllegalTransition` error carrying that pair; a pair that is in the
/// table returns exactly the tabled successor.
pub fn transition(state: BotState, cause: TransitionCause) -> (r: Result<BotState, TransitionError>)
    ensures
        (match spec_transition(state, cause) {
            Some(next) => r == Ok::<BotState, TransitionError>(next),
            None => r == Err::<BotState, TransitionError>(
                TransitionError::IllegalTransition { from: state, cause },
            ),
        }),
{
    let next = match (state, cause) {
        (BotState::IdleUSDT, TransitionCause::HtfBosUpDetected) => BotState::BosPotential,

        (BotState::BosPotential, TransitionCause::BosConfirmed) => BotState::BosConfirmed,
        (BotState::BosPotential, TransitionCause::BosFailed) => BotState::IdleUSDT,
        (BotState::BosPotential, TransitionCause::HtfBosDown) => BotState::IdleUSDT,

        (BotState::BosConfirmed, TransitionCause::PullbackDetected) => BotState::Rebalancing,
        (BotState::BosConfirmed, TransitionCause::HtfBosDown) => BotState::IdleUSDT,

        (BotState::Rebalancing, TransitionCause::RebalanceDone) => BotState::MMNormal,
        (BotState::Rebalancing, TransitionCause::RebalanceFailed) => BotState::Exiting,
        (BotState::Rebalancing, TransitionCause::HtfBosDown) => BotState::Exiting,

        (BotState::MMNormal, TransitionCause::LtfBosDown) => BotState::MMDefensive,
        (BotState::MMNormal, TransitionCause::HtfBosDown) => BotState::Exiting,
        (BotState::MMNormal, TransitionCause::BreakEvenHit) => BotState::Exiting,
        (BotState::MMNormal, TransitionCause::BreakEvenWithFeesHit) => BotState::Exiting,

        (BotState::MMDefensive, TransitionCause::LtfStructureRecovered) => BotState::MMNormal,
        (BotState::MMDefensive, TransitionCause::HtfBosDown) => BotState::Exiting,
        (BotState::MMDefensive, TransitionCause::BreakEvenHit) => BotState::Exiting,
        (BotState::MMDefensive, TransitionCause::BreakEvenWithFeesHit) => BotState::Exiting,

        (BotState::Exiting, TransitionCause::ExitDone) => BotState::IdleUSDT,

        _ => {
            return Err(TransitionError::IllegalTransition { from: state, cause });
        }
    };
    Ok(next)
}

/// Law: the documented happy path
/// `Idle -> BosPotential -> BosConfirmed -> Rebalancing -> MMNormal ->
/// MMDefensive -> Exiting -> Idle` completes without errors using the
/// documented causes.
pub proof fn lemma_mm_happy_path()
    ensures
        spec_transition(BotState::IdleUSDT, TransitionCause::HtfBosUpDetected)
            == Some(BotState::BosPotential),
        spec_transition(BotState::BosPotential, TransitionCause::BosConfirmed)
            == Some(BotState::BosConfirmed),
        spec_transition(BotState::BosConfirmed, TransitionCause::PullbackDetected)
            == Some(BotState::Rebalancing),
        spec_transition(BotState::Rebalancing, TransitionCause::RebalanceDone)
            == Some(BotState::MMNormal),
        spec_transition(BotState::MMNormal, TransitionCause::LtfBosDown)
            == Some(BotState::MMDefensive),
        spec_transition(BotState::MMDefensive, TransitionCause::BreakEvenWithFeesHit)
            == Some(BotState::Exiting),
        spec_transition(BotState::Exiting, TransitionCause::ExitDone)
            == Some(BotState::IdleUSDT),
{
}

} // verus!
