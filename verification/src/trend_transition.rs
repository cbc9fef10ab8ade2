//! Trend lifecycle state machine: two states, long-only.

use vstd::prelude::*;

verus! {

/// Position states of the trend strategy.
#[derive(Clone, Copy, Debug, PartialEq, Eq, Structural)]
pub enum TrendState {
    Flat,
    Long,
}

/// Events that drive the trend lifecycle.
#[derive(Clone, Copy, Debug, PartialEq, Eq, Structural)]
pub enum TrendCause {
    EntrySignal,
    ExitSignal,
    StopLossHit,
    ForceFlat,
}

/// Error carrying the offending pair.
#[derive(Clone, Copy, Debug, PartialEq, Eq, Structural)]
pub enum TrendTransitionError {
    IllegalTransition { from: TrendState, cause: TrendCause },
}

/// The transition table: `Some(next)` for a legal pair, `None` otherwise.
pub open spec fn spec_trend_transition(state: TrendState, cause: TrendCause) -> Option<TrendState> {
    match (state, cause) {
        (TrendState::Flat, TrendCause::EntrySignal) => Some(TrendState::Long),
        (TrendState::Long, TrendCause::ExitSignal) => Some(TrendState::Flat),
        (TrendState::Long, TrendCause::StopLossHit) => Some(TrendState::Flat),
        (TrendState::Long, TrendCause::ForceFlat) => Some(TrendState::Flat),
        _ => None,
    }
}

/// Apply one cause. A pair outside the table returns the error carrying it.
pub fn trend_transition(state: TrendState, cause: TrendCause) -> (r: Result<
    TrendState,
    TrendTransitionError,
>)
    ensures
        (match spec_trend_transition(state, cause) {
            Some(next) => r == Ok::<TrendState, TrendTransitionError>(next),
            None => r == Err::<TrendState, TrendTransitionError>(
                TrendTransitionError::IllegalTransition { from: state, cause },
            ),
        }),
{
    let next = match (state, cause) {
        (TrendState::Flat, TrendCause::EntrySignal) => TrendState::Long,
        (TrendState::Long, TrendCause::ExitSignal) => TrendState::Flat,
        (TrendState::Long, TrendCause::StopLossHit) => TrendState::Flat,
        (TrendState::Long, TrendCause::ForceFlat) => TrendState::Flat,
        _ => {
            return Err(TrendTransitionError::IllegalTransition { from: state, cause });
        }
    };
    Ok(next)
}

/// Apply a cause when the table allows it; otherwise stay.
pub open spec fn spec_trend_step_if_legal(s: TrendState, c: TrendCause) -> TrendState {
    match spec_trend_transition(s, c) {
        Some(n) => n,
        None => s,
    }
}

/// Law: from `Flat` only `EntrySignal` is legal; from `Long` exactly
/// `ExitSignal`, `StopLossHit` and `ForceFlat` are legal, all landing in
/// `Flat`.
pub proof fn lemma_trend_legal_transitions()
    ensures
        spec_trend_transition(TrendState::Flat, TrendCause::EntrySignal)
            == Some(TrendState::Long),
        spec_trend_transition(TrendState::Flat, TrendCause::ExitSignal) is None,
        spec_trend_transition(TrendState::Flat, TrendCause::StopLossHit) is None,
        spec_trend_transition(TrendState::Flat, TrendCause::ForceFlat) is None,
        spec_trend_transition(TrendState::Long, TrendCause::ExitSignal)
            == Some(TrendState::Flat),
        spec_trend_transition(TrendState::Long, TrendCause::StopLossHit)
            == Some(TrendState::Flat),
        spec_trend_transition(TrendState::Long, TrendCause::ForceFlat)
            == Some(TrendState::Flat),
        spec_trend_transition(TrendState::Long, TrendCause::EntrySignal) is None,
{
}

} // verus!
