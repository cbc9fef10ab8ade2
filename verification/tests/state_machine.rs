use mmbot::transition::BotState;
use mmbot::transition::TransitionCause;
use mmbot::transition::TransitionError;
use mmbot::transition::transition;
use mmbot::trend_transition::TrendCause;
use mmbot::trend_transition::TrendState;
use mmbot::trend_transition::trend_transition;

#[test]
fn happy_path_full_cycle() {
    let mut s = BotState::IdleUSDT;

    s = transition(s, TransitionCause::HtfBosUpDetected).unwrap();
    s = transition(s, TransitionCause::BosConfirmed).unwrap();
    s = transition(s, TransitionCause::PullbackDetected).unwrap();
    s = transition(s, TransitionCause::RebalanceDone).unwrap();
    s = transition(s, TransitionCause::LtfBosDown).unwrap();
    s = transition(s, TransitionCause::BreakEvenWithFeesHit).unwrap();
    s = transition(s, TransitionCause::ExitDone).unwrap();

    assert_eq!(s, BotState::IdleUSDT);
}

#[test]
fn illegal_transition_from_idle() {
    assert!(transition(BotState::IdleUSDT, TransitionCause::RebalanceDone).is_err());
}

#[test]
fn cannot_skip_bos_confirmation() {
    assert!(transition(BotState::IdleUSDT, TransitionCause::PullbackDetected).is_err());
}

#[test]
fn trend_happy_path_long_then_flat() {
    let mut s = TrendState::Flat;
    s = trend_transition(s, TrendCause::EntrySignal).unwrap();
    s = trend_transition(s, TrendCause::ExitSignal).unwrap();
    assert_eq!(s, TrendState::Flat);
}

#[test]
fn stop_loss_transitions_to_flat() {
    let mut s = TrendState::Flat;
    s = trend_transition(s, TrendCause::EntrySignal).unwrap();
    s = trend_transition(s, TrendCause::StopLossHit).unwrap();
    assert_eq!(s, TrendState::Flat);
}

#[test]
fn illegal_flat_to_exit_is_rejected() {
    assert!(trend_transition(TrendState::Flat, TrendCause::ExitSignal).is_err());
}

#[test]
fn illegal_transition_error_carries_the_pair() {
    let r = transition(BotState::MMNormal, TransitionCause::ExitDone);
    assert_eq!(
        r,
        Err(TransitionError::IllegalTransition {
            from: BotState::MMNormal,
            cause: TransitionCause::ExitDone,
        })
    );
}

#[test]
fn defensive_recovers_to_normal() {
    let s = transition(BotState::MMDefensive, TransitionCause::LtfStructureRecovered).unwrap();
    assert_eq!(s, BotState::MMNormal);
}
