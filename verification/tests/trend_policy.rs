use mmbot::trend_policy::TrendAction;
use mmbot::trend_policy::TrendDecisionReason;
use mmbot::trend_policy::TrendMode;
use mmbot::trend_policy::TrendPolicyInput;
use mmbot::trend_policy::TrendPolicyParams;
use mmbot::trend_policy::trend_policy_decision;
use mmbot::types::Price;
use mmbot::types::Qty;
use mmbot::types::Ratio;
use mmbot::types::SCALE;

fn params() -> TrendPolicyParams {
    TrendPolicyParams { atr_stop_mult: Ratio(5 * SCALE / 2) }
}

#[test]
fn enters_long_on_trend_up_when_flat() {
    let d = trend_policy_decision(
        TrendMode::Flat,
        TrendPolicyInput {
            close: Price(100 * SCALE),
            atr: Price(SCALE),
            ema_fast: Price(101 * SCALE),
            ema_slow: Price(99 * SCALE),
            position_qty: Qty(0),
            entry_price: None,
        },
        params(),
    );

    assert_eq!(d.next_mode, TrendMode::Long);
    assert_eq!(d.action, TrendAction::EnterLong);
    assert_eq!(d.reason, TrendDecisionReason::TrendUpEntry);
}

#[test]
fn stays_flat_without_entry_signal() {
    let d = trend_policy_decision(
        TrendMode::Flat,
        TrendPolicyInput {
            close: Price(100 * SCALE),
            atr: Price(SCALE),
            ema_fast: Price(99 * SCALE),
            ema_slow: Price(101 * SCALE),
            position_qty: Qty(0),
            entry_price: None,
        },
        params(),
    );

    assert_eq!(d.next_mode, TrendMode::Flat);
    assert_eq!(d.action, TrendAction::HoldFlat);
}

#[test]
fn exits_long_on_trend_down() {
    let d = trend_policy_decision(
        TrendMode::Long,
        TrendPolicyInput {
            close: Price(100 * SCALE),
            atr: Price(SCALE),
            ema_fast: Price(99 * SCALE),
            ema_slow: Price(101 * SCALE),
            position_qty: Qty(SCALE),
            entry_price: Some(Price(95 * SCALE)),
        },
        params(),
    );

    assert_eq!(d.next_mode, TrendMode::Flat);
    assert_eq!(d.action, TrendAction::ExitLong);
    assert_eq!(d.reason, TrendDecisionReason::TrendDown);
}

#[test]
fn exits_long_on_atr_stop() {
    // stop = 102 - 2.5 * 2 = 97, close 96 is at or under it
    let d = trend_policy_decision(
        TrendMode::Long,
        TrendPolicyInput {
            close: Price(96 * SCALE),
            atr: Price(2 * SCALE),
            ema_fast: Price(103 * SCALE),
            ema_slow: Price(100 * SCALE),
            position_qty: Qty(SCALE),
            entry_price: Some(Price(102 * SCALE)),
        },
        TrendPolicyParams { atr_stop_mult: Ratio(5 * SCALE / 2) },
    );

    assert_eq!(d.next_mode, TrendMode::Flat);
    assert_eq!(d.action, TrendAction::ExitLong);
    assert_eq!(d.reason, TrendDecisionReason::AtrStopHit);
}

#[test]
fn rejects_negative_position_for_long_only() {
    let d = trend_policy_decision(
        TrendMode::Long,
        TrendPolicyInput {
            close: Price(100 * SCALE),
            atr: Price(SCALE),
            ema_fast: Price(101 * SCALE),
            ema_slow: Price(99 * SCALE),
            position_qty: Qty(-SCALE / 10),
            entry_price: Some(Price(100 * SCALE)),
        },
        params(),
    );

    assert_eq!(d.next_mode, TrendMode::Flat);
    assert_eq!(d.action, TrendAction::ExitLong);
    assert_eq!(d.reason, TrendDecisionReason::InvalidLongOnlyInvariant);
}

#[test]
fn long_without_entry_price_exits() {
    let d = trend_policy_decision(
        TrendMode::Long,
        TrendPolicyInput {
            close: Price(100 * SCALE),
            atr: Price(SCALE),
            ema_fast: Price(101 * SCALE),
            ema_slow: Price(99 * SCALE),
            position_qty: Qty(SCALE),
            entry_price: None,
        },
        params(),
    );
    assert_eq!(d.action, TrendAction::ExitLong);
    assert_eq!(d.reason, TrendDecisionReason::MissingEntryPrice);
}

#[test]
fn flat_with_open_position_normalizes_to_long() {
    let d = trend_policy_decision(
        TrendMode::Flat,
        TrendPolicyInput {
            close: Price(100 * SCALE),
            atr: Price(SCALE),
            ema_fast: Price(99 * SCALE),
            ema_slow: Price(101 * SCALE),
            position_qty: Qty(SCALE),
            entry_price: None,
        },
        params(),
    );
    assert_eq!(d.next_mode, TrendMode::Long);
    assert_eq!(d.action, TrendAction::HoldLong);
}
