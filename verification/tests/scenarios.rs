use mmbot::bos::BosParams;
use mmbot::bos::BosState;
use mmbot::bos::BosTracker;
use mmbot::candle::Candle;
use mmbot::exec_sim::ExecutionModel;
use mmbot::grid::Inventory;
use mmbot::grid::Side;
use mmbot::grid::base_ratio;
use mmbot::grid::build_grid;
use mmbot::grid::GridParams;
use mmbot::mm_policy::MmDecisionReason;
use mmbot::mm_policy::MmMode;
use mmbot::mm_policy::MmPolicyParams;
use mmbot::mm_policy::mm_policy_decision;
use mmbot::pullback::PullbackTracker;
use mmbot::report::ProfitFactor;
use mmbot::structure::MarketStructure;
use mmbot::sweep::top_trend_results;
use mmbot::trend_backtest::EntryGate;
use mmbot::trend_backtest::SweepConfig;
use mmbot::trend_backtest::BacktestReport;
use mmbot::trend_policy::TrendAction;
use mmbot::trend_policy::TrendDecisionReason;
use mmbot::trend_policy::TrendMode;
use mmbot::trend_policy::TrendPolicyInput;
use mmbot::trend_policy::TrendPolicyParams;
use mmbot::trend_policy::trend_policy_decision;
use mmbot::types::Bps;
use mmbot::types::Money;
use mmbot::types::Price;
use mmbot::types::Qty;
use mmbot::types::Ratio;
use mmbot::types::SCALE;
use mmbot::types::TimestampMs;

fn candle(ts: i64, open: i64, high: i64, low: i64, close: i64) -> Candle {
    Candle {
        ts: TimestampMs(ts),
        open: Price(open),
        high: Price(high),
        low: Price(low),
        close: Price(close),
        volume: Qty(SCALE),
    }
}

fn grid_params() -> GridParams {
    GridParams {
        levels: 3,
        step: Bps(10),
        base_quote_per_order: Money(50 * SCALE),
        max_size_mult: Ratio(2 * SCALE),
        soft_min: Ratio(40 * SCALE / 100),
        soft_max: Ratio(60 * SCALE / 100),
        hard_min: Ratio(35 * SCALE / 100),
        hard_max: Ratio(65 * SCALE / 100),
        min_base_qty: Qty(SCALE / 10_000),
    }
}

#[test]
fn grid_inventory_cap() {
    // inventory {base 0.02, quote 20}, mid and anchor 1000
    let inv = Inventory {
        base: Qty(SCALE / 50),
        quote: Money(20 * SCALE),
    };
    let mid = Price(1000 * SCALE);
    let orders = build_grid(mid, mid, inv, grid_params()).unwrap();
    let total_buy_notional: i64 = orders
        .iter()
        .filter(|o| o.side == Side::Buy)
        .map(|o| ((o.qty.0 as i128) * (o.price.0 as i128) / (SCALE as i128)) as i64)
        .sum();
    let total_sell_qty: i64 = orders
        .iter()
        .filter(|o| o.side == Side::Sell)
        .map(|o| o.qty.0)
        .sum();
    assert!(total_buy_notional <= 20 * SCALE);
    assert!(total_sell_qty <= SCALE / 50);
}

#[test]
fn hard_band_reject() {
    // inventory {base 10, quote 10} at mid 1000: base ratio near one
    let inv = Inventory {
        base: Qty(10 * SCALE),
        quote: Money(10 * SCALE),
    };
    let mid = Price(1000 * SCALE);
    assert!(build_grid(mid, mid, inv, grid_params()).is_none());

    let r = base_ratio(inv, mid).unwrap();
    assert!(r.0 > 99 * SCALE / 100);
    let pullback = PullbackTracker {
        max_price_after_bos: None,
        triggered: true,
    };
    let policy = MmPolicyParams {
        soft_min: Ratio(40 * SCALE / 100),
        soft_max: Ratio(60 * SCALE / 100),
        hard_min: Ratio(35 * SCALE / 100),
        hard_max: Ratio(65 * SCALE / 100),
    };
    let d = mm_policy_decision(BosState::Confirmed, &pullback, r, policy);
    assert_eq!(d.mode, MmMode::Disabled);
    assert_eq!(d.reason, MmDecisionReason::InventoryOutsideHardBand);
}

#[test]
fn trend_entry_and_atr_stop() {
    let params = TrendPolicyParams { atr_stop_mult: Ratio(5 * SCALE / 2) };
    let d1 = trend_policy_decision(
        TrendMode::Flat,
        TrendPolicyInput {
            close: Price(100 * SCALE),
            atr: Price(SCALE),
            ema_fast: Price(101 * SCALE),
            ema_slow: Price(99 * SCALE),
            position_qty: Qty(0),
            entry_price: None,
        },
        params,
    );
    assert_eq!(d1.action, TrendAction::EnterLong);

    // next bar: stop at 102 - 2.5 * 2 = 97, close 96 exits
    let d2 = trend_policy_decision(
        TrendMode::Long,
        TrendPolicyInput {
            close: Price(96 * SCALE),
            atr: Price(2 * SCALE),
            ema_fast: Price(103 * SCALE),
            ema_slow: Price(100 * SCALE),
            position_qty: Qty(SCALE),
            entry_price: Some(Price(102 * SCALE)),
        },
        params,
    );
    assert_eq!(d2.action, TrendAction::ExitLong);
    assert_eq!(d2.reason, TrendDecisionReason::AtrStopHit);
}

#[test]
fn round_trip_with_costs_loses() {
    let m = ExecutionModel {
        fee_bps: Bps(10),
        spread_bps: Bps(10),
        slippage_bps: Bps(5),
    };
    let mid = Price(100 * SCALE);
    let budget = Money(1000 * SCALE);
    let qty = m.buy_qty_for_quote(budget, mid);
    let proceeds = m.sell_proceeds(qty, mid);
    assert!(proceeds.0 < budget.0);
}

#[test]
fn bos_happy_path_confirms_then_resets() {
    // structure exposes last_high 100; close 101 clears 100 + epsilon (0.1)
    let mut bos = BosTracker::new();
    let st = MarketStructure {
        last_high: Some(Price(100 * SCALE)),
        last_low: None,
    };
    let params = BosParams {
        confirm_candles: 1,
        epsilon_frac: Ratio(SCALE / 10),
    };
    let atr = Price(SCALE);
    let c1 = candle(1, 100 * SCALE, 102 * SCALE, 99 * SCALE, 101 * SCALE);
    bos.on_candle_close(&c1, &st, atr, params);
    assert_eq!(bos.state, BosState::Confirmed);
    assert_eq!(bos.level, Some(Price(100 * SCALE)));

    // a close back at or under the level resets the tracker
    let c2 = candle(2, 101 * SCALE, 101 * SCALE, 99 * SCALE, 100 * SCALE);
    bos.on_candle_close(&c2, &st, atr, params);
    assert_eq!(bos.state, BosState::Idle);
    assert_eq!(bos.level, None);
}

fn report(roi: i64, dd: i64, gp: i64, gl: i64) -> BacktestReport {
    BacktestReport {
        trades: 0,
        closed_trades: 0,
        stop_exits: 0,
        winning_trades: 0,
        win_rate_pct: Ratio(0),
        profit_factor: ProfitFactor {
            gross_profit: Money(gp),
            gross_loss: Money(gl),
        },
        max_drawdown_pct: Ratio(dd),
        pnl: Money(0),
        roi_pct: Ratio(roi),
    }
}

#[test]
fn sweep_ranking_breaks_roi_ties_by_drawdown() {
    let cfg_a = SweepConfig {
        ema_fast: 10,
        ema_slow: 50,
        entry_gate: EntryGate::Trend,
        min_trend_gap_bps: Bps(0),
        cooldown_bars: 0,
        max_atr_pct: Ratio(100 * SCALE),
    };
    let cfg_b = SweepConfig { ema_fast: 20, ..cfg_a };
    // A: roi 5, drawdown 10, profit factor 1.2; B: roi 5, drawdown 8, 1.1
    let a = report(5 * SCALE, 10 * SCALE, 12, 10);
    let b = report(5 * SCALE, 8 * SCALE, 11, 10);
    let results = vec![(cfg_a, a), (cfg_b, b)];
    let top = top_trend_results(&results, 2);
    assert_eq!(top.len(), 2);
    // B ranks first on the lower drawdown
    assert_eq!(top[0].0.ema_fast, 20);
    assert_eq!(top[0].1.max_drawdown_pct, Ratio(8 * SCALE));
    assert_eq!(top[1].0.ema_fast, 10);
}

#[test]
fn sweep_ranking_prefers_infinite_profit_factor_on_full_tie() {
    let cfg = SweepConfig {
        ema_fast: 10,
        ema_slow: 50,
        entry_gate: EntryGate::Trend,
        min_trend_gap_bps: Bps(0),
        cooldown_bars: 0,
        max_atr_pct: Ratio(100 * SCALE),
    };
    let finite = report(5 * SCALE, 8 * SCALE, 12, 10);
    let infinite = report(5 * SCALE, 8 * SCALE, 7, 0);
    let results = vec![(cfg, finite), (SweepConfig { ema_fast: 20, ..cfg }, infinite)];
    let top = top_trend_results(&results, 1);
    assert_eq!(top.len(), 1);
    assert_eq!(top[0].0.ema_fast, 20);
}

#[test]
fn policy_precedence_follows_the_documented_order() {
    let policy = MmPolicyParams {
        soft_min: Ratio(40 * SCALE / 100),
        soft_max: Ratio(60 * SCALE / 100),
        hard_min: Ratio(35 * SCALE / 100),
        hard_max: Ratio(65 * SCALE / 100),
    };
    let idle = PullbackTracker {
        max_price_after_bos: None,
        triggered: false,
    };
    let latched = PullbackTracker {
        max_price_after_bos: None,
        triggered: true,
    };
    let half = Ratio(SCALE / 2);

    let d1 = mm_policy_decision(BosState::Idle, &latched, half, policy);
    assert_eq!(d1.reason, MmDecisionReason::NoConfirmedBos);

    let d2 = mm_policy_decision(BosState::Confirmed, &idle, half, policy);
    assert_eq!(d2.reason, MmDecisionReason::NoPullback);

    let d3 = mm_policy_decision(BosState::Confirmed, &latched, Ratio(38 * SCALE / 100), policy);
    assert_eq!(d3.mode, MmMode::Defensive);
    assert_eq!(d3.reason, MmDecisionReason::InventoryOutsideSoftBand);

    let d4 = mm_policy_decision(BosState::Confirmed, &latched, half, policy);
    assert_eq!(d4.mode, MmMode::Normal);
    assert_eq!(d4.reason, MmDecisionReason::AllClear);
}
