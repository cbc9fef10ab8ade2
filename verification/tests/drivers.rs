use mmbot::bos::BosParams;
use mmbot::bos::BosState;
use mmbot::candle::Candle;
use mmbot::driver::drive_once;
use mmbot::tick::{tick, EngineCtx, EngineEvent, TickInput};
use mmbot::transition::BotState;
use mmbot::grid::Inventory;
use mmbot::mm_backtest::run_mm_mtf;
use mmbot::mm_backtest::MmMtfConfig;
use mmbot::pullback::PullbackTracker;
use mmbot::sweep::expand_trend_configs;
use mmbot::ema::EmaCalc;
use mmbot::exec_sim::ExecutionModel;
use mmbot::feed::CandleFeed;
use mmbot::grid::GridParams;
use mmbot::mm_backtest::run_mm;
use mmbot::mm_policy::MmPolicyParams;
use mmbot::pullback::PullbackParams;
use mmbot::structure::StructureParams;
use mmbot::trend_backtest::BacktestReport;
use mmbot::trend_backtest::EntryGate;
use mmbot::trend_backtest::SweepConfig;
use mmbot::trend_backtest::run_backtest;
use mmbot::trend_backtest::trend_mode_from_state;
use mmbot::trend_policy::TrendMode;
use mmbot::trend_transition::TrendState;
use mmbot::types::Bps;
use mmbot::types::Money;
use mmbot::types::Price;
use mmbot::types::Qty;
use mmbot::types::Ratio;
use mmbot::types::SCALE;
use mmbot::types::TimestampMs;

fn candle(ts: i64, close: i64) -> Candle {
    Candle {
        ts: TimestampMs(ts),
        open: Price(close - SCALE / 2),
        high: Price(close + SCALE),
        low: Price(close - SCALE),
        close: Price(close),
        volume: Qty(SCALE),
    }
}

fn rising_candles(n: i64) -> Vec<Candle> {
    let mut out = Vec::new();
    let mut price = 100 * SCALE;
    for i in 0..n {
        price += SCALE / 2;
        out.push(candle(60_000 * i, price));
    }
    out
}

#[test]
fn ema_update_is_exact() {
    let mut e = EmaCalc::new(3);
    assert_eq!(e.update(10 * SCALE), 10 * SCALE);
    // (2 * 20 + 2 * 10) / 4 = 15
    assert_eq!(e.update(20 * SCALE), 15 * SCALE);
}

#[test]
fn feed_window_drops_the_oldest() {
    let mut feed = CandleFeed::new(2);
    feed.push(candle(1, 100 * SCALE));
    feed.push(candle(2, 101 * SCALE));
    feed.push(candle(3, 102 * SCALE));
    assert_eq!(feed.candles.len(), 2);
    assert_eq!(feed.candles[0].ts, TimestampMs(2));
    assert_eq!(feed.mid(), Some(Price(102 * SCALE)));
    assert!(feed.atr().is_some());
}

#[test]
fn trend_mode_maps_machine_states() {
    assert_eq!(trend_mode_from_state(TrendState::Flat), TrendMode::Flat);
    assert_eq!(trend_mode_from_state(TrendState::Long), TrendMode::Long);
}

#[test]
fn trend_backtest_report_is_internally_consistent() {
    let candles = rising_candles(60);
    let cfg = SweepConfig {
        ema_fast: 3,
        ema_slow: 10,
        entry_gate: EntryGate::Trend,
        min_trend_gap_bps: Bps(0),
        cooldown_bars: 0,
        max_atr_pct: Ratio(100 * SCALE),
    };
    let exec = ExecutionModel {
        fee_bps: Bps(10),
        spread_bps: Bps(8),
        slippage_bps: Bps(2),
    };
    let rep: BacktestReport = run_backtest(
        &candles,
        cfg,
        Ratio(5 * SCALE / 2),
        exec,
        Money(1000 * SCALE),
        true,
    );
    assert!(rep.winning_trades <= rep.closed_trades);
    assert!(rep.win_rate_pct.0 >= 0 && rep.win_rate_pct.0 <= 100 * SCALE);
    assert!(rep.max_drawdown_pct.0 >= 0 && rep.max_drawdown_pct.0 <= 100 * SCALE);
    // a steady uptrend closed at the end books at least one trade
    assert!(rep.trades >= 1);
}

#[test]
fn mm_backtest_runs_and_keeps_balances_nonnegative() {
    let candles = rising_candles(40);
    let grid = GridParams {
        levels: 3,
        step: Bps(10),
        base_quote_per_order: Money(50 * SCALE),
        max_size_mult: Ratio(2 * SCALE),
        soft_min: Ratio(40 * SCALE / 100),
        soft_max: Ratio(60 * SCALE / 100),
        hard_min: Ratio(35 * SCALE / 100),
        hard_max: Ratio(65 * SCALE / 100),
        min_base_qty: Qty(SCALE / 10_000),
    };
    let policy = MmPolicyParams {
        soft_min: Ratio(40 * SCALE / 100),
        soft_max: Ratio(60 * SCALE / 100),
        hard_min: Ratio(35 * SCALE / 100),
        hard_max: Ratio(65 * SCALE / 100),
    };
    let bos = BosParams {
        confirm_candles: 2,
        epsilon_frac: Ratio(SCALE / 10),
    };
    let pullback = PullbackParams {
        epsilon_frac: Ratio(SCALE / 10),
        retrace_frac: Ratio(2 * SCALE / 5),
    };
    let structure = StructureParams {
        pivot_k: 1,
        min_atr_frac: Ratio(SCALE / 10),
    };
    let fce = ExecutionModel {
        fee_bps: Bps(10),
        spread_bps: Bps(8),
        slippage_bps: Bps(2),
    };
    let (rep, rows, fills) = run_mm(
        &candles,
        240,
        grid,
        policy,
        bos,
        pullback,
        structure,
        Bps(10),
        fce,
        Money(1000 * SCALE),
        Qty(SCALE),
        true,
    );
    assert!(rep.winning_sells <= rep.sell_fills);
    assert!(rep.max_drawdown_pct.0 >= 0 && rep.max_drawdown_pct.0 <= 100 * SCALE);
    for row in &rows {
        assert!(row.quote.0 >= 0);
        assert!(row.base.0 >= 0);
        assert!(row.drawdown_pct.0 >= 0 && row.drawdown_pct.0 <= 100 * SCALE);
    }
    for f in &fills {
        assert!(f.qty.0 >= 0);
    }
}

#[test]
fn tick_reports_the_policy_decision_first() {
    let policy = MmPolicyParams {
        soft_min: Ratio(40 * SCALE / 100),
        soft_max: Ratio(60 * SCALE / 100),
        hard_min: Ratio(35 * SCALE / 100),
        hard_max: Ratio(65 * SCALE / 100),
    };
    let grid = GridParams {
        levels: 3,
        step: Bps(10),
        base_quote_per_order: Money(50 * SCALE),
        max_size_mult: Ratio(2 * SCALE),
        soft_min: policy.soft_min,
        soft_max: policy.soft_max,
        hard_min: policy.hard_min,
        hard_max: policy.hard_max,
        min_base_qty: Qty(SCALE / 10_000),
    };
    let bos = BosParams {
        confirm_candles: 2,
        epsilon_frac: Ratio(SCALE / 10),
    };
    let pb = PullbackParams {
        epsilon_frac: Ratio(SCALE / 10),
        retrace_frac: Ratio(2 * SCALE / 5),
    };
    let mut ctx = EngineCtx::new(BotState::IdleUSDT, policy, grid, bos, pb);
    let input = TickInput {
        mid: Price(1000 * SCALE),
        atr: Price(SCALE),
        inv: Inventory {
            base: Qty(SCALE),
            quote: Money(1000 * SCALE),
        },
        ltf_broken_down: false,
        ltf_recovered: false,
    };
    let events = tick(&mut ctx, input);
    assert!(!events.is_empty());
    match &events[0] {
        EngineEvent::PolicyDecision { .. } => {}
        other => panic!("expected a policy decision first, got {:?}", other),
    }
    // no confirmed break of structure: the machine stays idle
    assert_eq!(ctx.state, BotState::IdleUSDT);
}

#[test]
fn drive_once_completes_a_rebalance_when_policy_allows() {
    let policy = MmPolicyParams {
        soft_min: Ratio(40 * SCALE / 100),
        soft_max: Ratio(60 * SCALE / 100),
        hard_min: Ratio(35 * SCALE / 100),
        hard_max: Ratio(65 * SCALE / 100),
    };
    let bos = mmbot::bos::BosTracker {
        state: BosState::Confirmed,
        level: Some(Price(900 * SCALE)),
        started_at: None,
        confirmed_candles: 1,
    };
    let pullback = PullbackTracker {
        max_price_after_bos: None,
        triggered: true,
    };
    let inv = Inventory {
        base: Qty(SCALE),
        quote: Money(1000 * SCALE),
    };
    let next = drive_once(
        BotState::Rebalancing,
        &bos,
        &pullback,
        inv,
        Price(1000 * SCALE),
        policy,
    )
    .unwrap();
    assert_eq!(next, BotState::MMNormal);
}

#[test]
fn trend_expansion_filters_inverted_ema_pairs() {
    let fast: Vec<usize> = vec![10, 100];
    let slow: Vec<usize> = vec![50];
    let gates = vec![EntryGate::Trend];
    let gaps = vec![Bps(0)];
    let cooldowns: Vec<u64> = vec![0];
    let atrs = vec![Ratio(100 * SCALE)];
    let configs = expand_trend_configs(&fast, &slow, &gates, &gaps, &cooldowns, &atrs);
    assert_eq!(configs.len(), 1);
    assert_eq!(configs[0].ema_fast, 10);
    assert_eq!(configs[0].ema_slow, 50);
}

#[test]
fn mtf_backtest_runs_over_two_timeframes() {
    let htf = rising_candles(30);
    let mut ltf = Vec::new();
    let mut price = 100 * SCALE;
    for i in 0..150 {
        price += SCALE / 10;
        ltf.push(candle(12_000 * i, price));
    }
    let cfg = MmMtfConfig {
        levels: 3,
        step_bps: Bps(10),
        base_quote_per_order: Money(50 * SCALE),
        max_size_mult: Ratio(2 * SCALE),
        soft_min: Ratio(40 * SCALE / 100),
        soft_max: Ratio(60 * SCALE / 100),
        hard_min: Ratio(35 * SCALE / 100),
        hard_max: Ratio(65 * SCALE / 100),
        maker_fee_bps: Bps(10),
        defensive_step_mult: Ratio(3 * SCALE / 2),
        defensive_size_mult: Ratio(SCALE / 2),
    };
    let fce = ExecutionModel {
        fee_bps: Bps(10),
        spread_bps: Bps(8),
        slippage_bps: Bps(2),
    };
    let (rep, rows, _fills) = run_mm_mtf(
        &htf,
        &ltf,
        60_000,
        cfg,
        Qty(SCALE / 10_000),
        Money(1000 * SCALE),
        Qty(0),
        fce,
        true,
        true,
        Ratio(SCALE / 2),
    );
    assert!(rep.winning_sells <= rep.sell_fills);
    for row in &rows {
        assert!(row.quote.0 >= 0 && row.base.0 >= 0);
    }
}
