use mmbot::orchestrator::AdmissionError;
use mmbot::orchestrator::CreateRunRequest;
use mmbot::orchestrator::RunKind;
use mmbot::orchestrator::RunStatus;
use mmbot::orchestrator::admit_run;
use mmbot::orchestrator::mark_completed;
use mmbot::orchestrator::mark_failed;
use mmbot::orchestrator::mark_running;
use mmbot::orchestrator::parse_run_kind;
use mmbot::orchestrator::parse_run_status;
use mmbot::orchestrator::run_queue_key;
use mmbot::orchestrator::build_mm_mtf_sweep_preset;
use mmbot::orchestrator::MmMtfSweepPreset;
use mmbot::textnum::fixed_list_to_ints;
use mmbot::textnum::parse_fixed_str;
use mmbot::textnum::parse_gate_list;
use mmbot::textnum::parse_i64_str;
use mmbot::textnum::parse_interval_ms;
use mmbot::textnum::parse_num_list;
use mmbot::trend_backtest::EntryGate;
use mmbot::trusted::date_range_ms;
use mmbot::trusted::validate_run_id;
use mmbot::types::SCALE;
use mmbot::types::TimestampMs;

#[test]
fn integers_parse_exactly() {
    assert_eq!(parse_i64_str("123"), Some(123));
    assert_eq!(parse_i64_str("-45"), Some(-45));
    assert_eq!(parse_i64_str("+7"), Some(7));
    assert_eq!(parse_i64_str("12a"), None);
    assert_eq!(parse_i64_str(""), None);
    assert_eq!(parse_i64_str("1700000000000"), Some(1_700_000_000_000));
}

#[test]
fn decimals_parse_to_fixed_point() {
    assert_eq!(parse_fixed_str("2.5"), Some(2 * SCALE + SCALE / 2));
    assert_eq!(parse_fixed_str("10"), Some(10 * SCALE));
    assert_eq!(parse_fixed_str("-0.35"), Some(-(35 * SCALE / 100)));
    assert_eq!(parse_fixed_str("0.0001"), Some(100));
    assert_eq!(parse_fixed_str("1."), None);
    assert_eq!(parse_fixed_str("x"), None);
}

#[test]
fn num_lists_parse_like_the_sweep_flags() {
    let v = parse_num_list("6,8,10,12").unwrap();
    assert_eq!(v, vec![6 * SCALE, 8 * SCALE, 10 * SCALE, 12 * SCALE]);
    let w = parse_num_list(" 1.5, 2.0 ,2.5 ").unwrap();
    assert_eq!(w, vec![SCALE + SCALE / 2, 2 * SCALE, 2 * SCALE + SCALE / 2]);
    assert!(parse_num_list("").is_none());
    assert!(parse_num_list("1,x").is_none());
    assert!(parse_num_list(" , ").is_none());
}

#[test]
fn fixed_lists_convert_to_whole_numbers() {
    let v = parse_num_list("3,5,7").unwrap();
    let ints = fixed_list_to_ints(&v).unwrap();
    assert_eq!(ints, vec![3, 5, 7]);
    let frac = parse_num_list("2.5").unwrap();
    assert!(fixed_list_to_ints(&frac).is_none());
}

#[test]
fn intervals_convert_to_milliseconds() {
    assert_eq!(parse_interval_ms("5"), Some(300_000));
    assert_eq!(parse_interval_ms("1"), Some(60_000));
    assert_eq!(parse_interval_ms("0"), None);
    assert_eq!(parse_interval_ms("-3"), None);
    assert_eq!(parse_interval_ms("abc"), None);
}

#[test]
fn gate_lists_parse_case_insensitively() {
    let gates = parse_gate_list("trend,trend-bos,TREND-BOS-PULLBACK").unwrap();
    assert_eq!(
        gates,
        vec![EntryGate::Trend, EntryGate::TrendBos, EntryGate::TrendBosPullback]
    );
    assert!(parse_gate_list("sideways").is_none());
    assert!(parse_gate_list("").is_none());
}

#[test]
fn run_kinds_round_trip_through_their_labels() {
    let kinds = [
        RunKind::BacktestTrend,
        RunKind::BacktestTrendSweep,
        RunKind::BacktestMm,
        RunKind::BacktestMmMtf,
        RunKind::BacktestMmMtfSweep,
    ];
    for k in kinds {
        assert_eq!(parse_run_kind(k.engine_bin()), Some(k));
    }
    assert_eq!(parse_run_kind("unknown"), None);
}

#[test]
fn run_statuses_round_trip_through_their_labels() {
    for s in [
        RunStatus::Queued,
        RunStatus::Running,
        RunStatus::Completed,
        RunStatus::Failed,
    ] {
        assert_eq!(parse_run_status(s.label()), Some(s));
    }
    assert_eq!(parse_run_status("paused"), None);
}

#[test]
fn queue_key_is_fixed() {
    assert_eq!(run_queue_key(), "mmbot:run_queue");
}

#[test]
fn admission_rejects_blank_names() {
    let req = CreateRunRequest {
        name: "   ".to_owned(),
        kind: RunKind::BacktestMm,
        cli_args: vec![],
    };
    let r = admit_run(&req, "id-1".to_owned(), TimestampMs(5));
    assert_eq!(r.err(), Some(AdmissionError::EmptyName));
}

#[test]
fn admission_creates_a_queued_record() {
    let req = CreateRunRequest {
        name: "my run".to_owned(),
        kind: RunKind::BacktestMmMtfSweep,
        cli_args: vec!["--symbol".to_owned(), "ETHUSDT".to_owned()],
    };
    let rec = admit_run(&req, "id-2".to_owned(), TimestampMs(7)).unwrap();
    assert_eq!(rec.status, RunStatus::Queued);
    assert_eq!(rec.name, "my run");
    assert_eq!(rec.created_at, TimestampMs(7));
    assert!(rec.started_at.is_none());
    assert!(rec.error.is_none());
}

#[test]
fn lifecycle_transitions_set_the_documented_fields() {
    let req = CreateRunRequest {
        name: "r".to_owned(),
        kind: RunKind::BacktestTrend,
        cli_args: vec![],
    };
    let rec = admit_run(&req, "id-3".to_owned(), TimestampMs(1)).unwrap();
    let running = mark_running(rec, TimestampMs(2));
    assert_eq!(running.status, RunStatus::Running);
    assert_eq!(running.started_at, Some(TimestampMs(2)));

    let done = mark_completed(running.clone(), TimestampMs(3), 0);
    assert_eq!(done.status, RunStatus::Completed);
    assert_eq!(done.exit_code, Some(0));

    let failed = mark_failed(running, TimestampMs(4), None, "boom".to_owned());
    assert_eq!(failed.status, RunStatus::Failed);
    assert_eq!(failed.exit_code, Some(-1));
    assert_eq!(failed.error.as_deref(), Some("boom"));
}

#[test]
fn run_ids_validate_through_the_identifier_parser() {
    assert!(validate_run_id("550e8400-e29b-41d4-a716-446655440000").is_some());
    assert!(validate_run_id("not-a-run-id").is_none());
    assert!(validate_run_id("").is_none());
}

#[test]
fn date_ranges_cover_whole_days() {
    let (start, end) = date_range_ms("2024-01-01", "2024-01-01").unwrap();
    assert_eq!(start, 1_704_067_200_000);
    assert_eq!(end, 1_704_067_200_000 + 86_400_000 - 1);
    assert!(date_range_ms("2024-13-01", "2024-01-01").is_none());
    assert!(date_range_ms("nonsense", "2024-01-01").is_none());
}

#[test]
fn sweep_preset_builds_the_fixed_argument_grid() {
    let preset = MmMtfSweepPreset {
        symbol: "ETHUSDT".to_owned(),
        start: "2024-01-01".to_owned(),
        end: "2024-02-01".to_owned(),
        htf_interval: None,
        ltf_interval: None,
        maker_fee_bps_list: None,
        top_n: Some(500),
        summary_out: None,
    };
    let req = build_mm_mtf_sweep_preset(&preset).unwrap();
    assert_eq!(req.kind, RunKind::BacktestMmMtfSweep);
    assert_eq!(req.name, "mm_mtf_sweep ETHUSDT 2024-01-01..2024-02-01");
    assert_eq!(req.cli_args.len(), 54);
    assert_eq!(req.cli_args[0], "--symbol");
    assert_eq!(req.cli_args[1], "ETHUSDT");
    // top_n clamps into 1..=200
    let pos = req.cli_args.iter().position(|a| a == "--top-n").unwrap();
    assert_eq!(req.cli_args[pos + 1], "200");

    let blank = MmMtfSweepPreset {
        symbol: " ".to_owned(),
        ..preset
    };
    assert!(build_mm_mtf_sweep_preset(&blank).is_err());
}
