use mmbot::worker::ArtifactEntry;
use mmbot::worker::MetricValue;
use mmbot::worker::MetricsMap;
use mmbot::worker::collect_results_from_line;
use mmbot::worker::find_header_idx;
use mmbot::worker::resolve_artifact_path;
use mmbot::worker::sample_evenly;
use mmbot::worker::select_equity_points;

fn value_of<'m>(m: &'m MetricsMap, key: &str) -> Option<&'m MetricValue> {
    for (k, v) in m.entries.iter() {
        if k == key {
            return Some(v);
        }
    }
    None
}

#[test]
fn metric_lines_split_into_numeric_and_text_values() {
    let mut metrics = MetricsMap::new();
    let mut artifacts: Vec<ArtifactEntry> = Vec::new();
    collect_results_from_line(
        "pnl=42.5 roi=5.2% note=hello, trades=7",
        &mut metrics,
        &mut artifacts,
    );
    match value_of(&metrics, "pnl") {
        Some(MetricValue::Num(s)) => assert_eq!(s, "42.5"),
        _ => panic!("pnl should be numeric"),
    }
    match value_of(&metrics, "roi") {
        Some(MetricValue::Num(s)) => assert_eq!(s, "5.2"),
        _ => panic!("roi should be numeric with the percent sign stripped"),
    }
    match value_of(&metrics, "note") {
        Some(MetricValue::Text(s)) => assert_eq!(s, "hello"),
        _ => panic!("note should be text"),
    }
    match value_of(&metrics, "trades") {
        Some(MetricValue::Num(s)) => assert_eq!(s, "7"),
        _ => panic!("trades should be numeric"),
    }
    assert!(artifacts.is_empty());
}

#[test]
fn later_values_overwrite_earlier_keys() {
    let mut metrics = MetricsMap::new();
    let mut artifacts: Vec<ArtifactEntry> = Vec::new();
    collect_results_from_line("pnl=1", &mut metrics, &mut artifacts);
    collect_results_from_line("pnl=2", &mut metrics, &mut artifacts);
    assert_eq!(metrics.entries.len(), 1);
    match value_of(&metrics, "pnl") {
        Some(MetricValue::Num(s)) => assert_eq!(s, "2"),
        _ => panic!("pnl should be numeric"),
    }
}

#[test]
fn artifact_lines_register_kind_path_pairs() {
    let mut metrics = MetricsMap::new();
    let mut artifacts: Vec<ArtifactEntry> = Vec::new();
    collect_results_from_line(
        "artifacts: equity_csv=data/e.csv fills_csv=data/f.csv,",
        &mut metrics,
        &mut artifacts,
    );
    assert_eq!(artifacts.len(), 2);
    assert_eq!(artifacts[0].kind, "equity_csv");
    assert_eq!(artifacts[0].path, "data/e.csv");
    assert_eq!(artifacts[1].kind, "fills_csv");
    assert_eq!(artifacts[1].path, "data/f.csv");
}

#[test]
fn quoted_values_lose_their_quotes() {
    let mut metrics = MetricsMap::new();
    let mut artifacts: Vec<ArtifactEntry> = Vec::new();
    collect_results_from_line("label=\"alpha\"", &mut metrics, &mut artifacts);
    match value_of(&metrics, "label") {
        Some(MetricValue::Text(s)) => assert_eq!(s, "alpha"),
        _ => panic!("label should be text without quotes"),
    }
}

#[test]
fn sampling_keeps_ends_and_spacing() {
    let points: Vec<i64> = (0..10).collect();
    let all = sample_evenly(&points, 20);
    assert_eq!(all, points);

    let five = sample_evenly(&points, 5);
    assert_eq!(five, vec![0, 2, 4, 6, 9]);

    let one = sample_evenly(&points, 1);
    assert_eq!(one, vec![9]);
}

#[test]
fn artifact_paths_resolve_against_the_workspace() {
    assert_eq!(resolve_artifact_path("/app", "/abs/x.csv"), "/abs/x.csv");
    assert_eq!(resolve_artifact_path("/app", "data/x.csv"), "/app/data/x.csv");
}

#[test]
fn header_lookup_is_case_insensitive_and_first_match() {
    let headers: Vec<String> = vec!["TS".into(), "Equity".into(), "close".into()];
    let names: Vec<String> = vec!["ts".into(), "timestamp".into()];
    assert_eq!(find_header_idx(&headers, &names), Some(0));
    let missing: Vec<String> = vec!["volume".into()];
    assert_eq!(find_header_idx(&headers, &missing), None);
}

#[test]
fn equity_points_select_and_sample_rows() {
    let headers: Vec<String> = vec!["ts".into(), "equity".into(), "close".into()];
    let mut records: Vec<Vec<String>> = Vec::new();
    for i in 0..4 {
        records.push(vec![
            format!("{}", 1000 + i),
            format!("{}.5", 100 + i),
            "999".to_owned(),
        ]);
    }
    records.push(vec!["bad".into(), "1".into(), "2".into()]);
    let pts = select_equity_points(&headers, &records, 800).unwrap();
    assert_eq!(pts.len(), 4);
    assert_eq!(pts[0].ts, 1000);
    assert_eq!(pts[0].equity, "100.5");
    assert_eq!(pts[0].close.as_deref(), Some("999"));

    let no_equity: Vec<String> = vec!["ts".into(), "open".into()];
    assert!(select_equity_points(&no_equity, &records, 800).is_none());
}

#[test]
fn artifact_lines_also_store_the_tokens_as_metrics() {
    let mut metrics = MetricsMap::new();
    let mut artifacts: Vec<ArtifactEntry> = Vec::new();
    collect_results_from_line(
        "artifacts: equity=data/eq.csv, fills=data/fills.csv",
        &mut metrics,
        &mut artifacts,
    );
    assert_eq!(artifacts.len(), 2);
    assert_eq!(artifacts[0].kind, "equity");
    assert_eq!(artifacts[0].path, "data/eq.csv");
    assert_eq!(artifacts[1].kind, "fills");
    assert_eq!(artifacts[1].path, "data/fills.csv");
    // the same k=v tokens land in the metric map as strings
    match value_of(&metrics, "equity") {
        Some(MetricValue::Text(s)) => assert_eq!(s, "data/eq.csv"),
        _ => panic!("equity should be stored as text"),
    }
    match value_of(&metrics, "fills") {
        Some(MetricValue::Text(s)) => assert_eq!(s, "data/fills.csv"),
        _ => panic!("fills should be stored as text"),
    }
}
