//! Run orchestration records and their pure logic: kinds, statuses,
//! admission validation, and the lifecycle transitions the worker persists.

use vstd::prelude::*;

use crate::textnum::is_space;
use crate::types::TimestampMs;
use vstd::string::StringSliceAdditionalSpecFns;
use vstd::string::StringExecFns;

verus! {

/// The backtest kinds a run can invoke.
#[derive(Clone, Copy, Debug, PartialEq, Eq, Structural)]
pub enum RunKind {
    BacktestTrend,
    BacktestTrendSweep,
    BacktestMm,
    BacktestMmMtf,
    BacktestMmMtfSweep,
}

impl RunKind {
    /// The engine binary (and schema label) for this kind.
    pub fn engine_bin(self) -> (r: &'static str)
        ensures
            r@ == (match self {
                RunKind::BacktestTrend => "backtest_trend"@,
                RunKind::BacktestTrendSweep => "backtest_trend_sweep"@,
                RunKind::BacktestMm => "backtest_mm"@,
                RunKind::BacktestMmMtf => "backtest_mm_mtf"@,
                RunKind::BacktestMmMtfSweep => "backtest_mm_mtf_sweep"@,
            }),
    {
        match self {
            RunKind::BacktestTrend => "backtest_trend",
            RunKind::BacktestTrendSweep => "backtest_trend_sweep",
            RunKind::BacktestMm => "backtest_mm",
            RunKind::BacktestMmMtf => "backtest_mm_mtf",
            RunKind::BacktestMmMtfSweep => "backtest_mm_mtf_sweep",
        }
    }
}

/// Lifecycle status of a run. Terminal statuses are `Completed` and
/// `Failed`.
#[derive(Clone, Copy, Debug, PartialEq, Eq, Structural)]
pub enum RunStatus {
    Queued,
    Running,
    Completed,
    Failed,
}

impl RunStatus {
    /// The schema label of this status.
    pub fn label(self) -> (r: &'static str)
        ensures
            r@ == (match self {
                RunStatus::Queued => "queued"@,
                RunStatus::Running => "running"@,
                RunStatus::Completed => "completed"@,
                RunStatus::Failed => "failed"@,
            }),
    {
        match self {
            RunStatus::Queued => "queued",
            RunStatus::Running => "running",
            RunStatus::Completed => "completed",
            RunStatus::Failed => "failed",
        }
    }
}

/// Whether two byte strings are equal.
pub fn bytes_eq(a: &[u8], b: &[u8]) -> (r: bool)
    ensures
        r == (a@ == b@),
{
    if a.len() != b.len() {
        proof {
            assert(a@.len() != b@.len());
        }
        return false;
    }
    let mut i: usize = 0;
    while i < a.len()
        invariant
            0 <= i <= a@.len(),
            a@.len() == b@.len(),
            forall|k: int| 0 <= k < i ==> a@[k] == b@[k],
        decreases a@.len() - i,
    {
        if a[i] != b[i] {
            return false;
        }
        i = i + 1;
    }
    proof {
        assert(a@ =~= b@);
    }
    true
}

/// Parse a schema label into a run kind.
pub fn parse_run_kind(s: &str) -> (r: Option<RunKind>)
    ensures
        (r is None) <==> (s.spec_bytes() != "backtest_trend".spec_bytes() && s.spec_bytes()
            != "backtest_trend_sweep".spec_bytes() && s.spec_bytes()
            != "backtest_mm".spec_bytes() && s.spec_bytes() != "backtest_mm_mtf".spec_bytes()
            && s.spec_bytes() != "backtest_mm_mtf_sweep".spec_bytes()),
        s.spec_bytes() == "backtest_trend".spec_bytes() ==> r == Some(RunKind::BacktestTrend),
        s.spec_bytes() != "backtest_trend".spec_bytes() && s.spec_bytes()
            == "backtest_trend_sweep".spec_bytes() ==> r == Some(RunKind::BacktestTrendSweep),
        s.spec_bytes() != "backtest_trend".spec_bytes() && s.spec_bytes()
            != "backtest_trend_sweep".spec_bytes() && s.spec_bytes()
            == "backtest_mm".spec_bytes() ==> r == Some(RunKind::BacktestMm),
        s.spec_bytes() != "backtest_trend".spec_bytes() && s.spec_bytes()
            != "backtest_trend_sweep".spec_bytes() && s.spec_bytes()
            != "backtest_mm".spec_bytes() && s.spec_bytes() == "backtest_mm_mtf".spec_bytes()
            ==> r == Some(RunKind::BacktestMmMtf),
        s.spec_bytes() != "backtest_trend".spec_bytes() && s.spec_bytes()
            != "backtest_trend_sweep".spec_bytes() && s.spec_bytes()
            != "backtest_mm".spec_bytes() && s.spec_bytes() != "backtest_mm_mtf".spec_bytes()
            && s.spec_bytes() == "backtest_mm_mtf_sweep".spec_bytes() ==> r == Some(
            RunKind::BacktestMmMtfSweep,
        ),
{
    let b = s.as_bytes();
    if bytes_eq(b, "backtest_trend".as_bytes()) {
        Some(RunKind::BacktestTrend)
    } else if bytes_eq(b, "backtest_trend_sweep".as_bytes()) {
        Some(RunKind::BacktestTrendSweep)
    } else if bytes_eq(b, "backtest_mm".as_bytes()) {
        Some(RunKind::BacktestMm)
    } else if bytes_eq(b, "backtest_mm_mtf".as_bytes()) {
        Some(RunKind::BacktestMmMtf)
    } else if bytes_eq(b, "backtest_mm_mtf_sweep".as_bytes()) {
        Some(RunKind::BacktestMmMtfSweep)
    } else {
        None
    }
}

/// Parse a schema label into a run status.
pub fn parse_run_status(s: &str) -> (r: Option<RunStatus>)
    ensures
        (r is None) <==> (s.spec_bytes() != "queued".spec_bytes() && s.spec_bytes()
            != "running".spec_bytes() && s.spec_bytes() != "completed".spec_bytes()
            && s.spec_bytes() != "failed".spec_bytes()),
        s.spec_bytes() == "queued".spec_bytes() ==> r == Some(RunStatus::Queued),
        s.spec_bytes() != "queued".spec_bytes() && s.spec_bytes() == "running".spec_bytes()
            ==> r == Some(RunStatus::Running),
        s.spec_bytes() != "queued".spec_bytes() && s.spec_bytes() != "running".spec_bytes()
            && s.spec_bytes() == "completed".spec_bytes() ==> r == Some(RunStatus::Completed),
        s.spec_bytes() != "queued".spec_bytes() && s.spec_bytes() != "running".spec_bytes()
            && s.spec_bytes() != "completed".spec_bytes() && s.spec_bytes()
            == "failed".spec_bytes() ==> r == Some(RunStatus::Failed),
{
    let b = s.as_bytes();
    if bytes_eq(b, "queued".as_bytes()) {
        Some(RunStatus::Queued)
    } else if bytes_eq(b, "running".as_bytes()) {
        Some(RunStatus::Running)
    } else if bytes_eq(b, "completed".as_bytes()) {
        Some(RunStatus::Completed)
    } else if bytes_eq(b, "failed".as_bytes()) {
        Some(RunStatus::Failed)
    } else {
        None
    }
}

/// The key of the durable run queue.
pub fn run_queue_key() -> (r: String)
    ensures
        r@ == "mmbot:run_queue"@,
{
    "mmbot:run_queue".to_owned()
}

/// An admission request.
#[derive(Clone, Debug)]
pub struct CreateRunRequest {
    pub name: String,
    pub kind: RunKind,
    pub cli_args: Vec<String>,
}

/// A run's lifecycle record.
#[derive(Clone, Debug)]
pub struct RunRecord {
    pub id: String,
    pub name: String,
    pub kind: RunKind,
    pub status: RunStatus,
    pub created_at: TimestampMs,
    pub started_at: Option<TimestampMs>,
    pub ended_at: Option<TimestampMs>,
    pub exit_code: Option<i32>,
    pub error: Option<String>,
}

/// One appended run event.
#[derive(Clone, Debug)]
pub struct RunEventRecord {
    pub id: i64,
    pub run_id: String,
    pub ts: TimestampMs,
    pub level: String,
    pub message: String,
}

/// Admission failures.
#[derive(Clone, Copy, Debug, PartialEq, Eq, Structural)]
pub enum AdmissionError {
    EmptyName,
}

/// All bytes are ASCII whitespace (so the name trims to nothing).
pub open spec fn spec_is_blank(s: Seq<u8>) -> bool {
    forall|i: int| 0 <= i < s.len() ==> is_space(#[trigger] s[i])
}

/// Whether the string trims to nothing.
pub fn is_blank(s: &str) -> (r: bool)
    ensures
        r == spec_is_blank(s.spec_bytes()),
{
    let b = s.as_bytes();
    let mut i: usize = 0;
    while i < b.len()
        invariant
            0 <= i <= b@.len(),
            b@ == s.spec_bytes(),
            forall|k: int| 0 <= k < i ==> is_space(#[trigger] b@[k]),
        decreases b@.len() - i,
    {
        let c = b[i];
        if !(c == 32 || c == 9 || c == 10 || c == 13) {
            return false;
        }
        i = i + 1;
    }
    true
}

/// Validate and admit a run request: a blank name is rejected; otherwise
/// the created record is `Queued` with the given identity and time and no
/// outcome fields set.
pub fn admit_run(req: &CreateRunRequest, id: String, now: TimestampMs) -> (r: Result<
    RunRecord,
    AdmissionError,
>)
    ensures
        (r is Err) <==> spec_is_blank(vstd::utf8::encode_utf8(req.name@)),
        (r matches Ok(rec) ==> {
            &&& rec.id@ == id@
            &&& rec.name@ == req.name@
            &&& rec.kind == req.kind
            &&& rec.status == RunStatus::Queued
            &&& rec.created_at == now
            &&& rec.started_at is None
            &&& rec.ended_at is None
            &&& rec.exit_code is None
            &&& rec.error is None
        }),
        (r is Err ==> r == Err::<RunRecord, AdmissionError>(AdmissionError::EmptyName)),
{
    if is_blank(req.name.as_str()) {
        return Err(AdmissionError::EmptyName);
    }
    Ok(
        RunRecord {
            id,
            name: req.name.clone(),
            kind: req.kind,
            status: RunStatus::Queued,
            created_at: now,
            started_at: None,
            ended_at: None,
            exit_code: None,
            error: None,
        },
    )
}

/// The worker picked the run up: mark it running, clear prior outcome.
pub fn mark_running(rec: RunRecord, now: TimestampMs) -> (r: RunRecord)
    ensures
        r.status == RunStatus::Running,
        r.started_at == Some(now),
        r.error is None,
        r.exit_code is None,
        r.id@ == rec.id@,
        r.name@ == rec.name@,
        r.kind == rec.kind,
        r.created_at == rec.created_at,
        r.ended_at == rec.ended_at,
{
    RunRecord {
        status: RunStatus::Running,
        started_at: Some(now),
        error: None,
        exit_code: None,
        ..rec
    }
}

/// The engine exited successfully: mark the run completed.
pub fn mark_completed(rec: RunRecord, now: TimestampMs, exit_code: i32) -> (r: RunRecord)
    ensures
        r.status == RunStatus::Completed,
        r.ended_at == Some(now),
        r.exit_code == Some(exit_code),
        r.id@ == rec.id@,
        r.name@ == rec.name@,
        r.kind == rec.kind,
        r.created_at == rec.created_at,
        r.started_at == rec.started_at,
        r.error == rec.error,
{
    RunRecord { status: RunStatus::Completed, ended_at: Some(now), exit_code: Some(exit_code), ..rec }
}

/// The run failed: record the exit code (or -1) and the error text.
pub fn mark_failed(rec: RunRecord, now: TimestampMs, exit_code: Option<i32>, error: String) -> (r:
    RunRecord)
    ensures
        r.status == RunStatus::Failed,
        r.ended_at == Some(now),
        r.exit_code == Some(match exit_code {
            Some(c) => c,
            None => -1int as i32,
        }),
        (r.error matches Some(e) && e@ == error@),
        r.id@ == rec.id@,
        r.name@ == rec.name@,
        r.kind == rec.kind,
        r.created_at == rec.created_at,
        r.started_at == rec.started_at,
{
    let code = match exit_code {
        Some(c) => c,
        None => -1,
    };
    RunRecord {
        status: RunStatus::Failed,
        ended_at: Some(now),
        exit_code: Some(code),
        error: Some(error),
        ..rec
    }
}

/// Options of the sweep preset; absent fields fall back to the fixed
/// defaults below.
#[derive(Clone, Debug)]
pub struct MmMtfSweepPreset {
    pub symbol: String,
    pub start: String,
    pub end: String,
    pub htf_interval: Option<String>,
    pub ltf_interval: Option<String>,
    pub maker_fee_bps_list: Option<String>,
    pub top_n: Option<u64>,
    pub summary_out: Option<String>,
}

/// Build the admission request of the MTF sweep preset: a fixed argument
/// grid over the given symbol and date range. The symbol and both dates
/// must be non-blank; the rest are configuration defaults.
pub fn build_mm_mtf_sweep_preset(p: &MmMtfSweepPreset) -> (r: Result<
    CreateRunRequest,
    AdmissionError,
>)
    ensures
        (r is Err) <==> (spec_is_blank(vstd::utf8::encode_utf8(p.symbol@)) || spec_is_blank(
            vstd::utf8::encode_utf8(p.start@),
        ) || spec_is_blank(vstd::utf8::encode_utf8(p.end@))),
        (r matches Ok(req) ==> {
            &&& req.kind == RunKind::BacktestMmMtfSweep
            &&& req.name@ == "mm_mtf_sweep "@ + p.symbol@ + " "@ + p.start@ + ".."@ + p.end@
            &&& req.cli_args@.len() == 54
            &&& req.cli_args@[0]@ == "--symbol"@
            &&& req.cli_args@[1]@ == p.symbol@
            &&& req.cli_args@[6]@ == "--start"@
            &&& req.cli_args@[7]@ == p.start@
            &&& req.cli_args@[8]@ == "--end"@
            &&& req.cli_args@[9]@ == p.end@
        }),
{
    if is_blank(p.symbol.as_str()) || is_blank(p.start.as_str()) || is_blank(p.end.as_str()) {
        return Err(AdmissionError::EmptyName);
    }
    let htf = match &p.htf_interval {
        Some(v) => v.clone(),
        None => "5".to_owned(),
    };
    let ltf = match &p.ltf_interval {
        Some(v) => v.clone(),
        None => "1".to_owned(),
    };
    let fees = match &p.maker_fee_bps_list {
        Some(v) => v.clone(),
        None => "10".to_owned(),
    };
    let top_n: u64 = match p.top_n {
        Some(n) => if n < 1 {
            1
        } else if n > 200 {
            200
        } else {
            n
        },
        None => 30,
    };
    let summary_out = match &p.summary_out {
        Some(v) => v.clone(),
        None => {
            let mut out = "data/mm_mtf_sweep_".to_owned();
            out.append(p.symbol.as_str());
            out.append("_");
            out.append(p.start.as_str());
            out.append("_");
            out.append(p.end.as_str());
            out.append(".csv");
            out
        }
    };
    let mut name = "mm_mtf_sweep ".to_owned();
    name.append(p.symbol.as_str());
    name.append(" ");
    name.append(p.start.as_str());
    name.append("..");
    name.append(p.end.as_str());

    let mut args: Vec<String> = Vec::new();
    args.push("--symbol".to_owned());
    args.push(p.symbol.clone());
    args.push("--htf-interval".to_owned());
    args.push(htf);
    args.push("--ltf-interval".to_owned());
    args.push(ltf);
    args.push("--start".to_owned());
    args.push(p.start.clone());
    args.push("--end".to_owned());
    args.push(p.end.clone());
    args.push("--htf-cache".to_owned());
    args.push("data/mm_mtf_htf_5m.csv".to_owned());
    args.push("--ltf-cache".to_owned());
    args.push("data/mm_mtf_ltf_1m.csv".to_owned());
    args.push("--levels-list".to_owned());
    args.push("3,5,7".to_owned());
    args.push("--step-bps-list".to_owned());
    args.push("6,8,10,12".to_owned());
    args.push("--base-quote-per-order-list".to_owned());
    args.push("20,30,40".to_owned());
    args.push("--max-size-mult-list".to_owned());
    args.push("1.5,2.0,2.5".to_owned());
    args.push("--soft-min-list".to_owned());
    args.push("0.35,0.40".to_owned());
    args.push("--soft-max-list".to_owned());
    args.push("0.55,0.60".to_owned());
    args.push("--hard-min-list".to_owned());
    args.push("0.30,0.35".to_owned());
    args.push("--hard-max-list".to_owned());
    args.push("0.65,0.70".to_owned());
    args.push("--maker-fee-bps-list".to_owned());
    args.push(fees);
    args.push("--defensive-step-mult-list".to_owned());
    args.push("1.2,1.5,1.8".to_owned());
    args.push("--defensive-size-mult-list".to_owned());
    args.push("0.35,0.5,0.7".to_owned());
    args.push("--initial-quote".to_owned());
    args.push("1000".to_owned());
    args.push("--initial-base".to_owned());
    args.push("0".to_owned());
    args.push("--bootstrap-rebalance".to_owned());
    args.push("--bootstrap-target-ratio".to_owned());
    args.push("0.50".to_owned());
    args.push("--force-close-at-end".to_owned());
    args.push("--force-close-fee-bps".to_owned());
    args.push("10".to_owned());
    args.push("--force-close-spread-bps".to_owned());
    args.push("8".to_owned());
    args.push("--force-close-slippage-bps".to_owned());
    args.push("2".to_owned());
    args.push("--top-n".to_owned());
    args.push(top_n.to_string());
    args.push("--summary-out".to_owned());
    args.push(summary_out);

    Ok(CreateRunRequest { name, kind: RunKind::BacktestMmMtfSweep, cli_args: args })
}

} // verus!
