//! Parameter sweeps: Cartesian expansion over parameter lists with band
//! validation, a backtest per configuration, and top-N selection under the
//! rank order.

use vstd::prelude::*;

use crate::candle::Candle;
use crate::candle::candles_wf;
use crate::exec_sim::ExecutionModel;
use crate::exec_sim::exec_model_wf;
use crate::mm_backtest::MmMtfConfig;
use crate::mm_backtest::MmMtfReport;
use crate::mm_backtest::mm_mtf_config_wf;
use crate::mm_backtest::run_mm_mtf;
use crate::report::RankKey;
use crate::report::RankedEntry;
use crate::report::entries_wf;
use crate::report::rank_le;
use crate::report::rank_sort;
use crate::report::spec_insert_ranked;
use crate::report::spec_rank_sort;
use crate::trend_backtest::BacktestReport;
use crate::trend_backtest::EntryGate;
use crate::trend_backtest::SweepConfig;
use crate::trend_backtest::run_backtest;
use crate::trend_backtest::sweep_config_wf;
use crate::types::MAX_AMOUNT;
use crate::types::Money;
use crate::types::Qty;
use crate::types::Ratio;
use crate::types::SCALE;

verus! {

/// The band-ordering filter a sweep combination must pass:
/// `0 <= hard_min <= soft_min < soft_max <= hard_max <= 1`.
pub open spec fn spec_bands_valid(
    soft_min: int,
    soft_max: int,
    hard_min: int,
    hard_max: int,
) -> bool {
    &&& soft_min < soft_max
    &&& hard_min <= soft_min
    &&& soft_max <= hard_max
    &&& hard_min >= 0
    &&& hard_max <= SCALE
}

/// Check a band combination.
pub fn bands_valid(soft_min: Ratio, soft_max: Ratio, hard_min: Ratio, hard_max: Ratio) -> (r:
    bool)
    ensures
        r == spec_bands_valid(
            soft_min.0 as int,
            soft_max.0 as int,
            hard_min.0 as int,
            hard_max.0 as int,
        ),
{
    soft_min.0 < soft_max.0 && hard_min.0 <= soft_min.0 && soft_max.0 <= hard_max.0
        && hard_min.0 >= 0 && hard_max.0 <= SCALE
}

/// The rank key of a trend report.
pub open spec fn spec_trend_key(rep: BacktestReport) -> RankKey {
    RankKey {
        roi_pct: rep.roi_pct,
        max_drawdown_pct: rep.max_drawdown_pct,
        profit_factor: rep.profit_factor,
    }
}

/// The rank key of an MTF market-making report.
pub open spec fn spec_mtf_key(rep: MmMtfReport) -> RankKey {
    RankKey {
        roi_pct: rep.roi_pct,
        max_drawdown_pct: rep.max_drawdown_pct,
        profit_factor: rep.profit_factor,
    }
}

/// The ranking entries of the trend results, in order.
pub open spec fn spec_trend_entries(results: Seq<(SweepConfig, BacktestReport)>) -> Seq<
    RankedEntry,
> {
    Seq::new(
        results.len(),
        |i: int| RankedEntry { key: spec_trend_key(results[i].1), idx: i as usize },
    )
}

/// The ranking entries of the MTF results, in order.
pub open spec fn spec_mtf_entries(results: Seq<(MmMtfConfig, MmMtfReport)>) -> Seq<RankedEntry> {
    Seq::new(
        results.len(),
        |i: int| RankedEntry { key: spec_mtf_key(results[i].1), idx: i as usize },
    )
}

/// Every element of an insertion result is the inserted element or one of
/// the sequence it came from.
proof fn lemma_insert_ranked_membership(e: RankedEntry, s: Seq<RankedEntry>, i: int)
    requires
        0 <= i < spec_insert_ranked(e, s).len(),
    ensures
        spec_insert_ranked(e, s)[i] == e || exists|j: int|
            0 <= j < s.len() && spec_insert_ranked(e, s)[i] == s[j],
    decreases s.len(),
{
    let r = spec_insert_ranked(e, s);
    if s.len() == 0 {
    } else if rank_le(s[0].key, e.key) {
        let t = s.drop_first();
        if i == 0 {
            assert(r[0] == s[0]);
        } else {
            lemma_insert_ranked_membership(e, t, i - 1);
            assert(r[i] == spec_insert_ranked(e, t)[i - 1]);
            if spec_insert_ranked(e, t)[i - 1] != e {
                let j = choose|j: int|
                    0 <= j < t.len() && spec_insert_ranked(e, t)[i - 1] == t[j];
                assert(t[j] == s[j + 1]);
            }
        }
    } else {
        if i > 0 {
            assert(r[i] == s[i - 1]);
        }
    }
}

/// Every element of the sorted sequence is an element of its input.
proof fn lemma_rank_sort_membership(s: Seq<RankedEntry>, i: int)
    requires
        0 <= i < spec_rank_sort(s).len(),
    ensures
        exists|j: int| 0 <= j < s.len() && spec_rank_sort(s)[i] == s[j],
    decreases s.len(),
{
    if s.len() > 0 {
        let t = s.drop_last();
        let sorted_t = spec_rank_sort(t);
        lemma_insert_ranked_membership(s.last(), sorted_t, i);
        if spec_rank_sort(s)[i] == s.last() {
            assert(spec_rank_sort(s)[i] == s[s.len() - 1]);
        } else {
            let j = choose|j: int| 0 <= j < sorted_t.len() && spec_rank_sort(s)[i] == sorted_t[j];
            lemma_rank_sort_membership(t, j);
            let k = choose|k: int| 0 <= k < t.len() && sorted_t[j] == t[k];
            assert(t[k] == s[k]);
        }
    }
}

/// Rank the trend sweep results and keep the best `top_n`, best first.
pub fn top_trend_results(results: &Vec<(SweepConfig, BacktestReport)>, top_n: usize) -> (r: Vec<
    (SweepConfig, BacktestReport),
>)
    requires
        forall|i: int| 0 <= i < results@.len() ==> 0
            <= (#[trigger] results@[i]).1.profit_factor.gross_profit.0 && 0
            <= results@[i].1.profit_factor.gross_loss.0,
    ensures
        r@.len() == if top_n <= results@.len() { top_n as int } else { results@.len() as int },
        forall|a: int| 0 <= a < r@.len() ==> #[trigger] r@[a] == results@[
            spec_rank_sort(spec_trend_entries(results@))[a].idx as int
        ],
        forall|i: int, j: int| 0 <= i < j < r@.len() ==> rank_le(
            spec_trend_key((#[trigger] r@[i]).1),
            spec_trend_key((#[trigger] r@[j]).1),
        ),
{
    let mut entries: Vec<RankedEntry> = Vec::new();
    let mut i: usize = 0;
    while i < results.len()
        invariant
            0 <= i <= results@.len(),
            entries@.len() == i,
            forall|k: int| 0 <= k < results@.len() ==> 0
                <= (#[trigger] results@[k]).1.profit_factor.gross_profit.0 && 0
                <= results@[k].1.profit_factor.gross_loss.0,
            forall|k: int| 0 <= k < i ==> (#[trigger] entries@[k]) == (RankedEntry {
                key: spec_trend_key(results@[k].1),
                idx: k as usize,
            }),
            entries_wf(entries@),
        decreases results@.len() - i,
    {
        let rep = results[i].1;
        entries.push(
            RankedEntry {
                key: RankKey {
                    roi_pct: rep.roi_pct,
                    max_drawdown_pct: rep.max_drawdown_pct,
                    profit_factor: rep.profit_factor,
                },
                idx: i,
            },
        );
        i = i + 1;
    }
    proof {
        assert(entries@ =~= spec_trend_entries(results@));
    }
    let sorted = rank_sort(entries);
    proof {
        assert forall|a: int| 0 <= a < sorted@.len() implies ((#[trigger] sorted@[a]).idx
            < results@.len() && sorted@[a].key == spec_trend_key(
            results@[sorted@[a].idx as int].1,
        )) by {
            lemma_rank_sort_membership(entries@, a);
            let j = choose|j: int| 0 <= j < entries@.len() && sorted@[a] == entries@[j];
        }
    }
    let take_n = if top_n <= results.len() { top_n } else { results.len() };
    let mut out: Vec<(SweepConfig, BacktestReport)> = Vec::new();
    let mut k: usize = 0;
    while k < take_n
        invariant
            0 <= k <= take_n,
            take_n == if top_n <= results@.len() { top_n as int } else { results@.len() as int },
            sorted@.len() == results@.len(),
            out@.len() == k,
            forall|a: int| 0 <= a < sorted@.len() ==> {
                &&& (#[trigger] sorted@[a]).idx < results@.len()
                &&& sorted@[a].key == spec_trend_key(results@[sorted@[a].idx as int].1)
            },
            forall|a: int, b: int| 0 <= a < b < sorted@.len() ==> rank_le(
                (#[trigger] sorted@[a]).key,
                (#[trigger] sorted@[b]).key,
            ),
            forall|a: int| 0 <= a < k ==> (#[trigger] out@[a]) == results@[sorted@[a].idx as int],
            forall|a: int| 0 <= a < k ==> spec_trend_key((#[trigger] out@[a]).1)
                == sorted@[a].key,
        decreases take_n - k,
    {
        let e = sorted[k];
        out.push(results[e.idx]);
        k = k + 1;
    }
    out
}

/// Rank the MTF market-making sweep results and keep the best `top_n`.
pub fn top_mm_mtf_results(results: &Vec<(MmMtfConfig, MmMtfReport)>, top_n: usize) -> (r: Vec<
    (MmMtfConfig, MmMtfReport),
>)
    requires
        forall|i: int| 0 <= i < results@.len() ==> 0
            <= (#[trigger] results@[i]).1.profit_factor.gross_profit.0 && 0
            <= results@[i].1.profit_factor.gross_loss.0,
    ensures
        r@.len() == if top_n <= results@.len() { top_n as int } else { results@.len() as int },
        forall|a: int| 0 <= a < r@.len() ==> #[trigger] r@[a] == results@[
            spec_rank_sort(spec_mtf_entries(results@))[a].idx as int
        ],
        forall|i: int, j: int| 0 <= i < j < r@.len() ==> rank_le(
            spec_mtf_key((#[trigger] r@[i]).1),
            spec_mtf_key((#[trigger] r@[j]).1),
        ),
{
    let mut entries: Vec<RankedEntry> = Vec::new();
    let mut i: usize = 0;
    while i < results.len()
        invariant
            0 <= i <= results@.len(),
            entries@.len() == i,
            forall|k: int| 0 <= k < results@.len() ==> 0
                <= (#[trigger] results@[k]).1.profit_factor.gross_profit.0 && 0
                <= results@[k].1.profit_factor.gross_loss.0,
            forall|k: int| 0 <= k < i ==> (#[trigger] entries@[k]) == (RankedEntry {
                key: spec_mtf_key(results@[k].1),
                idx: k as usize,
            }),
            entries_wf(entries@),
        decreases results@.len() - i,
    {
        let rep = results[i].1;
        entries.push(
            RankedEntry {
                key: RankKey {
                    roi_pct: rep.roi_pct,
                    max_drawdown_pct: rep.max_drawdown_pct,
                    profit_factor: rep.profit_factor,
                },
                idx: i,
            },
        );
        i = i + 1;
    }
    proof {
        assert(entries@ =~= spec_mtf_entries(results@));
    }
    let sorted = rank_sort(entries);
    proof {
        assert forall|a: int| 0 <= a < sorted@.len() implies ((#[trigger] sorted@[a]).idx
            < results@.len() && sorted@[a].key == spec_mtf_key(
            results@[sorted@[a].idx as int].1,
        )) by {
            lemma_rank_sort_membership(entries@, a);
            let j = choose|j: int| 0 <= j < entries@.len() && sorted@[a] == entries@[j];
        }
    }
    let take_n = if top_n <= results.len() { top_n } else { results.len() };
    let mut out: Vec<(MmMtfConfig, MmMtfReport)> = Vec::new();
    let mut k: usize = 0;
    while k < take_n
        invariant
            0 <= k <= take_n,
            take_n == if top_n <= results@.len() { top_n as int } else { results@.len() as int },
            sorted@.len() == results@.len(),
            out@.len() == k,
            forall|a: int| 0 <= a < sorted@.len() ==> {
                &&& (#[trigger] sorted@[a]).idx < results@.len()
                &&& sorted@[a].key == spec_mtf_key(results@[sorted@[a].idx as int].1)
            },
            forall|a: int, b: int| 0 <= a < b < sorted@.len() ==> rank_le(
                (#[trigger] sorted@[a]).key,
                (#[trigger] sorted@[b]).key,
            ),
            forall|a: int| 0 <= a < k ==> (#[trigger] out@[a]) == results@[sorted@[a].idx as int],
            forall|a: int| 0 <= a < k ==> spec_mtf_key((#[trigger] out@[a]).1) == sorted@[a].key,
        decreases take_n - k,
    {
        let e = sorted[k];
        out.push(results[e.idx]);
        k = k + 1;
    }
    out
}

/// Run the trend backtest for every configuration, in order.
pub fn run_trend_sweep(
    candles: &Vec<Candle>,
    configs: &Vec<SweepConfig>,
    atr_stop_mult: Ratio,
    exec_model: ExecutionModel,
    initial_quote: Money,
    force_close_at_end: bool,
) -> (r: Vec<(SweepConfig, BacktestReport)>)
    requires
        candles_wf(candles@),
        forall|i: int| 0 <= i < configs@.len() ==> sweep_config_wf(#[trigger] configs@[i]),
        crate::trend_policy::trend_params_wf(
            crate::trend_policy::TrendPolicyParams { atr_stop_mult },
        ),
        exec_model_wf(exec_model),
        0 <= initial_quote.0 <= MAX_AMOUNT,
    ensures
        r@.len() == configs@.len(),
        forall|i: int| 0 <= i < r@.len() ==> (#[trigger] r@[i]).0 == configs@[i] && 0
            <= r@[i].1.profit_factor.gross_profit.0 && 0 <= r@[i].1.profit_factor.gross_loss.0,
{
    let mut out: Vec<(SweepConfig, BacktestReport)> = Vec::new();
    let mut i: usize = 0;
    while i < configs.len()
        invariant
            0 <= i <= configs@.len(),
            out@.len() == i,
            candles_wf(candles@),
            forall|k: int| 0 <= k < configs@.len() ==> sweep_config_wf(#[trigger] configs@[k]),
            crate::trend_policy::trend_params_wf(
                crate::trend_policy::TrendPolicyParams { atr_stop_mult },
            ),
            exec_model_wf(exec_model),
            0 <= initial_quote.0 <= MAX_AMOUNT,
            forall|k: int| 0 <= k < i ==> (#[trigger] out@[k]).0 == configs@[k] && 0
                <= out@[k].1.profit_factor.gross_profit.0 && 0
                <= out@[k].1.profit_factor.gross_loss.0,
        decreases configs@.len() - i,
    {
        let cfg = configs[i];
        let rep = run_backtest(
            candles,
            cfg,
            atr_stop_mult,
            exec_model,
            initial_quote,
            force_close_at_end,
        );
        out.push((cfg, rep));
        i = i + 1;
    }
    out
}

/// Run the MTF market-making backtest for every configuration, in order.
pub fn run_mm_mtf_sweep(
    htf: &Vec<Candle>,
    ltf: &Vec<Candle>,
    htf_ms: i64,
    configs: &Vec<MmMtfConfig>,
    min_base_qty: Qty,
    initial_quote: Money,
    initial_base: Qty,
    force_close_exec: ExecutionModel,
    force_close_at_end: bool,
    bootstrap_rebalance: bool,
    bootstrap_target_ratio: Ratio,
) -> (r: Vec<(MmMtfConfig, MmMtfReport)>)
    requires
        candles_wf(htf@),
        candles_wf(ltf@),
        htf@.len() >= 1,
        forall|i: int| 0 <= i < configs@.len() ==> mm_mtf_config_wf(#[trigger] configs@[i]),
        0 <= min_base_qty.0 <= MAX_AMOUNT,
        0 <= initial_quote.0 <= MAX_AMOUNT,
        0 <= initial_base.0 <= MAX_AMOUNT,
        exec_model_wf(force_close_exec),
        0 < htf_ms <= 1_000_000_000_000,
    ensures
        r@.len() == configs@.len(),
        forall|i: int| 0 <= i < r@.len() ==> (#[trigger] r@[i]).0 == configs@[i] && 0
            <= r@[i].1.profit_factor.gross_profit.0 && 0 <= r@[i].1.profit_factor.gross_loss.0,
{
    let mut out: Vec<(MmMtfConfig, MmMtfReport)> = Vec::new();
    let mut i: usize = 0;
    while i < configs.len()
        invariant
            0 <= i <= configs@.len(),
            out@.len() == i,
            candles_wf(htf@),
            candles_wf(ltf@),
            htf@.len() >= 1,
            forall|k: int| 0 <= k < configs@.len() ==> mm_mtf_config_wf(#[trigger] configs@[k]),
            0 <= min_base_qty.0 <= MAX_AMOUNT,
            0 <= initial_quote.0 <= MAX_AMOUNT,
            0 <= initial_base.0 <= MAX_AMOUNT,
            exec_model_wf(force_close_exec),
            0 < htf_ms <= 1_000_000_000_000,
            forall|k: int| 0 <= k < i ==> (#[trigger] out@[k]).0 == configs@[k] && 0
                <= out@[k].1.profit_factor.gross_profit.0 && 0
                <= out@[k].1.profit_factor.gross_loss.0,
        decreases configs@.len() - i,
    {
        let cfg = configs[i];
        let (rep, _rows, _fills) = run_mm_mtf(
            htf,
            ltf,
            htf_ms,
            cfg,
            min_base_qty,
            initial_quote,
            initial_base,
            force_close_exec,
            force_close_at_end,
            bootstrap_rebalance,
            bootstrap_target_ratio,
        );
        out.push((cfg, rep));
        i = i + 1;
    }
    out
}

/// Whether a trend sweep configuration is well formed (runtime check).
pub fn sweep_config_ok(c: &SweepConfig) -> (r: bool)
    ensures
        r == sweep_config_wf(*c),
{
    1 <= c.ema_fast && c.ema_fast <= 1_000_000 && 1 <= c.ema_slow && c.ema_slow <= 1_000_000
        && -MAX_AMOUNT <= c.min_trend_gap_bps.0 && c.min_trend_gap_bps.0 <= MAX_AMOUNT
        && -MAX_AMOUNT <= c.max_atr_pct.0 && c.max_atr_pct.0 <= MAX_AMOUNT
}

/// Whether an MTF market-making configuration is well formed (runtime
/// check), including that the defensive step keeps the whole ladder within
/// the representable step range.
pub fn mm_mtf_config_ok(c: &MmMtfConfig) -> (r: bool)
    ensures
        r == mm_mtf_config_wf(*c),
{
    if !(c.levels <= 10_000 && 1 <= c.step_bps.0 && c.step_bps.0 <= crate::types::MAX_BPS
        && 0 <= c.base_quote_per_order.0 && c.base_quote_per_order.0 <= MAX_AMOUNT
        && SCALE <= c.max_size_mult.0 && c.max_size_mult.0 <= 100 * SCALE
        && 0 <= c.hard_min.0 && c.hard_min.0 <= c.soft_min.0 && c.soft_min.0 <= c.soft_max.0
        && c.soft_max.0 <= c.hard_max.0 && c.hard_max.0 <= SCALE
        && 0 <= c.maker_fee_bps.0 && c.maker_fee_bps.0 <= 10_000
        && c.defensive_step_mult.0 <= 100 * SCALE
        && -MAX_AMOUNT <= c.defensive_size_mult.0 && c.defensive_size_mult.0 <= MAX_AMOUNT) {
        return false;
    }
    let eff = if c.defensive_step_mult.0 >= SCALE { c.defensive_step_mult.0 } else { SCALE };
    proof {
        assert(c.step_bps.0 * eff / (SCALE as int) <= c.step_bps.0 * 100) by (nonlinear_arith)
            requires 0 <= c.step_bps.0, SCALE <= eff <= 100 * SCALE, SCALE == 1_000_000;
        assert(c.step_bps.0 * 100 <= crate::types::MAX_BPS * 100) by (nonlinear_arith)
            requires 0 <= c.step_bps.0 <= crate::types::MAX_BPS;
    }
    let def_step = crate::types::mul_div(c.step_bps.0, eff, SCALE);
    proof {
        assert((c.levels as int) * (def_step as int) <= 10_000 * (crate::types::MAX_BPS * 100))
            by (nonlinear_arith)
            requires 0 <= c.levels <= 10_000, 0 <= def_step <= crate::types::MAX_BPS * 100;
    }
    (c.levels as i64) * def_step <= crate::types::MAX_BPS
}

/// One candidate configuration: emitted when the averages are ordered and
/// the parameters representable.
pub open spec fn spec_texp_unit(
    fa: usize,
    sl: usize,
    g: EntryGate,
    gap: crate::types::Bps,
    cd: u64,
    ap: Ratio,
) -> Seq<SweepConfig> {
    let cfg = SweepConfig {
        ema_fast: fa,
        ema_slow: sl,
        entry_gate: g,
        min_trend_gap_bps: gap,
        cooldown_bars: cd,
        max_atr_pct: ap,
    };
    if cfg.ema_fast < cfg.ema_slow && sweep_config_wf(cfg) {
        seq![cfg]
    } else {
        Seq::empty()
    }
}
pub open spec fn spec_texp_atr(fa: usize, sl: usize, g: EntryGate, gap: crate::types::Bps, cd: u64, atrs: Seq<Ratio>, n: int) -> Seq<SweepConfig>
    decreases n,
{
    if n <= 0 || n > atrs.len() {
        Seq::empty()
    } else {
        spec_texp_atr(fa, sl, g, gap, cd, atrs, n - 1) + spec_texp_unit(fa, sl, g, gap, cd, atrs[n - 1])
    }
}
pub open spec fn spec_texp_cool(fa: usize, sl: usize, g: EntryGate, gap: crate::types::Bps, cools: Seq<u64>, atrs: Seq<Ratio>, n: int) -> Seq<SweepConfig>
    decreases n,
{
    if n <= 0 || n > cools.len() {
        Seq::empty()
    } else {
        spec_texp_cool(fa, sl, g, gap, cools, atrs, n - 1) + spec_texp_atr(fa, sl, g, gap, cools[n - 1], atrs, atrs.len() as int)
    }
}
pub open spec fn spec_texp_gap(fa: usize, sl: usize, g: EntryGate, gaps: Seq<crate::types::Bps>, cools: Seq<u64>, atrs: Seq<Ratio>, n: int) -> Seq<SweepConfig>
    decreases n,
{
    if n <= 0 || n > gaps.len() {
        Seq::empty()
    } else {
        spec_texp_gap(fa, sl, g, gaps, cools, atrs, n - 1) + spec_texp_cool(fa, sl, g, gaps[n - 1], cools, atrs, cools.len() as int)
    }
}
pub open spec fn spec_texp_gate(fa: usize, sl: usize, gates: Seq<EntryGate>, gaps: Seq<crate::types::Bps>, cools: Seq<u64>, atrs: Seq<Ratio>, n: int) -> Seq<SweepConfig>
    decreases n,
{
    if n <= 0 || n > gates.len() {
        Seq::empty()
    } else {
        spec_texp_gate(fa, sl, gates, gaps, cools, atrs, n - 1) + spec_texp_gap(fa, sl, gates[n - 1], gaps, cools, atrs, gaps.len() as int)
    }
}
pub open spec fn spec_texp_slow(fa: usize, slows: Seq<usize>, gates: Seq<EntryGate>, gaps: Seq<crate::types::Bps>, cools: Seq<u64>, atrs: Seq<Ratio>, n: int) -> Seq<SweepConfig>
    decreases n,
{
    if n <= 0 || n > slows.len() {
        Seq::empty()
    } else {
        spec_texp_slow(fa, slows, gates, gaps, cools, atrs, n - 1) + spec_texp_gate(fa, slows[n - 1], gates, gaps, cools, atrs, gates.len() as int)
    }
}
pub open spec fn spec_texp_fast(fasts: Seq<usize>, slows: Seq<usize>, gates: Seq<EntryGate>, gaps: Seq<crate::types::Bps>, cools: Seq<u64>, atrs: Seq<Ratio>, n: int) -> Seq<SweepConfig>
    decreases n,
{
    if n <= 0 || n > fasts.len() {
        Seq::empty()
    } else {
        spec_texp_fast(fasts, slows, gates, gaps, cools, atrs, n - 1) + spec_texp_slow(fasts[n - 1], slows, gates, gaps, cools, atrs, slows.len() as int)
    }
}
/// Cartesian expansion of the trend sweep lists: exactly every combination
/// (in list order) with `ema_fast < ema_slow` and representable parameters.
pub fn expand_trend_configs(
    ema_fast_list: &Vec<usize>,
    ema_slow_list: &Vec<usize>,
    gate_list: &Vec<EntryGate>,
    gap_list: &Vec<crate::types::Bps>,
    cooldown_list: &Vec<u64>,
    atr_pct_list: &Vec<Ratio>,
) -> (r: Vec<SweepConfig>)
    ensures
        r@ == spec_texp_fast(
            ema_fast_list@,
            ema_slow_list@,
            gate_list@,
            gap_list@,
            cooldown_list@,
            atr_pct_list@,
            ema_fast_list@.len() as int,
        ),
        forall|i: int| 0 <= i < r@.len() ==> sweep_config_wf(#[trigger] r@[i])
            && r@[i].ema_fast < r@[i].ema_slow,
{
    let ghost fasts = ema_fast_list@;
    let ghost slows = ema_slow_list@;
    let ghost gates = gate_list@;
    let ghost gaps = gap_list@;
    let ghost cools = cooldown_list@;
    let ghost atrs = atr_pct_list@;
    let mut out: Vec<SweepConfig> = Vec::new();
    let mut a1: usize = 0;
    while a1 < ema_fast_list.len()
        invariant
            0 <= a1 <= fasts.len(),
            fasts == ema_fast_list@, slows == ema_slow_list@, gates == gate_list@,
            gaps == gap_list@, cools == cooldown_list@, atrs == atr_pct_list@,
            out@ =~= spec_texp_fast(fasts, slows, gates, gaps, cools, atrs, a1 as int),
            forall|i: int| 0 <= i < out@.len() ==> sweep_config_wf(#[trigger] out@[i])
                && out@[i].ema_fast < out@[i].ema_slow,
        decreases fasts.len() - a1,
    {
        let fa = ema_fast_list[a1];
        let ghost o1 = out@;
        let mut b1: usize = 0;
        while b1 < ema_slow_list.len()
            invariant
                0 <= b1 <= slows.len(),
                a1 < fasts.len(),
                fa == fasts[a1 as int],
                fasts == ema_fast_list@, slows == ema_slow_list@, gates == gate_list@,
                gaps == gap_list@, cools == cooldown_list@, atrs == atr_pct_list@,
                o1 =~= spec_texp_fast(fasts, slows, gates, gaps, cools, atrs, a1 as int),
                out@ =~= o1 + spec_texp_slow(fa, slows, gates, gaps, cools, atrs, b1 as int),
                forall|i: int| 0 <= i < out@.len() ==> sweep_config_wf(#[trigger] out@[i])
                    && out@[i].ema_fast < out@[i].ema_slow,
            decreases slows.len() - b1,
        {
            let sl = ema_slow_list[b1];
            let ghost o2 = out@;
            let mut c1: usize = 0;
            while c1 < gate_list.len()
                invariant
                    0 <= c1 <= gates.len(),
                    b1 < slows.len(),
                    sl == slows[b1 as int],
                    a1 < fasts.len(),
                    fa == fasts[a1 as int],
                    fasts == ema_fast_list@, slows == ema_slow_list@, gates == gate_list@,
                    gaps == gap_list@, cools == cooldown_list@, atrs == atr_pct_list@,
                    out@ =~= o2 + spec_texp_gate(fa, sl, gates, gaps, cools, atrs, c1 as int),
                    forall|i: int| 0 <= i < out@.len() ==> sweep_config_wf(
                        #[trigger] out@[i],
                    ) && out@[i].ema_fast < out@[i].ema_slow,
                decreases gates.len() - c1,
            {
                let g = gate_list[c1];
                let ghost o3 = out@;
                let mut d1: usize = 0;
                while d1 < gap_list.len()
                    invariant
                        0 <= d1 <= gaps.len(),
                        c1 < gates.len(),
                        g == gates[c1 as int],
                        b1 < slows.len(),
                        sl == slows[b1 as int],
                        a1 < fasts.len(),
                        fa == fasts[a1 as int],
                        fasts == ema_fast_list@, slows == ema_slow_list@,
                        gates == gate_list@, gaps == gap_list@, cools == cooldown_list@,
                        atrs == atr_pct_list@,
                        out@ =~= o3 + spec_texp_gap(fa, sl, g, gaps, cools, atrs, d1 as int),
                        forall|i: int| 0 <= i < out@.len() ==> sweep_config_wf(
                            #[trigger] out@[i],
                        ) && out@[i].ema_fast < out@[i].ema_slow,
                    decreases gaps.len() - d1,
                {
                    let gap = gap_list[d1];
                    let ghost o4 = out@;
                    let mut e1: usize = 0;
                    while e1 < cooldown_list.len()
                        invariant
                            0 <= e1 <= cools.len(),
                            d1 < gaps.len(),
                            gap == gaps[d1 as int],
                            c1 < gates.len(),
                            g == gates[c1 as int],
                            b1 < slows.len(),
                            sl == slows[b1 as int],
                            a1 < fasts.len(),
                            fa == fasts[a1 as int],
                            fasts == ema_fast_list@, slows == ema_slow_list@,
                            gates == gate_list@, gaps == gap_list@,
                            cools == cooldown_list@, atrs == atr_pct_list@,
                            out@ =~= o4 + spec_texp_cool(
                                fa, sl, g, gap, cools, atrs, e1 as int,
                            ),
                            forall|i: int| 0 <= i < out@.len() ==> sweep_config_wf(
                                #[trigger] out@[i],
                            ) && out@[i].ema_fast < out@[i].ema_slow,
                        decreases cools.len() - e1,
                    {
                        let cd = cooldown_list[e1];
                        let ghost o5 = out@;
                        let mut f1: usize = 0;
                        while f1 < atr_pct_list.len()
                            invariant
                                0 <= f1 <= atrs.len(),
                                e1 < cools.len(),
                                cd == cools[e1 as int],
                                d1 < gaps.len(),
                                gap == gaps[d1 as int],
                                c1 < gates.len(),
                                g == gates[c1 as int],
                                b1 < slows.len(),
                                sl == slows[b1 as int],
                                a1 < fasts.len(),
                                fa == fasts[a1 as int],
                                fasts == ema_fast_list@, slows == ema_slow_list@,
                                gates == gate_list@, gaps == gap_list@,
                                cools == cooldown_list@, atrs == atr_pct_list@,
                                out@ =~= o5 + spec_texp_atr(
                                    fa, sl, g, gap, cd, atrs, f1 as int,
                                ),
                                forall|i: int| 0 <= i < out@.len() ==> sweep_config_wf(
                                    #[trigger] out@[i],
                                ) && out@[i].ema_fast < out@[i].ema_slow,
                            decreases atrs.len() - f1,
                        {
                            let cfg = SweepConfig {
                                ema_fast: fa,
                                ema_slow: sl,
                                entry_gate: g,
                                min_trend_gap_bps: gap,
                                cooldown_bars: cd,
                                max_atr_pct: atr_pct_list[f1],
                            };
                            if cfg.ema_fast < cfg.ema_slow && sweep_config_ok(&cfg) {
                                out.push(cfg);
                            }
                            proof {
                                assert(out@ =~= o5 + spec_texp_atr(
                                    fa, sl, g, gap, cd, atrs, f1 + 1int,
                                ));
                            }
                            f1 = f1 + 1;
                        }
                        proof {
                            assert(out@ =~= o4 + spec_texp_cool(
                                fa, sl, g, gap, cools, atrs, e1 + 1int,
                            ));
                        }
                        e1 = e1 + 1;
                    }
                    proof {
                        assert(out@ =~= o3 + spec_texp_gap(
                            fa, sl, g, gaps, cools, atrs, d1 + 1int,
                        ));
                    }
                    d1 = d1 + 1;
                }
                proof {
                    assert(out@ =~= o2 + spec_texp_gate(
                        fa, sl, gates, gaps, cools, atrs, c1 + 1int,
                    ));
                }
                c1 = c1 + 1;
            }
            proof {
                assert(out@ =~= o1 + spec_texp_slow(
                    fa, slows, gates, gaps, cools, atrs, b1 + 1int,
                ));
            }
            b1 = b1 + 1;
        }
        proof {
            assert(out@ =~= spec_texp_fast(
                fasts, slows, gates, gaps, cools, atrs, a1 + 1int,
            ));
        }
        a1 = a1 + 1;
    }
    out
}

/// One candidate MTF configuration: emitted when the bands pass the
/// ordering filter and the parameters are representable.
pub open spec fn spec_mexp_unit(
    lv: usize,
    stp: crate::types::Bps,
    bq: Money,
    ms: Ratio,
    smn: Ratio,
    smx: Ratio,
    hmn: Ratio,
    hmx: Ratio,
    fee: crate::types::Bps,
    dst: Ratio,
    dsz: Ratio,
) -> Seq<MmMtfConfig> {
    let cfg = MmMtfConfig {
        levels: lv,
        step_bps: stp,
        base_quote_per_order: bq,
        max_size_mult: ms,
        soft_min: smn,
        soft_max: smx,
        hard_min: hmn,
        hard_max: hmx,
        maker_fee_bps: fee,
        defensive_step_mult: dst,
        defensive_size_mult: dsz,
    };
    if spec_bands_valid(smn.0 as int, smx.0 as int, hmn.0 as int, hmx.0 as int)
        && mm_mtf_config_wf(cfg) {
        seq![cfg]
    } else {
        Seq::empty()
    }
}
pub open spec fn spec_mexp_dsize(lv: usize, stp: crate::types::Bps, bq: Money, ms: Ratio, smn: Ratio, smx: Ratio, hmn: Ratio, hmx: Ratio, fee: crate::types::Bps, dst: Ratio, l_dsizes: Seq<Ratio>, n: int) -> Seq<MmMtfConfig>
    decreases n,
{
    if n <= 0 || n > l_dsizes.len() {
        Seq::empty()
    } else {
        spec_mexp_dsize(lv, stp, bq, ms, smn, smx, hmn, hmx, fee, dst, l_dsizes, n - 1) + spec_mexp_unit(lv, stp, bq, ms, smn, smx, hmn, hmx, fee, dst, l_dsizes[n - 1])
    }
}
pub open spec fn spec_mexp_dstep(lv: usize, stp: crate::types::Bps, bq: Money, ms: Ratio, smn: Ratio, smx: Ratio, hmn: Ratio, hmx: Ratio, fee: crate::types::Bps, l_dsteps: Seq<Ratio>, l_dsizes: Seq<Ratio>, n: int) -> Seq<MmMtfConfig>
    decreases n,
{
    if n <= 0 || n > l_dsteps.len() {
        Seq::empty()
    } else {
        spec_mexp_dstep(lv, stp, bq, ms, smn, smx, hmn, hmx, fee, l_dsteps, l_dsizes, n - 1) + spec_mexp_dsize(lv, stp, bq, ms, smn, smx, hmn, hmx, fee, l_dsteps[n - 1], l_dsizes, l_dsizes.len() as int)
    }
}
pub open spec fn spec_mexp_fee(lv: usize, stp: crate::types::Bps, bq: Money, ms: Ratio, smn: Ratio, smx: Ratio, hmn: Ratio, hmx: Ratio, l_fees: Seq<crate::types::Bps>, l_dsteps: Seq<Ratio>, l_dsizes: Seq<Ratio>, n: int) -> Seq<MmMtfConfig>
    decreases n,
{
    if n <= 0 || n > l_fees.len() {
        Seq::empty()
    } else {
        spec_mexp_fee(lv, stp, bq, ms, smn, smx, hmn, hmx, l_fees, l_dsteps, l_dsizes, n - 1) + spec_mexp_dstep(lv, stp, bq, ms, smn, smx, hmn, hmx, l_fees[n - 1], l_dsteps, l_dsizes, l_dsteps.len() as int)
    }
}
pub open spec fn spec_mexp_hmax(lv: usize, stp: crate::types::Bps, bq: Money, ms: Ratio, smn: Ratio, smx: Ratio, hmn: Ratio, l_hmaxs: Seq<Ratio>, l_fees: Seq<crate::types::Bps>, l_dsteps: Seq<Ratio>, l_dsizes: Seq<Ratio>, n: int) -> Seq<MmMtfConfig>
    decreases n,
{
    if n <= 0 || n > l_hmaxs.len() {
        Seq::empty()
    } else {
        spec_mexp_hmax(lv, stp, bq, ms, smn, smx, hmn, l_hmaxs, l_fees, l_dsteps, l_dsizes, n - 1) + spec_mexp_fee(lv, stp, bq, ms, smn, smx, hmn, l_hmaxs[n - 1], l_fees, l_dsteps, l_dsizes, l_fees.len() as int)
    }
}
pub open spec fn spec_mexp_hmin(lv: usize, stp: crate::types::Bps, bq: Money, ms: Ratio, smn: Ratio, smx: Ratio, l_hmins: Seq<Ratio>, l_hmaxs: Seq<Ratio>, l_fees: Seq<crate::types::Bps>, l_dsteps: Seq<Ratio>, l_dsizes: Seq<Ratio>, n: int) -> Seq<MmMtfConfig>
    decreases n,
{
    if n <= 0 || n > l_hmins.len() {
        Seq::empty()
    } else {
        spec_mexp_hmin(lv, stp, bq, ms, smn, smx, l_hmins, l_hmaxs, l_fees, l_dsteps, l_dsizes, n - 1) + spec_mexp_hmax(lv, stp, bq, ms, smn, smx, l_hmins[n - 1], l_hmaxs, l_fees, l_dsteps, l_dsizes, l_hmaxs.len() as int)
    }
}
pub open spec fn spec_mexp_smax(lv: usize, stp: crate::types::Bps, bq: Money, ms: Ratio, smn: Ratio, l_smaxs: Seq<Ratio>, l_hmins: Seq<Ratio>, l_hmaxs: Seq<Ratio>, l_fees: Seq<crate::types::Bps>, l_dsteps: Seq<Ratio>, l_dsizes: Seq<Ratio>, n: int) -> Seq<MmMtfConfig>
    decreases n,
{
    if n <= 0 || n > l_smaxs.len() {
        Seq::empty()
    } else {
        spec_mexp_smax(lv, stp, bq, ms, smn, l_smaxs, l_hmins, l_hmaxs, l_fees, l_dsteps, l_dsizes, n - 1) + spec_mexp_hmin(lv, stp, bq, ms, smn, l_smaxs[n - 1], l_hmins, l_hmaxs, l_fees, l_dsteps, l_dsizes, l_hmins.len() as int)
    }
}
pub open spec fn spec_mexp_smin(lv: usize, stp: crate::types::Bps, bq: Money, ms: Ratio, l_smins: Seq<Ratio>, l_smaxs: Seq<Ratio>, l_hmins: Seq<Ratio>, l_hmaxs: Seq<Ratio>, l_fees: Seq<crate::types::Bps>, l_dsteps: Seq<Ratio>, l_dsizes: Seq<Ratio>, n: int) -> Seq<MmMtfConfig>
    decreases n,
{
    if n <= 0 || n > l_smins.len() {
        Seq::empty()
    } else {
        spec_mexp_smin(lv, stp, bq, ms, l_smins, l_smaxs, l_hmins, l_hmaxs, l_fees, l_dsteps, l_dsizes, n - 1) + spec_mexp_smax(lv, stp, bq, ms, l_smins[n - 1], l_smaxs, l_hmins, l_hmaxs, l_fees, l_dsteps, l_dsizes, l_smaxs.len() as int)
    }
}
pub open spec fn spec_mexp_msm(lv: usize, stp: crate::types::Bps, bq: Money, l_msms: Seq<Ratio>, l_smins: Seq<Ratio>, l_smaxs: Seq<Ratio>, l_hmins: Seq<Ratio>, l_hmaxs: Seq<Ratio>, l_fees: Seq<crate::types::Bps>, l_dsteps: Seq<Ratio>, l_dsizes: Seq<Ratio>, n: int) -> Seq<MmMtfConfig>
    decreases n,
{
    if n <= 0 || n > l_msms.len() {
        Seq::empty()
    } else {
        spec_mexp_msm(lv, stp, bq, l_msms, l_smins, l_smaxs, l_hmins, l_hmaxs, l_fees, l_dsteps, l_dsizes, n - 1) + spec_mexp_smin(lv, stp, bq, l_msms[n - 1], l_smins, l_smaxs, l_hmins, l_hmaxs, l_fees, l_dsteps, l_dsizes, l_smins.len() as int)
    }
}
pub open spec fn spec_mexp_bqpo(lv: usize, stp: crate::types::Bps, l_bqpos: Seq<Money>, l_msms: Seq<Ratio>, l_smins: Seq<Ratio>, l_smaxs: Seq<Ratio>, l_hmins: Seq<Ratio>, l_hmaxs: Seq<Ratio>, l_fees: Seq<crate::types::Bps>, l_dsteps: Seq<Ratio>, l_dsizes: Seq<Ratio>, n: int) -> Seq<MmMtfConfig>
    decreases n,
{
    if n <= 0 || n > l_bqpos.len() {
        Seq::empty()
    } else {
        spec_mexp_bqpo(lv, stp, l_bqpos, l_msms, l_smins, l_smaxs, l_hmins, l_hmaxs, l_fees, l_dsteps, l_dsizes, n - 1) + spec_mexp_msm(lv, stp, l_bqpos[n - 1], l_msms, l_smins, l_smaxs, l_hmins, l_hmaxs, l_fees, l_dsteps, l_dsizes, l_msms.len() as int)
    }
}
pub open spec fn spec_mexp_step(lv: usize, l_steps: Seq<crate::types::Bps>, l_bqpos: Seq<Money>, l_msms: Seq<Ratio>, l_smins: Seq<Ratio>, l_smaxs: Seq<Ratio>, l_hmins: Seq<Ratio>, l_hmaxs: Seq<Ratio>, l_fees: Seq<crate::types::Bps>, l_dsteps: Seq<Ratio>, l_dsizes: Seq<Ratio>, n: int) -> Seq<MmMtfConfig>
    decreases n,
{
    if n <= 0 || n > l_steps.len() {
        Seq::empty()
    } else {
        spec_mexp_step(lv, l_steps, l_bqpos, l_msms, l_smins, l_smaxs, l_hmins, l_hmaxs, l_fees, l_dsteps, l_dsizes, n - 1) + spec_mexp_bqpo(lv, l_steps[n - 1], l_bqpos, l_msms, l_smins, l_smaxs, l_hmins, l_hmaxs, l_fees, l_dsteps, l_dsizes, l_bqpos.len() as int)
    }
}
pub open spec fn spec_mexp_levels(l_levels: Seq<usize>, l_steps: Seq<crate::types::Bps>, l_bqpos: Seq<Money>, l_msms: Seq<Ratio>, l_smins: Seq<Ratio>, l_smaxs: Seq<Ratio>, l_hmins: Seq<Ratio>, l_hmaxs: Seq<Ratio>, l_fees: Seq<crate::types::Bps>, l_dsteps: Seq<Ratio>, l_dsizes: Seq<Ratio>, n: int) -> Seq<MmMtfConfig>
    decreases n,
{
    if n <= 0 || n > l_levels.len() {
        Seq::empty()
    } else {
        spec_mexp_levels(l_levels, l_steps, l_bqpos, l_msms, l_smins, l_smaxs, l_hmins, l_hmaxs, l_fees, l_dsteps, l_dsizes, n - 1) + spec_mexp_step(l_levels[n - 1], l_steps, l_bqpos, l_msms, l_smins, l_smaxs, l_hmins, l_hmaxs, l_fees, l_dsteps, l_dsizes, l_steps.len() as int)
    }
}
/// Cartesian expansion of the MTF market-making sweep lists: exactly every
/// combination (in list order) whose bands pass the ordering filter and
/// whose parameters are representable.
#[verifier::rlimit(100)]
pub fn expand_mm_mtf_configs(
    levels_list: &Vec<usize>,
    step_list: &Vec<crate::types::Bps>,
    bqpo_list: &Vec<Money>,
    msm_list: &Vec<Ratio>,
    soft_min_list: &Vec<Ratio>,
    soft_max_list: &Vec<Ratio>,
    hard_min_list: &Vec<Ratio>,
    hard_max_list: &Vec<Ratio>,
    fee_list: &Vec<crate::types::Bps>,
    dstep_list: &Vec<Ratio>,
    dsize_list: &Vec<Ratio>,
) -> (r: Vec<MmMtfConfig>)
    ensures
        r@ == spec_mexp_levels(
            levels_list@,
            step_list@,
            bqpo_list@,
            msm_list@,
            soft_min_list@,
            soft_max_list@,
            hard_min_list@,
            hard_max_list@,
            fee_list@,
            dstep_list@,
            dsize_list@,
            levels_list@.len() as int,
        ),
        forall|i: int| 0 <= i < r@.len() ==> mm_mtf_config_wf(#[trigger] r@[i]),
{
    let ghost l_levels = levels_list@;
    let ghost l_steps = step_list@;
    let ghost l_bqpos = bqpo_list@;
    let ghost l_msms = msm_list@;
    let ghost l_smins = soft_min_list@;
    let ghost l_smaxs = soft_max_list@;
    let ghost l_hmins = hard_min_list@;
    let ghost l_hmaxs = hard_max_list@;
    let ghost l_fees = fee_list@;
    let ghost l_dsteps = dstep_list@;
    let ghost l_dsizes = dsize_list@;
    let mut out: Vec<MmMtfConfig> = Vec::new();
    let mut a1: usize = 0;
    while a1 < levels_list.len()
        invariant
            0 <= a1 <= l_levels.len(),
            l_levels == levels_list@, l_steps == step_list@, l_bqpos == bqpo_list@, l_msms == msm_list@, l_smins == soft_min_list@, l_smaxs == soft_max_list@, l_hmins == hard_min_list@, l_hmaxs == hard_max_list@, l_fees == fee_list@, l_dsteps == dstep_list@, l_dsizes == dsize_list@,
            out@ =~= spec_mexp_levels(l_levels, l_steps, l_bqpos, l_msms, l_smins, l_smaxs, l_hmins, l_hmaxs, l_fees, l_dsteps, l_dsizes, a1 as int),
            forall|i: int| 0 <= i < out@.len() ==> mm_mtf_config_wf(#[trigger] out@[i]),
        decreases l_levels.len() - a1,
    {
        let lv = levels_list[a1];
        let ghost o1 = out@;
        let mut b1: usize = 0;
        while b1 < step_list.len()
            invariant
                0 <= b1 <= l_steps.len(),
                l_levels == levels_list@, l_steps == step_list@, l_bqpos == bqpo_list@, l_msms == msm_list@, l_smins == soft_min_list@, l_smaxs == soft_max_list@, l_hmins == hard_min_list@, l_hmaxs == hard_max_list@, l_fees == fee_list@, l_dsteps == dstep_list@, l_dsizes == dsize_list@,
                a1 < l_levels.len(),
                lv == l_levels[a1 as int],
                out@ =~= o1 + spec_mexp_step(lv, l_steps, l_bqpos, l_msms, l_smins, l_smaxs, l_hmins, l_hmaxs, l_fees, l_dsteps, l_dsizes, b1 as int),
                forall|i: int| 0 <= i < out@.len() ==> mm_mtf_config_wf(#[trigger] out@[i]),
            decreases l_steps.len() - b1,
        {
            let stp = step_list[b1];
            let ghost o2 = out@;
            let mut c1: usize = 0;
            while c1 < bqpo_list.len()
                invariant
                    0 <= c1 <= l_bqpos.len(),
                    l_levels == levels_list@, l_steps == step_list@, l_bqpos == bqpo_list@, l_msms == msm_list@, l_smins == soft_min_list@, l_smaxs == soft_max_list@, l_hmins == hard_min_list@, l_hmaxs == hard_max_list@, l_fees == fee_list@, l_dsteps == dstep_list@, l_dsizes == dsize_list@,
                    a1 < l_levels.len(),
                    lv == l_levels[a1 as int],
                    b1 < l_steps.len(),
                    stp == l_steps[b1 as int],
                    out@ =~= o2 + spec_mexp_bqpo(lv, stp, l_bqpos, l_msms, l_smins, l_smaxs, l_hmins, l_hmaxs, l_fees, l_dsteps, l_dsizes, c1 as int),
                    forall|i: int| 0 <= i < out@.len() ==> mm_mtf_config_wf(#[trigger] out@[i]),
                decreases l_bqpos.len() - c1,
            {
                let bq = bqpo_list[c1];
                let ghost o3 = out@;
                let mut d1: usize = 0;
                while d1 < msm_list.len()
                    invariant
                        0 <= d1 <= l_msms.len(),
                        l_levels == levels_list@, l_steps == step_list@, l_bqpos == bqpo_list@, l_msms == msm_list@, l_smins == soft_min_list@, l_smaxs == soft_max_list@, l_hmins == hard_min_list@, l_hmaxs == hard_max_list@, l_fees == fee_list@, l_dsteps == dstep_list@, l_dsizes == dsize_list@,
                        a1 < l_levels.len(),
                        lv == l_levels[a1 as int],
                        b1 < l_steps.len(),
                        stp == l_steps[b1 as int],
                        c1 < l_bqpos.len(),
                        bq == l_bqpos[c1 as int],
                        out@ =~= o3 + spec_mexp_msm(lv, stp, bq, l_msms, l_smins, l_smaxs, l_hmins, l_hmaxs, l_fees, l_dsteps, l_dsizes, d1 as int),
                        forall|i: int| 0 <= i < out@.len() ==> mm_mtf_config_wf(#[trigger] out@[i]),
                    decreases l_msms.len() - d1,
                {
                    let ms = msm_list[d1];
                    let ghost o4 = out@;
                    let mut e1: usize = 0;
                    while e1 < soft_min_list.len()
                        invariant
                            0 <= e1 <= l_smins.len(),
                            l_levels == levels_list@, l_steps == step_list@, l_bqpos == bqpo_list@, l_msms == msm_list@, l_smins == soft_min_list@, l_smaxs == soft_max_list@, l_hmins == hard_min_list@, l_hmaxs == hard_max_list@, l_fees == fee_list@, l_dsteps == dstep_list@, l_dsizes == dsize_list@,
                            a1 < l_levels.len(),
                            lv == l_levels[a1 as int],
                            b1 < l_steps.len(),
                            stp == l_steps[b1 as int],
                            c1 < l_bqpos.len(),
                            bq == l_bqpos[c1 as int],
                            d1 < l_msms.len(),
                            ms == l_msms[d1 as int],
                            out@ =~= o4 + spec_mexp_smin(lv, stp, bq, ms, l_smins, l_smaxs, l_hmins, l_hmaxs, l_fees, l_dsteps, l_dsizes, e1 as int),
                            forall|i: int| 0 <= i < out@.len() ==> mm_mtf_config_wf(#[trigger] out@[i]),
                        decreases l_smins.len() - e1,
                    {
                        let smn = soft_min_list[e1];
                        let ghost o5 = out@;
                        let mut f1: usize = 0;
                        while f1 < soft_max_list.len()
                            invariant
                                0 <= f1 <= l_smaxs.len(),
                                l_levels == levels_list@, l_steps == step_list@, l_bqpos == bqpo_list@, l_msms == msm_list@, l_smins == soft_min_list@, l_smaxs == soft_max_list@, l_hmins == hard_min_list@, l_hmaxs == hard_max_list@, l_fees == fee_list@, l_dsteps == dstep_list@, l_dsizes == dsize_list@,
                                a1 < l_levels.len(),
                                lv == l_levels[a1 as int],
                                b1 < l_steps.len(),
                                stp == l_steps[b1 as int],
                                c1 < l_bqpos.len(),
                                bq == l_bqpos[c1 as int],
                                d1 < l_msms.len(),
                                ms == l_msms[d1 as int],
                                e1 < l_smins.len(),
                                smn == l_smins[e1 as int],
                                out@ =~= o5 + spec_mexp_smax(lv, stp, bq, ms, smn, l_smaxs, l_hmins, l_hmaxs, l_fees, l_dsteps, l_dsizes, f1 as int),
                                forall|i: int| 0 <= i < out@.len() ==> mm_mtf_config_wf(#[trigger] out@[i]),
                            decreases l_smaxs.len() - f1,
                        {
                            let smx = soft_max_list[f1];
                            let ghost o6 = out@;
                            let mut g1: usize = 0;
                            while g1 < hard_min_list.len()
                                invariant
                                    0 <= g1 <= l_hmins.len(),
                                    l_levels == levels_list@, l_steps == step_list@, l_bqpos == bqpo_list@, l_msms == msm_list@, l_smins == soft_min_list@, l_smaxs == soft_max_list@, l_hmins == hard_min_list@, l_hmaxs == hard_max_list@, l_fees == fee_list@, l_dsteps == dstep_list@, l_dsizes == dsize_list@,
                                    a1 < l_levels.len(),
                                    lv == l_levels[a1 as int],
                                    b1 < l_steps.len(),
                                    stp == l_steps[b1 as int],
                                    c1 < l_bqpos.len(),
                                    bq == l_bqpos[c1 as int],
                                    d1 < l_msms.len(),
                                    ms == l_msms[d1 as int],
                                    e1 < l_smins.len(),
                                    smn == l_smins[e1 as int],
                                    f1 < l_smaxs.len(),
                                    smx == l_smaxs[f1 as int],
                                    out@ =~= o6 + spec_mexp_hmin(lv, stp, bq, ms, smn, smx, l_hmins, l_hmaxs, l_fees, l_dsteps, l_dsizes, g1 as int),
                                    forall|i: int| 0 <= i < out@.len() ==> mm_mtf_config_wf(#[trigger] out@[i]),
                                decreases l_hmins.len() - g1,
                            {
                                let hmn = hard_min_list[g1];
                                let ghost o7 = out@;
                                let mut h1: usize = 0;
                                while h1 < hard_max_list.len()
                                    invariant
                                        0 <= h1 <= l_hmaxs.len(),
                                        l_levels == levels_list@, l_steps == step_list@, l_bqpos == bqpo_list@, l_msms == msm_list@, l_smins == soft_min_list@, l_smaxs == soft_max_list@, l_hmins == hard_min_list@, l_hmaxs == hard_max_list@, l_fees == fee_list@, l_dsteps == dstep_list@, l_dsizes == dsize_list@,
                                        a1 < l_levels.len(),
                                        lv == l_levels[a1 as int],
                                        b1 < l_steps.len(),
                                        stp == l_steps[b1 as int],
                                        c1 < l_bqpos.len(),
                                        bq == l_bqpos[c1 as int],
                                        d1 < l_msms.len(),
                                        ms == l_msms[d1 as int],
                                        e1 < l_smins.len(),
                                        smn == l_smins[e1 as int],
                                        f1 < l_smaxs.len(),
                                        smx == l_smaxs[f1 as int],
                                        g1 < l_hmins.len(),
                                        hmn == l_hmins[g1 as int],
                                        out@ =~= o7 + spec_mexp_hmax(lv, stp, bq, ms, smn, smx, hmn, l_hmaxs, l_fees, l_dsteps, l_dsizes, h1 as int),
                                        forall|i: int| 0 <= i < out@.len() ==> mm_mtf_config_wf(#[trigger] out@[i]),
                                    decreases l_hmaxs.len() - h1,
                                {
                                    let hmx = hard_max_list[h1];
                                    let ghost o8 = out@;
                                    let mut i1: usize = 0;
                                    while i1 < fee_list.len()
                                        invariant
                                            0 <= i1 <= l_fees.len(),
                                            l_levels == levels_list@, l_steps == step_list@, l_bqpos == bqpo_list@, l_msms == msm_list@, l_smins == soft_min_list@, l_smaxs == soft_max_list@, l_hmins == hard_min_list@, l_hmaxs == hard_max_list@, l_fees == fee_list@, l_dsteps == dstep_list@, l_dsizes == dsize_list@,
                                            a1 < l_levels.len(),
                                            lv == l_levels[a1 as int],
                                            b1 < l_steps.len(),
                                            stp == l_steps[b1 as int],
                                            c1 < l_bqpos.len(),
                                            bq == l_bqpos[c1 as int],
                                            d1 < l_msms.len(),
                                            ms == l_msms[d1 as int],
                                            e1 < l_smins.len(),
                                            smn == l_smins[e1 as int],
                                            f1 < l_smaxs.len(),
                                            smx == l_smaxs[f1 as int],
                                            g1 < l_hmins.len(),
                                            hmn == l_hmins[g1 as int],
                                            h1 < l_hmaxs.len(),
                                            hmx == l_hmaxs[h1 as int],
                                            out@ =~= o8 + spec_mexp_fee(lv, stp, bq, ms, smn, smx, hmn, hmx, l_fees, l_dsteps, l_dsizes, i1 as int),
                                            forall|i: int| 0 <= i < out@.len() ==> mm_mtf_config_wf(#[trigger] out@[i]),
                                        decreases l_fees.len() - i1,
                                    {
                                        let fee = fee_list[i1];
                                        let ghost o9 = out@;
                                        let mut j1: usize = 0;
                                        while j1 < dstep_list.len()
                                            invariant
                                                0 <= j1 <= l_dsteps.len(),
                                                l_levels == levels_list@, l_steps == step_list@, l_bqpos == bqpo_list@, l_msms == msm_list@, l_smins == soft_min_list@, l_smaxs == soft_max_list@, l_hmins == hard_min_list@, l_hmaxs == hard_max_list@, l_fees == fee_list@, l_dsteps == dstep_list@, l_dsizes == dsize_list@,
                                                a1 < l_levels.len(),
                                                lv == l_levels[a1 as int],
                                                b1 < l_steps.len(),
                                                stp == l_steps[b1 as int],
                                                c1 < l_bqpos.len(),
                                                bq == l_bqpos[c1 as int],
                                                d1 < l_msms.len(),
                                                ms == l_msms[d1 as int],
                                                e1 < l_smins.len(),
                                                smn == l_smins[e1 as int],
                                                f1 < l_smaxs.len(),
                                                smx == l_smaxs[f1 as int],
                                                g1 < l_hmins.len(),
                                                hmn == l_hmins[g1 as int],
                                                h1 < l_hmaxs.len(),
                                                hmx == l_hmaxs[h1 as int],
                                                i1 < l_fees.len(),
                                                fee == l_fees[i1 as int],
                                                out@ =~= o9 + spec_mexp_dstep(lv, stp, bq, ms, smn, smx, hmn, hmx, fee, l_dsteps, l_dsizes, j1 as int),
                                                forall|i: int| 0 <= i < out@.len() ==> mm_mtf_config_wf(#[trigger] out@[i]),
                                            decreases l_dsteps.len() - j1,
                                        {
                                            let dst = dstep_list[j1];
                                            let ghost o10 = out@;
                                            let mut k1: usize = 0;
                                            while k1 < dsize_list.len()
                                                invariant
                                                    0 <= k1 <= l_dsizes.len(),
                                                    l_levels == levels_list@, l_steps == step_list@, l_bqpos == bqpo_list@, l_msms == msm_list@, l_smins == soft_min_list@, l_smaxs == soft_max_list@, l_hmins == hard_min_list@, l_hmaxs == hard_max_list@, l_fees == fee_list@, l_dsteps == dstep_list@, l_dsizes == dsize_list@,
                                                    a1 < l_levels.len(),
                                                    lv == l_levels[a1 as int],
                                                    b1 < l_steps.len(),
                                                    stp == l_steps[b1 as int],
                                                    c1 < l_bqpos.len(),
                                                    bq == l_bqpos[c1 as int],
                                                    d1 < l_msms.len(),
                                                    ms == l_msms[d1 as int],
                                                    e1 < l_smins.len(),
                                                    smn == l_smins[e1 as int],
                                                    f1 < l_smaxs.len(),
                                                    smx == l_smaxs[f1 as int],
                                                    g1 < l_hmins.len(),
                                                    hmn == l_hmins[g1 as int],
                                                    h1 < l_hmaxs.len(),
                                                    hmx == l_hmaxs[h1 as int],
                                                    i1 < l_fees.len(),
                                                    fee == l_fees[i1 as int],
                                                    j1 < l_dsteps.len(),
                                                    dst == l_dsteps[j1 as int],
                                                    out@ =~= o10 + spec_mexp_dsize(lv, stp, bq, ms, smn, smx, hmn, hmx, fee, dst, l_dsizes, k1 as int),
                                                    forall|i: int| 0 <= i < out@.len() ==> mm_mtf_config_wf(#[trigger] out@[i]),
                                                decreases l_dsizes.len() - k1,
                                            {
                                                let dsz = dsize_list[k1];
                                                let cfg = MmMtfConfig {
                                                    levels: lv,
                                                    step_bps: stp,
                                                    base_quote_per_order: bq,
                                                    max_size_mult: ms,
                                                    soft_min: smn,
                                                    soft_max: smx,
                                                    hard_min: hmn,
                                                    hard_max: hmx,
                                                    maker_fee_bps: fee,
                                                    defensive_step_mult: dst,
                                                    defensive_size_mult: dsz,
                                                };
                                                if bands_valid(cfg.soft_min, cfg.soft_max, cfg.hard_min, cfg.hard_max)
                                                    && mm_mtf_config_ok(&cfg) {
                                                    out.push(cfg);
                                                }
                                                proof {
                                                    assert(out@ =~= o10 + spec_mexp_dsize(lv, stp, bq, ms, smn, smx, hmn, hmx, fee, dst, l_dsizes, k1 + 1int));
                                                }
                                                k1 = k1 + 1;
                                            }
                                            proof {
                                                assert(out@ =~= o9 + spec_mexp_dstep(lv, stp, bq, ms, smn, smx, hmn, hmx, fee, l_dsteps, l_dsizes, j1 + 1int));
                                            }
                                            j1 = j1 + 1;
                                        }
                                        proof {
                                            assert(out@ =~= o8 + spec_mexp_fee(lv, stp, bq, ms, smn, smx, hmn, hmx, l_fees, l_dsteps, l_dsizes, i1 + 1int));
                                        }
                                        i1 = i1 + 1;
                                    }
                                    proof {
                                        assert(out@ =~= o7 + spec_mexp_hmax(lv, stp, bq, ms, smn, smx, hmn, l_hmaxs, l_fees, l_dsteps, l_dsizes, h1 + 1int));
                                    }
                                    h1 = h1 + 1;
                                }
                                proof {
                                    assert(out@ =~= o6 + spec_mexp_hmin(lv, stp, bq, ms, smn, smx, l_hmins, l_hmaxs, l_fees, l_dsteps, l_dsizes, g1 + 1int));
                                }
                                g1 = g1 + 1;
                            }
                            proof {
                                assert(out@ =~= o5 + spec_mexp_smax(lv, stp, bq, ms, smn, l_smaxs, l_hmins, l_hmaxs, l_fees, l_dsteps, l_dsizes, f1 + 1int));
                            }
                            f1 = f1 + 1;
                        }
                        proof {
                            assert(out@ =~= o4 + spec_mexp_smin(lv, stp, bq, ms, l_smins, l_smaxs, l_hmins, l_hmaxs, l_fees, l_dsteps, l_dsizes, e1 + 1int));
                        }
                        e1 = e1 + 1;
                    }
                    proof {
                        assert(out@ =~= o3 + spec_mexp_msm(lv, stp, bq, l_msms, l_smins, l_smaxs, l_hmins, l_hmaxs, l_fees, l_dsteps, l_dsizes, d1 + 1int));
                    }
                    d1 = d1 + 1;
                }
                proof {
                    assert(out@ =~= o2 + spec_mexp_bqpo(lv, stp, l_bqpos, l_msms, l_smins, l_smaxs, l_hmins, l_hmaxs, l_fees, l_dsteps, l_dsizes, c1 + 1int));
                }
                c1 = c1 + 1;
            }
            proof {
                assert(out@ =~= o1 + spec_mexp_step(lv, l_steps, l_bqpos, l_msms, l_smins, l_smaxs, l_hmins, l_hmaxs, l_fees, l_dsteps, l_dsizes, b1 + 1int));
            }
            b1 = b1 + 1;
        }
        proof {
            assert(out@ =~= spec_mexp_levels(l_levels, l_steps, l_bqpos, l_msms, l_smins, l_smaxs, l_hmins, l_hmaxs, l_fees, l_dsteps, l_dsizes, a1 + 1int));
        }
        a1 = a1 + 1;
    }
    out
}

} // verus!
