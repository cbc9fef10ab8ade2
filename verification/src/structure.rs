//! Market-structure detection: the most recent pivot high/low per side that
//! was followed by a retracement of at least `min_atr_frac * ATR`.

use vstd::prelude::*;

use crate::atr::atr;
use crate::atr::spec_atr_val;
use crate::candle::Candle;
use crate::candle::candles_wf;
use crate::pivot::is_pivot_high;
use crate::pivot::is_pivot_low;
use crate::pivot::spec_is_pivot_high;
use crate::pivot::spec_is_pivot_low;
use crate::types::MAX_AMOUNT;
use crate::types::Price;
use crate::types::Ratio;
use crate::types::SCALE;
use crate::types::mul_div;

verus! {

/// Parameters of structure detection.
#[derive(Clone, Copy, Debug, PartialEq, Eq, Structural)]
pub struct StructureParams {
    /// Pivot half-width.
    pub pivot_k: usize,
    /// Fraction of ATR a later bar must retrace for the pivot to count.
    pub min_atr_frac: Ratio,
}

pub open spec fn structure_params_wf(p: StructureParams) -> bool {
    0 <= p.min_atr_frac.0 <= SCALE
}

/// Last confirmed pivot high and low, if any.
#[derive(Clone, Copy, Debug, PartialEq, Eq)]
pub struct MarketStructure {
    pub last_high: Option<Price>,
    pub last_low: Option<Price>,
}

pub open spec fn structure_wf(ms: MarketStructure) -> bool {
    &&& (ms.last_high matches Some(h) ==> 0 <= h.0 <= MAX_AMOUNT)
    &&& (ms.last_low matches Some(l) ==> 0 <= l.0 <= MAX_AMOUNT)
}

/// Some bar after `i` dipped at least `min_move` below the high at `i`.
pub open spec fn spec_retraced_after_high(s: Seq<Candle>, i: int, min_move: int) -> bool {
    exists|j: int| i < j < s.len() && s[i].high.0 - #[trigger] s[j].low.0 >= min_move
}

/// Some bar after `i` rose at least `min_move` above the low at `i`.
pub open spec fn spec_retraced_after_low(s: Seq<Candle>, i: int, min_move: int) -> bool {
    exists|j: int| i < j < s.len() && #[trigger] s[j].high.0 - s[i].low.0 >= min_move
}

/// The last confirmed pivot high among bars `0..n`.
pub open spec fn spec_last_high_upto(s: Seq<Candle>, k: int, min_move: int, n: int) -> Option<
    Price,
>
    decreases n,
{
    if n <= 0 {
        None
    } else if spec_is_pivot_high(s, n - 1, k) && spec_retraced_after_high(s, n - 1, min_move) {
        Some(s[n - 1].high)
    } else {
        spec_last_high_upto(s, k, min_move, n - 1)
    }
}

/// The last confirmed pivot low among bars `0..n`.
pub open spec fn spec_last_low_upto(s: Seq<Candle>, k: int, min_move: int, n: int) -> Option<
    Price,
>
    decreases n,
{
    if n <= 0 {
        None
    } else if spec_is_pivot_low(s, n - 1, k) && spec_retraced_after_low(s, n - 1, min_move) {
        Some(s[n - 1].low)
    } else {
        spec_last_low_upto(s, k, min_move, n - 1)
    }
}

/// Whether any bar after `i` dips at least `min_move` below the high at `i`.
fn retraced_after_high(candles: &Vec<Candle>, i: usize, min_move: i64) -> (r: bool)
    requires
        i < candles@.len(),
        candles_wf(candles@),
        0 <= min_move,
    ensures
        r == spec_retraced_after_high(candles@, i as int, min_move as int),
{
    let n = candles.len();
    let hi = candles[i].high.0;
    let mut j: usize = i + 1;
    while j < n
        invariant
            i < j <= candles@.len(),
            n == candles@.len(),
            candles_wf(candles@),
            hi == candles@[i as int].high.0,
            forall|m: int| i < m < j ==> !(hi - #[trigger] candles@[m].low.0 >= min_move),
        decreases candles@.len() - j,
    {
        if hi - candles[j].low.0 >= min_move {
            return true;
        }
        j = j + 1;
    }
    false
}

/// Whether any bar after `i` rises at least `min_move` above the low at `i`.
fn retraced_after_low(candles: &Vec<Candle>, i: usize, min_move: i64) -> (r: bool)
    requires
        i < candles@.len(),
        candles_wf(candles@),
        0 <= min_move,
    ensures
        r == spec_retraced_after_low(candles@, i as int, min_move as int),
{
    let n = candles.len();
    let lo = candles[i].low.0;
    let mut j: usize = i + 1;
    while j < n
        invariant
            i < j <= candles@.len(),
            n == candles@.len(),
            candles_wf(candles@),
            lo == candles@[i as int].low.0,
            forall|m: int| i < m < j ==> !(#[trigger] candles@[m].high.0 - lo >= min_move),
        decreases candles@.len() - j,
    {
        if candles[j].high.0 - lo >= min_move {
            return true;
        }
        j = j + 1;
    }
    false
}

/// The minimum retracement a pivot must see: `min_atr_frac * ATR`.
pub open spec fn spec_min_move(s: Seq<Candle>, p: StructureParams) -> int {
    spec_atr_val(s) * p.min_atr_frac.0 / (SCALE as int)
}

/// The full snapshot as a value: both sides of the scan.
pub open spec fn spec_detect_structure(s: Seq<Candle>, p: StructureParams) -> MarketStructure {
    if s.len() < 2 {
        MarketStructure { last_high: None, last_low: None }
    } else {
        MarketStructure {
            last_high: spec_last_high_upto(
                s,
                p.pivot_k as int,
                spec_min_move(s, p),
                s.len() as int,
            ),
            last_low: spec_last_low_upto(
                s,
                p.pivot_k as int,
                spec_min_move(s, p),
                s.len() as int,
            ),
        }
    }
}

/// Scan the window and return, per side, the most recent pivot that was
/// followed by a retracement of at least `min_atr_frac * ATR`. With fewer
/// than two candles no ATR exists and both sides are `None`.
pub fn detect_structure(candles: &Vec<Candle>, params: StructureParams) -> (r: MarketStructure)
    requires
        candles_wf(candles@),
        structure_params_wf(params),
    ensures
        structure_wf(r),
        r == spec_detect_structure(candles@, params),
        candles@.len() < 2 ==> r.last_high is None && r.last_low is None,
        candles@.len() >= 2 ==> r.last_high == spec_last_high_upto(
            candles@,
            params.pivot_k as int,
            spec_min_move(candles@, params),
            candles@.len() as int,
        ),
        candles@.len() >= 2 ==> r.last_low == spec_last_low_upto(
            candles@,
            params.pivot_k as int,
            spec_min_move(candles@, params),
            candles@.len() as int,
        ),
{
    let atr_val = match atr(candles) {
        Some(v) => v,
        Option::None => {
            return MarketStructure { last_high: None, last_low: None };
        }
    };
    proof {
        assert(atr_val.0 * params.min_atr_frac.0 / (SCALE as int) <= atr_val.0)
            by (nonlinear_arith)
            requires 0 <= atr_val.0, 0 <= params.min_atr_frac.0 <= SCALE;
    }
    let min_move = mul_div(atr_val.0, params.min_atr_frac.0, SCALE);
    let ghost k = params.pivot_k as int;
    let mut last_high: Option<Price> = None;
    let mut last_low: Option<Price> = None;
    let mut i: usize = 0;
    while i < candles.len()
        invariant
            0 <= i <= candles@.len(),
            candles_wf(candles@),
            0 <= min_move,
            min_move == spec_min_move(candles@, params),
            k == params.pivot_k as int,
            last_high == spec_last_high_upto(candles@, k, min_move as int, i as int),
            last_low == spec_last_low_upto(candles@, k, min_move as int, i as int),
            (last_high matches Some(h) ==> 0 <= h.0 <= MAX_AMOUNT),
            (last_low matches Some(l) ==> 0 <= l.0 <= MAX_AMOUNT),
        decreases candles@.len() - i,
    {
        if is_pivot_high(candles, i, params.pivot_k) {
            if retraced_after_high(candles, i, min_move) {
                last_high = Some(candles[i].high);
            }
        }
        if is_pivot_low(candles, i, params.pivot_k) {
            if retraced_after_low(candles, i, min_move) {
                last_low = Some(candles[i].low);
            }
        }
        proof {
            // A pivot that did not retrace leaves the accumulator unchanged,
            // matching the recursive definition at `i + 1`.
            assert(spec_last_high_upto(candles@, k, min_move as int, i + 1) == (
                if spec_is_pivot_high(candles@, i as int, k)
                    && spec_retraced_after_high(candles@, i as int, min_move as int) {
                Some(candles@[i as int].high)
            } else {
                spec_last_high_upto(candles@, k, min_move as int, i as int)
            }));
            assert(spec_last_low_upto(candles@, k, min_move as int, i + 1) == (
                if spec_is_pivot_low(candles@, i as int, k)
                    && spec_retraced_after_low(candles@, i as int, min_move as int) {
                Some(candles@[i as int].low)
            } else {
                spec_last_low_upto(candles@, k, min_move as int, i as int)
            }));
        }
        i = i + 1;
    }
    MarketStructure { last_high, last_low }
}

} // verus!
