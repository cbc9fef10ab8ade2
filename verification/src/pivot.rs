//! Pivot highs and lows: bars strictly above (below) their `k` neighbours on
//! each side.

use vstd::prelude::*;

use crate::candle::Candle;
use crate::types::Price;

verus! {

/// Which side a pivot belongs to.
#[derive(Clone, Copy, Debug, PartialEq, Eq, Structural)]
pub enum PivotKind {
    High,
    Low,
}

/// A confirmed pivot.
#[derive(Clone, Copy, Debug, PartialEq, Eq, Structural)]
pub struct Pivot {
    pub index: usize,
    pub price: Price,
    pub kind: PivotKind,
}

/// Bar `i` is a pivot high with half-width `k`: it has `k` bars on each side
/// and every one of them has a strictly smaller high.
pub open spec fn spec_is_pivot_high(s: Seq<Candle>, i: int, k: int) -> bool {
    &&& k <= i
    &&& i + k < s.len()
    &&& forall|j: int| i - k <= j < i ==> #[trigger] s[j].high.0 < s[i].high.0
    &&& forall|j: int| i < j <= i + k ==> #[trigger] s[j].high.0 < s[i].high.0
}

/// Bar `i` is a pivot low with half-width `k`.
pub open spec fn spec_is_pivot_low(s: Seq<Candle>, i: int, k: int) -> bool {
    &&& k <= i
    &&& i + k < s.len()
    &&& forall|j: int| i - k <= j < i ==> #[trigger] s[j].low.0 > s[i].low.0
    &&& forall|j: int| i < j <= i + k ==> #[trigger] s[j].low.0 > s[i].low.0
}

/// Whether candle `i` is a pivot high with half-width `k`.
pub fn is_pivot_high(candles: &Vec<Candle>, i: usize, k: usize) -> (r: bool)
    ensures
        r == spec_is_pivot_high(candles@, i as int, k as int),
{
    if i < k || i >= candles.len() || candles.len() - i <= k {
        return false;
    }
    let end: usize = i + k;
    let hi = candles[i].high.0;
    let mut j: usize = i - k;
    while j < i
        invariant
            i - k <= j <= i,
            k <= i < candles@.len(),
            i + k < candles@.len(),
            hi == candles@[i as int].high.0,
            forall|m: int| i - k <= m < j ==> #[trigger] candles@[m].high.0 < hi,
        decreases i - j,
    {
        if candles[j].high.0 >= hi {
            return false;
        }
        j = j + 1;
    }
    let mut j2: usize = i + 1;
    while j2 <= end
        invariant
            i + 1 <= j2 <= end + 1,
            end == i + k,
            candles@.len() <= usize::MAX,
            k <= i < candles@.len(),
            i + k < candles@.len(),
            hi == candles@[i as int].high.0,
            forall|m: int| i - k <= m < i ==> #[trigger] candles@[m].high.0 < hi,
            forall|m: int| i < m < j2 ==> #[trigger] candles@[m].high.0 < hi,
        decreases end + 1 - j2,
    {
        if candles[j2].high.0 >= hi {
            return false;
        }
        j2 = j2 + 1;
    }
    true
}

/// Whether candle `i` is a pivot low with half-width `k`.
pub fn is_pivot_low(candles: &Vec<Candle>, i: usize, k: usize) -> (r: bool)
    ensures
        r == spec_is_pivot_low(candles@, i as int, k as int),
{
    if i < k || i >= candles.len() || candles.len() - i <= k {
        return false;
    }
    let end: usize = i + k;
    let lo = candles[i].low.0;
    let mut j: usize = i - k;
    while j < i
        invariant
            i - k <= j <= i,
            k <= i < candles@.len(),
            i + k < candles@.len(),
            lo == candles@[i as int].low.0,
            forall|m: int| i - k <= m < j ==> #[trigger] candles@[m].low.0 > lo,
        decreases i - j,
    {
        if candles[j].low.0 <= lo {
            return false;
        }
        j = j + 1;
    }
    let mut j2: usize = i + 1;
    while j2 <= end
        invariant
            i + 1 <= j2 <= end + 1,
            end == i + k,
            candles@.len() <= usize::MAX,
            k <= i < candles@.len(),
            i + k < candles@.len(),
            lo == candles@[i as int].low.0,
            forall|m: int| i - k <= m < i ==> #[trigger] candles@[m].low.0 > lo,
            forall|m: int| i < m < j2 ==> #[trigger] candles@[m].low.0 > lo,
        decreases end + 1 - j2,
    {
        if candles[j2].low.0 <= lo {
            return false;
        }
        j2 = j2 + 1;
    }
    true
}

} // verus!
