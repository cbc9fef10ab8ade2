//! OHLCV candles and timeframes.

use vstd::prelude::*;

use crate::types::MAX_AMOUNT;
use crate::types::Price;
use crate::types::Qty;
use crate::types::TimestampMs;
use crate::types::amount_ok;

verus! {

/// One closed OHLCV bar.
#[derive(Clone, Copy, Debug, PartialEq, Eq, Structural)]
pub struct Candle {
    pub ts: TimestampMs,
    pub open: Price,
    pub high: Price,
    pub low: Price,
    pub close: Price,
    pub volume: Qty,
}

/// A candle whose prices and volume are non-negative, in-range amounts.
pub open spec fn candle_wf(c: Candle) -> bool {
    &&& 0 <= c.open.0 <= MAX_AMOUNT
    &&& 0 <= c.high.0 <= MAX_AMOUNT
    &&& 0 <= c.low.0 <= MAX_AMOUNT
    &&& 0 <= c.close.0 <= MAX_AMOUNT
    &&& amount_ok(c.volume.0)
}

/// Timestamps within a practical epoch range, so that window arithmetic
/// never overflows.
pub open spec fn candle_ts_ok(c: Candle) -> bool {
    -4_000_000_000_000_000 <= c.ts.0 <= 4_000_000_000_000_000
}

/// Every candle of the sequence is well formed.
pub open spec fn candles_wf(s: Seq<Candle>) -> bool {
    forall|i: int| 0 <= i < s.len() ==> candle_wf(#[trigger] s[i]) && candle_ts_ok(#[trigger] s[i])
}

/// Candle intervals the live feed consumes.
#[derive(Clone, Copy, Debug, PartialEq, Eq, Structural)]
pub enum Timeframe {
    Min1,
    Min5,
    Min15,
}

impl Timeframe {
    /// Length of the interval in milliseconds.
    pub fn as_millis(self) -> (r: i64)
        ensures
            r == (match self {
                Timeframe::Min1 => 60_000int,
                Timeframe::Min5 => 300_000int,
                Timeframe::Min15 => 900_000int,
            }),
    {
        match self {
            Timeframe::Min1 => 60_000,
            Timeframe::Min5 => 5 * 60_000,
            Timeframe::Min15 => 15 * 60_000,
        }
    }
}

} // verus!
