//! Bounded candle feed: keeps the most recent `window` candles and exposes
//! the ATR and mid price over them.

use vstd::prelude::*;

use crate::atr::atr;
use crate::atr::spec_atr_val;
use crate::candle::Candle;
use crate::candle::candle_wf;
use crate::candle::candles_wf;
use crate::types::MAX_AMOUNT;
use crate::types::Price;

verus! {

/// A bounded window of recent candles.
pub struct CandleFeed {
    pub window: usize,
    pub candles: Vec<Candle>,
}

pub open spec fn feed_wf(f: CandleFeed) -> bool {
    &&& candles_wf(f.candles@)
    &&& f.candles@.len() <= f.window
}

/// The window after appending one candle and trimming to the bound.
pub open spec fn spec_feed_push(s: Seq<Candle>, w: int, c: Candle) -> Seq<Candle> {
    let s2 = s.push(c);
    if s2.len() <= w {
        s2
    } else {
        s2.subrange(s2.len() - w, s2.len() as int)
    }
}

impl CandleFeed {
    /// An empty feed bounded at `window` candles.
    pub fn new(window: usize) -> (r: Self)
        ensures
            r.window == window,
            r.candles@.len() == 0,
            feed_wf(r),
    {
        CandleFeed { window, candles: Vec::new() }
    }

    /// Append a candle, dropping the oldest if the window overflows.
    pub fn push(&mut self, c: Candle)
        requires
            feed_wf(*old(self)),
            candle_wf(c),
            crate::candle::candle_ts_ok(c),
        ensures
            feed_wf(*final(self)),
            final(self).window == old(self).window,
            final(self).candles@ == spec_feed_push(
                old(self).candles@,
                old(self).window as int,
                c,
            ),
    {
        self.candles.push(c);
        if self.candles.len() > self.window {
            self.candles.remove(0);
            proof {
                assert(self.candles@ =~= spec_feed_push(
                    old(self).candles@,
                    old(self).window as int,
                    c,
                ));
            }
        }
    }

    /// Mean true range over the window, once it holds two candles.
    pub fn atr(&self) -> (r: Option<Price>)
        requires
            feed_wf(*self),
        ensures
            self.candles@.len() < 2 ==> r is None,
            self.candles@.len() >= 2 ==> (r matches Some(p) && p.0 == spec_atr_val(self.candles@)
                && 0 <= p.0 <= MAX_AMOUNT),
    {
        atr(&self.candles)
    }

    /// Mid price: the close of the latest candle.
    pub fn mid(&self) -> (r: Option<Price>)
        ensures
            self.candles@.len() == 0 ==> r is None,
            self.candles@.len() > 0 ==> r == Some(
                self.candles@[self.candles@.len() - 1].close,
            ),
    {
        let n = self.candles.len();
        if n == 0 {
            None
        } else {
            Some(self.candles[n - 1].close)
        }
    }
}

} // verus!
