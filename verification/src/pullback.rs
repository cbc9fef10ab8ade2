//! Pullback detector: after a confirmed break of structure, watches for a
//! retracement back toward the broken level and latches once it triggers.

use vstd::prelude::*;

use crate::bos::BosState;
use crate::bos::BosTracker;
use crate::bos::bos_wf;
use crate::candle::Candle;
use crate::candle::candle_wf;
use crate::types::MAX_AMOUNT;
use crate::types::Price;
use crate::types::Ratio;
use crate::types::SCALE;
use crate::types::mul_div;

verus! {

/// Parameters of the pullback condition.
#[derive(Clone, Copy, Debug, PartialEq, Eq, Structural)]
pub struct PullbackParams {
    /// Fraction of ATR within which a close counts as a return to the level.
    pub epsilon_frac: Ratio,
    /// Fraction of the impulse that must be given back.
    pub retrace_frac: Ratio,
}

pub open spec fn pullback_params_wf(p: PullbackParams) -> bool {
    &&& 0 <= p.epsilon_frac.0 <= SCALE
    &&& 0 <= p.retrace_frac.0 <= SCALE
}

/// The detector value. `triggered` latches until reset.
#[derive(Clone, Copy, Debug, PartialEq, Eq)]
pub struct PullbackTracker {
    pub max_price_after_bos: Option<Price>,
    pub triggered: bool,
}

pub open spec fn pullback_wf(t: PullbackTracker) -> bool {
    t.max_price_after_bos matches Some(m) ==> 0 <= m.0 <= MAX_AMOUNT
}

/// One update of the detector on a candle close.
pub open spec fn spec_pullback_step(
    t: PullbackTracker,
    c: Candle,
    bos: BosTracker,
    atr: Price,
    p: PullbackParams,
) -> PullbackTracker {
    if bos.state != BosState::Confirmed || t.triggered {
        t
    } else {
        match bos.level {
            None => t,
            Some(level) => {
                let new_max = match t.max_price_after_bos {
                    Some(m) => if m.0 >= c.high.0 { m } else { c.high },
                    None => c.high,
                };
                let watching = PullbackTracker {
                    max_price_after_bos: Some(new_max),
                    triggered: false,
                };
                let impulse = new_max.0 - level.0;
                if impulse <= 0 {
                    watching
                } else {
                    let eps = atr.0 * p.epsilon_frac.0 / (SCALE as int);
                    let dist = if c.close.0 >= level.0 {
                        c.close.0 - level.0
                    } else {
                        level.0 - c.close.0
                    };
                    if dist <= eps {
                        PullbackTracker { max_price_after_bos: Some(new_max), triggered: true }
                    } else if new_max.0 - c.close.0 >= impulse * p.retrace_frac.0 / (SCALE as int) {
                        PullbackTracker { max_price_after_bos: Some(new_max), triggered: true }
                    } else {
                        watching
                    }
                }
            }
        }
    }
}

impl PullbackTracker {
    /// A detector with no history and the latch cleared.
    pub fn new() -> (r: Self)
        ensures
            r.max_price_after_bos is None,
            !r.triggered,
            pullback_wf(r),
    {
        PullbackTracker { max_price_after_bos: None, triggered: false }
    }

    /// Advance the detector by one closed candle. Only active while the BOS
    /// tracker is `Confirmed` and the latch has not yet triggered.
    pub fn on_candle_close(
        &mut self,
        candle: &Candle,
        bos: &BosTracker,
        atr: Price,
        params: PullbackParams,
    )
        requires
            pullback_wf(*old(self)),
            bos_wf(*bos),
            candle_wf(*candle),
            0 <= atr.0 <= MAX_AMOUNT,
            pullback_params_wf(params),
        ensures
            *final(self) == spec_pullback_step(*old(self), *candle, *bos, atr, params),
            pullback_wf(*final(self)),
    {
        if !matches!(bos.state, BosState::Confirmed) || self.triggered {
            return;
        }
        let bos_level = match bos.level {
            Some(l) => l,
            None => {
                return;
            }
        };
        self.max_price_after_bos = match self.max_price_after_bos {
            Some(max) => Some(if max.0 >= candle.high.0 { max } else { candle.high }),
            None => Some(candle.high),
        };
        let max_price = match self.max_price_after_bos {
            Some(m) => m,
            None => {
                return;
            }
        };
        let impulse = max_price.0 - bos_level.0;
        if impulse <= 0 {
            return;
        }
        // condition A: return to the broken level
        proof {
            assert(atr.0 * params.epsilon_frac.0 / (SCALE as int) <= atr.0)
                by (nonlinear_arith)
                requires 0 <= atr.0, 0 <= params.epsilon_frac.0 <= SCALE;
        }
        let epsilon = mul_div(atr.0, params.epsilon_frac.0, SCALE);
        let dist = if candle.close.0 >= bos_level.0 {
            candle.close.0 - bos_level.0
        } else {
            bos_level.0 - candle.close.0
        };
        if dist <= epsilon {
            self.triggered = true;
            return;
        }
        // condition B: the impulse retraced by the configured fraction
        let retrace = max_price.0 - candle.close.0;
        proof {
            assert(impulse * params.retrace_frac.0 / (SCALE as int) <= impulse)
                by (nonlinear_arith)
                requires 0 < impulse, 0 <= params.retrace_frac.0 <= SCALE;
        }
        if retrace >= mul_div(impulse, params.retrace_frac.0, SCALE) {
            self.triggered = true;
        }
    }

    /// Clear the history and the latch.
    pub fn reset(&mut self)
        ensures
            final(self).max_price_after_bos is None,
            !final(self).triggered,
            pullback_wf(*final(self)),
    {
        self.max_price_after_bos = None;
        self.triggered = false;
    }
}

} // verus!
