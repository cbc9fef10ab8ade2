//! Break-of-structure tracker: a state machine over a price level with a
//! confirmation window, updated once per candle close.

use vstd::prelude::*;

use crate::candle::Candle;
use crate::candle::candle_wf;
use crate::structure::MarketStructure;
use crate::structure::structure_wf;
use crate::types::MAX_AMOUNT;
use crate::types::Price;
use crate::types::Ratio;
use crate::types::SCALE;
use crate::types::TimestampMs;
use crate::types::mul_div;

verus! {

/// Phases of a break of structure.
#[derive(Clone, Copy, Debug, PartialEq, Eq, Structural)]
pub enum BosState {
    Idle,
    Potential,
    Confirmed,
    Failed,
}

/// The tracker value. `level` is present exactly while a break is being
/// watched or has been confirmed.
#[derive(Clone, Copy, Debug, PartialEq, Eq)]
pub struct BosTracker {
    pub state: BosState,
    pub level: Option<Price>,
    pub started_at: Option<TimestampMs>,
    pub confirmed_candles: usize,
}

/// Parameters: confirmation window and the epsilon fraction of ATR.
#[derive(Clone, Copy, Debug, PartialEq, Eq, Structural)]
pub struct BosParams {
    pub confirm_candles: usize,
    pub epsilon_frac: Ratio,
}

pub open spec fn bos_params_wf(p: BosParams) -> bool {
    0 <= p.epsilon_frac.0 <= SCALE
}

/// Invariant: the level is held exactly in `Potential` and `Confirmed`, and
/// is a well-formed price.
pub open spec fn bos_wf(t: BosTracker) -> bool {
    &&& (t.state == BosState::Potential || t.state == BosState::Confirmed) <==> t.level is Some
    &&& (t.level matches Some(l) ==> 0 <= l.0 <= MAX_AMOUNT)
}

/// The freshly reset tracker.
pub open spec fn spec_bos_reset() -> BosTracker {
    BosTracker { state: BosState::Idle, level: None, started_at: None, confirmed_candles: 0 }
}

/// The breakout threshold: `epsilon = ATR * epsilon_frac`.
pub open spec fn spec_bos_epsilon(atr: Price, p: BosParams) -> int {
    atr.0 * p.epsilon_frac.0 / (SCALE as int)
}

/// One update of the tracker on a candle close.
pub open spec fn spec_bos_step(
    t: BosTracker,
    c: Candle,
    st: MarketStructure,
    atr: Price,
    p: BosParams,
) -> BosTracker {
    let eps = spec_bos_epsilon(atr, p);
    match t.state {
        BosState::Idle => match st.last_high {
            Some(h) => if c.close.0 > h.0 + eps {
                BosTracker {
                    state: if 1 >= p.confirm_candles {
                        BosState::Confirmed
                    } else {
                        BosState::Potential
                    },
                    level: Some(h),
                    started_at: Some(c.ts),
                    confirmed_candles: 1,
                }
            } else {
                t
            },
            None => t,
        },
        BosState::Potential => match t.level {
            Some(level) => if c.close.0 <= level.0 {
                spec_bos_reset()
            } else {
                let cc = if c.close.0 > level.0 + eps && t.confirmed_candles < usize::MAX {
                    (t.confirmed_candles + 1) as usize
                } else {
                    t.confirmed_candles
                };
                BosTracker {
                    state: if cc >= p.confirm_candles {
                        BosState::Confirmed
                    } else {
                        BosState::Potential
                    },
                    confirmed_candles: cc,
                    ..t
                }
            },
            None => t,
        },
        BosState::Confirmed => match t.level {
            Some(level) => if c.close.0 <= level.0 {
                spec_bos_reset()
            } else {
                t
            },
            None => t,
        },
        BosState::Failed => spec_bos_reset(),
    }
}

impl BosTracker {
    /// A tracker in the idle state.
    pub fn new() -> (r: Self)
        ensures
            r == spec_bos_reset(),
            bos_wf(r),
    {
        BosTracker {
            state: BosState::Idle,
            level: None,
            started_at: None,
            confirmed_candles: 0,
        }
    }

    /// Advance the tracker by one closed candle, against the current
    /// structure snapshot and ATR.
    pub fn on_candle_close(
        &mut self,
        candle: &Candle,
        structure: &MarketStructure,
        atr: Price,
        params: BosParams,
    )
        requires
            bos_wf(*old(self)),
            candle_wf(*candle),
            structure_wf(*structure),
            0 <= atr.0 <= MAX_AMOUNT,
            bos_params_wf(params),
        ensures
            *final(self) == spec_bos_step(*old(self), *candle, *structure, atr, params),
            bos_wf(*final(self)),
    {
        proof {
            assert(atr.0 * params.epsilon_frac.0 / (SCALE as int) <= atr.0)
                by (nonlinear_arith)
                requires 0 <= atr.0, 0 <= params.epsilon_frac.0 <= SCALE;
        }
        let epsilon = mul_div(atr.0, params.epsilon_frac.0, SCALE);
        match self.state {
            BosState::Idle => {
                if let Some(high) = structure.last_high {
                    if candle.close.0 > high.0 + epsilon {
                        self.state = BosState::Potential;
                        self.level = Some(high);
                        self.started_at = Some(candle.ts);
                        // the breakout candle counts as the first confirmation
                        self.confirmed_candles = 1;
                        if self.confirmed_candles >= params.confirm_candles {
                            self.state = BosState::Confirmed;
                        }
                    }
                }
            }
            BosState::Potential => {
                let level = match self.level {
                    Some(l) => l,
                    None => {
                        return;
                    }
                };
                if candle.close.0 <= level.0 {
                    self.reset();
                    return;
                }
                if candle.close.0 > level.0 + epsilon && self.confirmed_candles < usize::MAX {
                    self.confirmed_candles = self.confirmed_candles + 1;
                }
                if self.confirmed_candles >= params.confirm_candles {
                    self.state = BosState::Confirmed;
                }
            }
            BosState::Confirmed => {
                if let Some(level) = self.level {
                    if candle.close.0 <= level.0 {
                        self.reset();
                    }
                }
            }
            BosState::Failed => {
                self.reset();
            }
        }
    }

    /// Clear the tracker back to the idle state.
    pub fn reset(&mut self)
        ensures
            *final(self) == spec_bos_reset(),
            bos_wf(*final(self)),
    {
        self.state = BosState::Idle;
        self.level = None;
        self.started_at = None;
        self.confirmed_candles = 0;
    }
}

/// Law: from the idle state, a single candle closing above
/// `last_high + epsilon` with a confirmation window of one promotes the
/// tracker straight to `Confirmed` at that level; a subsequent close at or
/// below the level resets it.
pub proof fn lemma_bos_confirm_then_reset(
    t: BosTracker,
    c1: Candle,
    c2: Candle,
    st: MarketStructure,
    atr: Price,
    p: BosParams,
    h: Price,
)
    requires
        t.state == BosState::Idle,
        st.last_high == Some(h),
        p.confirm_candles == 1,
        c1.close.0 > h.0 + spec_bos_epsilon(atr, p),
        c2.close.0 <= h.0,
    ensures
        spec_bos_step(t, c1, st, atr, p).state == BosState::Confirmed,
        spec_bos_step(t, c1, st, atr, p).level == Some(h),
        spec_bos_step(spec_bos_step(t, c1, st, atr, p), c2, st, atr, p) == spec_bos_reset(),
{
}

} // verus!
