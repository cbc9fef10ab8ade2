//! Exponential moving average with the standard smoothing `2 / (period + 1)`,
//! seeded by the first sample.

use vstd::prelude::*;

use crate::types::MAX_AMOUNT;
use crate::types::mul_div;

verus! {

/// Incremental EMA calculator.
#[derive(Clone, Copy, Debug, PartialEq, Eq)]
pub struct EmaCalc {
    /// Period, at least one.
    pub period: usize,
    /// Current average, absent until the first sample.
    pub value: Option<i64>,
}

pub open spec fn ema_wf(e: EmaCalc) -> bool {
    &&& 1 <= e.period <= 1_000_000
    &&& (e.value matches Some(v) ==> 0 <= v <= MAX_AMOUNT)
}

/// `alpha * x + (1 - alpha) * v` with `alpha = 2 / (p + 1)`, i.e.
/// `(2x + (p - 1) v) / (p + 1)`.
pub open spec fn spec_ema_next(p: int, v: int, x: int) -> int {
    (2 * x + (p - 1) * v) / (p + 1)
}

/// The whole update as a value: the new calculator and the returned
/// average.
pub open spec fn spec_ema_update(e: EmaCalc, x: i64) -> (EmaCalc, int) {
    match e.value {
        None => (EmaCalc { value: Some(x), ..e }, x as int),
        Some(v) => {
            let n = spec_ema_next(e.period as int, v as int, x as int);
            (EmaCalc { value: Some(n as i64), ..e }, n)
        },
    }
}

impl EmaCalc {
    /// A calculator for the given period (clamped to at least one).
    pub fn new(period: usize) -> (r: Self)
        requires
            period <= 1_000_000,
        ensures
            r.period == if period >= 1 { period as int } else { 1int },
            r.value is None,
            ema_wf(r),
    {
        let p = if period >= 1 { period } else { 1 };
        EmaCalc { period: p, value: None }
    }

    /// Feed one sample; returns the updated average. The first sample seeds
    /// the average directly.
    pub fn update(&mut self, x: i64) -> (r: i64)
        requires
            ema_wf(*old(self)),
            0 <= x <= MAX_AMOUNT,
        ensures
            ema_wf(*final(self)),
            final(self).period == old(self).period,
            (*final(self), r as int) == spec_ema_update(*old(self), x),
            (match old(self).value {
                None => r == x && final(self).value == Some(x),
                Some(v) => r == spec_ema_next(old(self).period as int, v as int, x as int)
                    && final(self).value == Some(r),
            }),
    {
        match self.value {
            Some(v) => {
                let p = self.period as i64;
                proof {
                    assert((p - 1) * v <= 1_000_000 * MAX_AMOUNT) by (nonlinear_arith)
                        requires 0 <= p - 1 <= 1_000_000, 0 <= v <= MAX_AMOUNT;
                    assert(0 <= (p - 1) * v) by (nonlinear_arith)
                        requires 0 <= p - 1, 0 <= v;
                }
                let num = 2 * x + (p - 1) * v;
                proof {
                    assert(num * 1 / (p + 1int) <= MAX_AMOUNT) by (nonlinear_arith)
                        requires
                            num == 2 * x + (p - 1) * v,
                            0 <= x <= MAX_AMOUNT,
                            0 <= v <= MAX_AMOUNT,
                            1 <= p;
                }
                let next = mul_div(num, 1, p + 1);
                proof {
                    assert(num * 1 == num) by (nonlinear_arith);
                }
                self.value = Some(next);
                next
            }
            None => {
                self.value = Some(x);
                x
            }
        }
    }
}

} // verus!
