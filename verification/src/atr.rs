//! True range and average true range over a candle window.

use vstd::prelude::*;

use crate::candle::Candle;
use crate::candle::candle_wf;
use crate::candle::candles_wf;
use crate::types::MAX_AMOUNT;
use crate::types::Price;

verus! {

/// The larger of two mathematical integers.
pub open spec fn max_int(a: int, b: int) -> int {
    if a >= b { a } else { b }
}

/// Absolute difference of two mathematical integers.
pub open spec fn abs_diff(a: int, b: int) -> int {
    if a >= b { a - b } else { b - a }
}

/// True range of a candle against the previous close:
/// `max(high - low, |high - prev_close|, |low - prev_close|)`.
pub open spec fn spec_true_range(prev_close: Price, c: Candle) -> int {
    max_int(
        c.high.0 - c.low.0,
        max_int(abs_diff(c.high.0 as int, prev_close.0 as int), abs_diff(c.low.0 as int, prev_close.0 as int)),
    )
}

/// True range for one candle.
pub fn true_range(prev_close: Price, candle: &Candle) -> (r: Price)
    requires
        0 <= prev_close.0 <= MAX_AMOUNT,
        candle_wf(*candle),
    ensures
        r.0 == spec_true_range(prev_close, *candle),
        0 <= r.0 <= MAX_AMOUNT,
{
    let hl = candle.high.0 - candle.low.0;
    let hc = if candle.high.0 >= prev_close.0 {
        candle.high.0 - prev_close.0
    } else {
        prev_close.0 - candle.high.0
    };
    let lc = if candle.low.0 >= prev_close.0 {
        candle.low.0 - prev_close.0
    } else {
        prev_close.0 - candle.low.0
    };
    let mut m = hl;
    if hc > m {
        m = hc;
    }
    if lc > m {
        m = lc;
    }
    Price(m)
}

/// Sum of true ranges of `s[1..]`, each against the close before it.
pub open spec fn spec_sum_tr(s: Seq<Candle>) -> int
    decreases s.len(),
{
    if s.len() < 2 {
        0
    } else {
        spec_sum_tr(s.drop_last()) + spec_true_range(s[s.len() - 2].close, s[s.len() - 1])
    }
}

/// The sum of true ranges of a well-formed window is within
/// `[0, (len - 1) * MAX_AMOUNT]`.
pub proof fn lemma_sum_tr_bounds(s: Seq<Candle>)
    requires
        candles_wf(s),
        s.len() >= 1,
    ensures
        0 <= spec_sum_tr(s) <= (s.len() - 1) * MAX_AMOUNT,
    decreases s.len(),
{
    if s.len() < 2 {
        assert((s.len() - 1) * MAX_AMOUNT >= 0) by (nonlinear_arith)
            requires s.len() >= 1;
    } else {
        assert(candles_wf(s.drop_last())) by {
            assert(forall|i: int| 0 <= i < s.len() - 1 ==> s.drop_last()[i] == #[trigger] s[i]);
        }
        lemma_sum_tr_bounds(s.drop_last());
        assert((s.len() - 2) * MAX_AMOUNT + MAX_AMOUNT == (s.len() - 1) * MAX_AMOUNT)
            by (nonlinear_arith);
    }
}

/// Mean true range over a window of at least two candles.
pub open spec fn spec_atr_val(s: Seq<Candle>) -> int
    recommends
        s.len() >= 2,
{
    spec_sum_tr(s) / (s.len() - 1)
}

/// Average (mean) true range over the whole window. Defined once the window
/// holds at least two candles.
pub fn atr(candles: &Vec<Candle>) -> (r: Option<Price>)
    requires
        candles_wf(candles@),
    ensures
        candles@.len() < 2 ==> r is None,
        candles@.len() >= 2 ==> (r matches Some(p) && p.0 == spec_atr_val(candles@)
            && 0 <= p.0 <= MAX_AMOUNT),
{
    let n = candles.len();
    if n < 2 {
        return None;
    }
    let mut sum: u128 = 0;
    let mut i: usize = 1;
    while i < n
        invariant
            1 <= i <= n,
            2 <= n == candles@.len(),
            candles_wf(candles@),
            sum == spec_sum_tr(candles@.subrange(0, i as int)),
            sum <= (i - 1) * MAX_AMOUNT,
        decreases n - i,
    {
        let tr = true_range(candles[i - 1].close, &candles[i]);
        proof {
            let pre = candles@.subrange(0, i as int);
            let post = candles@.subrange(0, i + 1int);
            assert(post.drop_last() =~= pre);
            assert(post[post.len() - 2] == candles@[i - 1int]);
            assert(post[post.len() - 1] == candles@[i as int]);
            assert((i - 1) * MAX_AMOUNT + MAX_AMOUNT == i * MAX_AMOUNT) by (nonlinear_arith);
            assert(i * MAX_AMOUNT <= u128::MAX) by (nonlinear_arith)
                requires i <= usize::MAX;
        }
        sum = sum + (tr.0 as u128);
        i = i + 1;
    }
    proof {
        assert(candles@.subrange(0, n as int) =~= candles@);
        lemma_sum_tr_bounds(candles@);
        assert(spec_sum_tr(candles@) / (n - 1) <= (n - 1) * MAX_AMOUNT / (n - 1))
            by (nonlinear_arith)
            requires n >= 2, spec_sum_tr(candles@) <= (n - 1) * MAX_AMOUNT;
        assert((n - 1) * MAX_AMOUNT / (n - 1) == MAX_AMOUNT) by (nonlinear_arith)
            requires n >= 2;
    }
    let mean: u128 = sum / ((n - 1) as u128);
    Some(Price(mean as i64))
}

} // verus!
