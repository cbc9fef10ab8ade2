//! Backtest reports and sweep ranking: profit factor as an exact rational,
//! and the lexicographic rank order (ROI desc, drawdown asc, profit factor
//! desc) used to pick the top configurations.

use vstd::prelude::*;

use crate::types::Money;
use crate::types::Ratio;
use crate::types::SCALE;
use crate::types::mul_div;

verus! {

/// Gross profit over gross loss, kept as the exact pair so comparisons never
/// round. `gross_loss == 0` with positive profit means infinite; with zero
/// profit the factor is zero.
#[derive(Clone, Copy, Debug, PartialEq, Eq, Structural)]
pub struct ProfitFactor {
    pub gross_profit: Money,
    pub gross_loss: Money,
}

pub open spec fn pf_wf(p: ProfitFactor) -> bool {
    &&& 0 <= p.gross_profit.0
    &&& 0 <= p.gross_loss.0
}

pub open spec fn pf_is_infinite(p: ProfitFactor) -> bool {
    p.gross_loss.0 == 0 && p.gross_profit.0 > 0
}

/// Numerator of the finite value (zero when there is no loss).
pub open spec fn pf_num(p: ProfitFactor) -> int {
    if p.gross_loss.0 == 0 {
        0
    } else {
        p.gross_profit.0 as int
    }
}

/// Denominator of the finite value (one when there is no loss).
pub open spec fn pf_den(p: ProfitFactor) -> int {
    if p.gross_loss.0 == 0 {
        1
    } else {
        p.gross_loss.0 as int
    }
}

/// `a <= b` on profit factors, with infinity above every finite value.
pub open spec fn pf_le(a: ProfitFactor, b: ProfitFactor) -> bool {
    if pf_is_infinite(a) {
        pf_is_infinite(b)
    } else if pf_is_infinite(b) {
        true
    } else {
        pf_num(a) * pf_den(b) <= pf_num(b) * pf_den(a)
    }
}

impl ProfitFactor {
    /// Whether the factor is infinite (profit without any loss).
    pub fn is_infinite(&self) -> (r: bool)
        ensures
            r == pf_is_infinite(*self),
    {
        self.gross_loss.0 == 0 && self.gross_profit.0 > 0
    }

    /// The factor as a fixed-point ratio, when finite. `None` when infinite.
    pub fn value(&self) -> (r: Option<Ratio>)
        requires
            pf_wf(*self),
            self.gross_profit.0 * SCALE / (if self.gross_loss.0 == 0 { 1int } else {
                self.gross_loss.0 as int
            }) <= i64::MAX,
        ensures
            pf_is_infinite(*self) ==> r is None,
            !pf_is_infinite(*self) ==> r == Some(
                Ratio((pf_num(*self) * SCALE / pf_den(*self)) as i64),
            ),
    {
        if self.gross_loss.0 == 0 {
            if self.gross_profit.0 > 0 {
                None
            } else {
                Some(Ratio(0))
            }
        } else {
            Some(Ratio(mul_div(self.gross_profit.0, SCALE, self.gross_loss.0)))
        }
    }
}

/// The key a sweep result is ranked by.
#[derive(Clone, Copy, Debug, PartialEq, Eq, Structural)]
pub struct RankKey {
    /// Return on investment, percent (fixed point), signed.
    pub roi_pct: Ratio,
    /// Maximum drawdown, percent (fixed point).
    pub max_drawdown_pct: Ratio,
    /// Profit factor as the exact rational.
    pub profit_factor: ProfitFactor,
}

pub open spec fn rank_key_wf(k: RankKey) -> bool {
    pf_wf(k.profit_factor)
}

/// `a` ranks at or before `b`: higher ROI first, then lower drawdown, then
/// higher profit factor.
pub open spec fn rank_le(a: RankKey, b: RankKey) -> bool {
    if a.roi_pct.0 != b.roi_pct.0 {
        a.roi_pct.0 > b.roi_pct.0
    } else if a.max_drawdown_pct.0 != b.max_drawdown_pct.0 {
        a.max_drawdown_pct.0 < b.max_drawdown_pct.0
    } else {
        pf_le(b.profit_factor, a.profit_factor)
    }
}

/// Whether `a` ranks at or before `b`.
pub fn rank_le_exec(a: &RankKey, b: &RankKey) -> (r: bool)
    requires
        rank_key_wf(*a),
        rank_key_wf(*b),
    ensures
        r == rank_le(*a, *b),
{
    if a.roi_pct.0 != b.roi_pct.0 {
        return a.roi_pct.0 > b.roi_pct.0;
    }
    if a.max_drawdown_pct.0 != b.max_drawdown_pct.0 {
        return a.max_drawdown_pct.0 < b.max_drawdown_pct.0;
    }
    // compare profit factors: b <= a
    let x = &b.profit_factor;
    let y = &a.profit_factor;
    if x.gross_loss.0 == 0 && x.gross_profit.0 > 0 {
        return y.gross_loss.0 == 0 && y.gross_profit.0 > 0;
    }
    if y.gross_loss.0 == 0 && y.gross_profit.0 > 0 {
        return true;
    }
    let xn = if x.gross_loss.0 == 0 { 0 } else { x.gross_profit.0 };
    let xd = if x.gross_loss.0 == 0 { 1 } else { x.gross_loss.0 };
    let yn = if y.gross_loss.0 == 0 { 0 } else { y.gross_profit.0 };
    let yd = if y.gross_loss.0 == 0 { 1 } else { y.gross_loss.0 };
    proof {
        assert((xn as int) * (yd as int) <= (i64::MAX as int) * (i64::MAX as int))
            by (nonlinear_arith)
            requires 0 <= xn <= i64::MAX, 0 <= yd <= i64::MAX;
        assert((yn as int) * (xd as int) <= (i64::MAX as int) * (i64::MAX as int))
            by (nonlinear_arith)
            requires 0 <= yn <= i64::MAX, 0 <= xd <= i64::MAX;
    }
    let lhs = (xn as i128) * (yd as i128);
    let rhs = (yn as i128) * (xd as i128);
    lhs <= rhs
}

/// Law (totality): any two results are comparable under the tiebreak chain.
pub proof fn lemma_rank_total(a: RankKey, b: RankKey)
    requires
        rank_key_wf(a),
        rank_key_wf(b),
    ensures
        rank_le(a, b) || rank_le(b, a),
{
    if a.roi_pct.0 == b.roi_pct.0 && a.max_drawdown_pct.0 == b.max_drawdown_pct.0 {
        let x = a.profit_factor;
        let y = b.profit_factor;
        if !pf_is_infinite(x) && !pf_is_infinite(y) {
            assert(pf_num(x) * pf_den(y) <= pf_num(y) * pf_den(x) || pf_num(y) * pf_den(x)
                <= pf_num(x) * pf_den(y));
        }
    }
}

/// Law (antisymmetry up to key equality): if each ranks at or before the
/// other, the ROI and drawdown agree and the profit factors have equal
/// value.
pub proof fn lemma_rank_antisymmetric(a: RankKey, b: RankKey)
    requires
        rank_key_wf(a),
        rank_key_wf(b),
        rank_le(a, b),
        rank_le(b, a),
    ensures
        a.roi_pct == b.roi_pct,
        a.max_drawdown_pct == b.max_drawdown_pct,
        pf_is_infinite(a.profit_factor) == pf_is_infinite(b.profit_factor),
        !pf_is_infinite(a.profit_factor) ==> pf_num(a.profit_factor) * pf_den(b.profit_factor)
            == pf_num(b.profit_factor) * pf_den(a.profit_factor),
{
}

/// Law (transitivity): the rank order chains.
pub proof fn lemma_rank_transitive(a: RankKey, b: RankKey, c: RankKey)
    requires
        rank_key_wf(a),
        rank_key_wf(b),
        rank_key_wf(c),
        rank_le(a, b),
        rank_le(b, c),
    ensures
        rank_le(a, c),
{
    if a.roi_pct.0 == b.roi_pct.0 && b.roi_pct.0 == c.roi_pct.0 && a.max_drawdown_pct.0
        == b.max_drawdown_pct.0 && b.max_drawdown_pct.0 == c.max_drawdown_pct.0 {
        let x = c.profit_factor;
        let y = b.profit_factor;
        let z = a.profit_factor;
        // pf_le(x, y) and pf_le(y, z) imply pf_le(x, z)
        if !pf_is_infinite(x) && !pf_is_infinite(y) && !pf_is_infinite(z) {
            lemma_fraction_le_trans(
                pf_num(x),
                pf_den(x),
                pf_num(y),
                pf_den(y),
                pf_num(z),
                pf_den(z),
            );
        }
    }
}

/// Cross-multiplied fraction comparison is transitive for positive
/// denominators.
proof fn lemma_fraction_le_trans(n1: int, d1: int, n2: int, d2: int, n3: int, d3: int)
    requires
        0 < d1,
        0 < d2,
        0 < d3,
        n1 * d2 <= n2 * d1,
        n2 * d3 <= n3 * d2,
    ensures
        n1 * d3 <= n3 * d1,
{
    assert((n1 * d2) * d3 <= (n2 * d1) * d3) by (nonlinear_arith)
        requires n1 * d2 <= n2 * d1, 0 < d3;
    assert((n2 * d3) * d1 <= (n3 * d2) * d1) by (nonlinear_arith)
        requires n2 * d3 <= n3 * d2, 0 < d1;
    assert((n2 * d1) * d3 == (n2 * d3) * d1) by (nonlinear_arith);
    assert((n1 * d2) * d3 == (n1 * d3) * d2) by (nonlinear_arith);
    assert((n3 * d2) * d1 == (n3 * d1) * d2) by (nonlinear_arith);
    assert((n1 * d3) * d2 <= (n3 * d1) * d2);
    assert(n1 * d3 <= n3 * d1) by (nonlinear_arith)
        requires (n1 * d3) * d2 <= (n3 * d1) * d2, 0 < d2;
}

/// One result awaiting ranking: its key and its index in the result list.
#[derive(Clone, Copy, Debug, PartialEq, Eq, Structural)]
pub struct RankedEntry {
    pub key: RankKey,
    pub idx: usize,
}

pub open spec fn entries_wf(s: Seq<RankedEntry>) -> bool {
    forall|i: int| 0 <= i < s.len() ==> rank_key_wf((#[trigger] s[i]).key)
}

/// `e` inserted before the first entry it must precede (stable).
pub open spec fn spec_insert_ranked(e: RankedEntry, s: Seq<RankedEntry>) -> Seq<RankedEntry>
    decreases s.len(),
{
    if s.len() == 0 {
        seq![e]
    } else if rank_le(s[0].key, e.key) {
        seq![s[0]] + spec_insert_ranked(e, s.drop_first())
    } else {
        seq![e] + s
    }
}

/// Stable insertion sort by rank.
pub open spec fn spec_rank_sort(s: Seq<RankedEntry>) -> Seq<RankedEntry>
    decreases s.len(),
{
    if s.len() == 0 {
        Seq::empty()
    } else {
        spec_insert_ranked(s.last(), spec_rank_sort(s.drop_last()))
    }
}

pub open spec fn rank_sorted(s: Seq<RankedEntry>) -> bool {
    forall|i: int, j: int| 0 <= i < j < s.len() ==> rank_le(
        (#[trigger] s[i]).key,
        (#[trigger] s[j]).key,
    )
}

proof fn lemma_insert_ranked_at(e: RankedEntry, s: Seq<RankedEntry>, p: int)
    requires
        0 <= p <= s.len(),
        forall|k: int| 0 <= k < p ==> rank_le((#[trigger] s[k]).key, e.key),
        p < s.len() ==> !rank_le(s[p].key, e.key),
    ensures
        spec_insert_ranked(e, s) == s.subrange(0, p) + seq![e] + s.subrange(p, s.len() as int),
    decreases s.len(),
{
    if s.len() == 0 {
        assert(spec_insert_ranked(e, s) =~= s.subrange(0, p) + seq![e] + s.subrange(
            p,
            s.len() as int,
        ));
    } else if p == 0 {
        assert(spec_insert_ranked(e, s) =~= s.subrange(0, 0) + seq![e] + s.subrange(
            0,
            s.len() as int,
        ));
    } else {
        let t = s.drop_first();
        assert(forall|k: int| 0 <= k < p - 1 ==> rank_le((#[trigger] t[k]).key, e.key)) by {
            assert(forall|k: int| 0 <= k < p - 1 ==> t[k] == #[trigger] s[k + 1]);
        }
        lemma_insert_ranked_at(e, t, p - 1);
        assert(seq![s[0]] + spec_insert_ranked(e, t) =~= s.subrange(0, p) + seq![e] + s.subrange(
            p,
            s.len() as int,
        ));
    }
}

proof fn lemma_insert_ranked_lower_bound(b: RankedEntry, e: RankedEntry, s: Seq<RankedEntry>)
    requires
        rank_le(b.key, e.key),
        forall|k: int| 0 <= k < s.len() ==> rank_le(b.key, (#[trigger] s[k]).key),
    ensures
        forall|i: int| 0 <= i < spec_insert_ranked(e, s).len() ==> rank_le(
            b.key,
            (#[trigger] spec_insert_ranked(e, s)[i]).key,
        ),
    decreases s.len(),
{
    let r = spec_insert_ranked(e, s);
    if s.len() == 0 {
    } else if rank_le(s[0].key, e.key) {
        let t = s.drop_first();
        assert(forall|k: int| 0 <= k < t.len() ==> rank_le(b.key, (#[trigger] t[k]).key)) by {
            assert(forall|k: int| 0 <= k < t.len() ==> t[k] == #[trigger] s[k + 1]);
        }
        lemma_insert_ranked_lower_bound(b, e, t);
        assert forall|i: int| 0 <= i < r.len() implies rank_le(b.key, (#[trigger] r[i]).key) by {
            if i == 0 {
                assert(r[0] == s[0]);
            } else {
                assert(r[i] == spec_insert_ranked(e, t)[i - 1]);
            }
        }
    } else {
        assert forall|i: int| 0 <= i < r.len() implies rank_le(b.key, (#[trigger] r[i]).key) by {
            if i > 0 {
                assert(r[i] == s[i - 1]);
            }
        }
    }
}

proof fn lemma_insert_ranked_sorted(e: RankedEntry, s: Seq<RankedEntry>)
    requires
        rank_sorted(s),
        entries_wf(s),
        rank_key_wf(e.key),
    ensures
        rank_sorted(spec_insert_ranked(e, s)),
    decreases s.len(),
{
    let r = spec_insert_ranked(e, s);
    if s.len() == 0 {
    } else if rank_le(s[0].key, e.key) {
        let t = s.drop_first();
        assert(rank_sorted(t) && entries_wf(t)) by {
            assert(forall|k: int| 0 <= k < t.len() ==> t[k] == #[trigger] s[k + 1]);
        }
        lemma_insert_ranked_sorted(e, t);
        assert(forall|k: int| 0 <= k < t.len() ==> rank_le(s[0].key, (#[trigger] t[k]).key)) by {
            assert(forall|k: int| 0 <= k < t.len() ==> t[k] == #[trigger] s[k + 1]);
        }
        lemma_insert_ranked_lower_bound(s[0], e, t);
        let it = spec_insert_ranked(e, t);
        assert forall|i: int, j: int| 0 <= i < j < r.len() implies rank_le(
            (#[trigger] r[i]).key,
            (#[trigger] r[j]).key,
        ) by {
            if i == 0 {
                assert(r[j] == it[j - 1]);
            } else {
                assert(r[i] == it[i - 1] && r[j] == it[j - 1]);
            }
        }
    } else {
        lemma_rank_total(s[0].key, e.key);
        assert forall|i: int, j: int| 0 <= i < j < r.len() implies rank_le(
            (#[trigger] r[i]).key,
            (#[trigger] r[j]).key,
        ) by {
            if i == 0 {
                assert(r[j] == s[j - 1]);
                if j > 1 {
                    lemma_rank_transitive(e.key, s[0].key, s[j - 1].key);
                }
            } else {
                assert(r[i] == s[i - 1] && r[j] == s[j - 1]);
            }
        }
    }
}

/// Sort the entries by rank: ROI descending, then drawdown ascending, then
/// profit factor descending (stable).
pub fn rank_sort(entries: Vec<RankedEntry>) -> (r: Vec<RankedEntry>)
    requires
        entries_wf(entries@),
    ensures
        r@ == spec_rank_sort(entries@),
        rank_sorted(r@),
        r@.len() == entries@.len(),
{
    let mut out: Vec<RankedEntry> = Vec::new();
    let mut i: usize = 0;
    proof {
        assert(entries@.subrange(0, 0) =~= Seq::<RankedEntry>::empty());
        lemma_rank_sort_len(entries@.subrange(0, 0));
    }
    while i < entries.len()
        invariant
            0 <= i <= entries@.len(),
            entries_wf(entries@),
            out@ == spec_rank_sort(entries@.subrange(0, i as int)),
            out@.len() == i,
            rank_sorted(out@),
            entries_wf(out@),
        decreases entries@.len() - i,
    {
        let e = entries[i];
        let mut p: usize = 0;
        while p < out.len() && rank_le_exec(&out[p].key, &e.key)
            invariant
                0 <= p <= out@.len(),
                forall|k: int| 0 <= k < p ==> rank_le((#[trigger] out@[k]).key, e.key),
                rank_sorted(out@),
                entries_wf(out@),
                entries_wf(entries@),
                out@ == spec_rank_sort(entries@.subrange(0, i as int)),
                out@.len() == i,
                i < entries@.len(),
                e == entries@[i as int],
            decreases out@.len() - p,
        {
            p = p + 1;
        }
        proof {
            lemma_insert_ranked_at(e, out@, p as int);
            lemma_insert_ranked_sorted(e, out@);
            let pre = entries@.subrange(0, i as int);
            let post = entries@.subrange(0, i + 1int);
            assert(post.drop_last() =~= pre);
            assert(post.last() == e);
            lemma_rank_sort_len(pre);
        }
        out.insert(p, e);
        proof {
            assert(out@ =~= spec_rank_sort(entries@.subrange(0, i + 1int)));
        }
        i = i + 1;
    }
    proof {
        assert(entries@.subrange(0, entries@.len() as int) =~= entries@);
    }
    out
}

/// Ranking keeps the number of entries.
pub proof fn lemma_rank_sort_len(s: Seq<RankedEntry>)
    ensures
        spec_rank_sort(s).len() == s.len(),
    decreases s.len(),
{
    if s.len() > 0 {
        lemma_rank_sort_len(s.drop_last());
        lemma_insert_ranked_len(s.last(), spec_rank_sort(s.drop_last()));
    }
}

proof fn lemma_insert_ranked_len(e: RankedEntry, s: Seq<RankedEntry>)
    ensures
        spec_insert_ranked(e, s).len() == s.len() + 1,
    decreases s.len(),
{
    if s.len() > 0 && rank_le(s[0].key, e.key) {
        lemma_insert_ranked_len(e, s.drop_first());
    }
}

} // verus!
