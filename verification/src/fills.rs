//! Backtest fill accounting: order priority, intrabar maker fills against a
//! bar's low/high, average-cost basis, and the running trade statistics.

use vstd::prelude::*;

use crate::grid::DesiredOrder;
use crate::grid::Side;
use crate::types::Bps;
use crate::types::MAX_AMOUNT;
use crate::types::Money;
use crate::types::Price;
use crate::types::Qty;
use crate::types::Ratio;
use crate::types::SCALE;
use crate::types::TimestampMs;
use crate::types::add_sat;
use crate::types::inc_u64;
use crate::types::min_i64;
use crate::types::mul_div;
use crate::types::mul_div_opt;

verus! {

/// Which regime produced a fill (carried into the fills log).
#[derive(Clone, Copy, Debug, PartialEq, Eq, Structural)]
pub enum FillMode {
    Normal,
    Defensive,
    Bootstrap,
    ForceClose,
}

/// The running balances of a backtest: quote, base, and the average-cost
/// basis of the base held.
#[derive(Clone, Copy, Debug, PartialEq, Eq, Structural)]
pub struct LedgerState {
    pub quote: Money,
    pub base: Qty,
    pub cost_basis_quote: Money,
}

pub open spec fn ledger_wf(st: LedgerState) -> bool {
    &&& 0 <= st.quote.0 <= MAX_AMOUNT
    &&& 0 <= st.base.0 <= MAX_AMOUNT
    &&& 0 <= st.cost_basis_quote.0 <= MAX_AMOUNT
}

/// Counters and gross profit/loss over the closed (sell) trades.
#[derive(Clone, Copy, Debug, PartialEq, Eq, Structural)]
pub struct TradeStats {
    pub buy_fills: u64,
    pub sell_fills: u64,
    pub winning_sells: u64,
    pub losing_sells: u64,
    pub gross_profit: Money,
    pub gross_loss: Money,
}

pub open spec fn stats_wf(s: TradeStats) -> bool {
    &&& 0 <= s.gross_profit.0
    &&& 0 <= s.gross_loss.0
    &&& s.winning_sells <= s.sell_fills
    &&& s.losing_sells <= s.sell_fills
}

impl TradeStats {
    /// All counters at zero.
    pub fn new() -> (r: Self)
        ensures
            r == (TradeStats {
                buy_fills: 0u64,
                sell_fills: 0u64,
                winning_sells: 0u64,
                losing_sells: 0u64,
                gross_profit: Money(0),
                gross_loss: Money(0),
            }),
            stats_wf(r),
    {
        TradeStats {
            buy_fills: 0,
            sell_fills: 0,
            winning_sells: 0,
            losing_sells: 0,
            gross_profit: Money(0),
            gross_loss: Money(0),
        }
    }
}

/// One executed fill, as written to the fills log.
#[derive(Clone, Copy, Debug, PartialEq, Eq)]
pub struct FillRecord {
    pub ts: TimestampMs,
    pub side: Side,
    pub mode: FillMode,
    pub qty: Qty,
    pub price: Price,
    pub fee_quote: Money,
    pub quote_delta: Money,
    pub realized_pnl: Option<Money>,
}

/// Fill priority: every buy fills before any sell; among buys the higher
/// price first; among sells the lower price first.
pub open spec fn order_le(a: DesiredOrder, b: DesiredOrder) -> bool {
    match (a.side, b.side) {
        (Side::Buy, Side::Sell) => true,
        (Side::Sell, Side::Buy) => false,
        (Side::Buy, Side::Buy) => a.price.0 >= b.price.0,
        (Side::Sell, Side::Sell) => a.price.0 <= b.price.0,
    }
}

/// `o` inserted into `s` before the first element it must precede.
pub open spec fn spec_insert_by_priority(o: DesiredOrder, s: Seq<DesiredOrder>) -> Seq<
    DesiredOrder,
>
    decreases s.len(),
{
    if s.len() == 0 {
        seq![o]
    } else if order_le(s[0], o) {
        seq![s[0]] + spec_insert_by_priority(o, s.drop_first())
    } else {
        seq![o] + s
    }
}

/// Stable insertion sort of the orders by fill priority.
pub open spec fn spec_sort_orders(s: Seq<DesiredOrder>) -> Seq<DesiredOrder>
    decreases s.len(),
{
    if s.len() == 0 {
        Seq::empty()
    } else {
        spec_insert_by_priority(s.last(), spec_sort_orders(s.drop_last()))
    }
}

pub open spec fn sorted_by_priority(s: Seq<DesiredOrder>) -> bool {
    forall|i: int, j: int| 0 <= i < j < s.len() ==> order_le(#[trigger] s[i], #[trigger] s[j])
}

/// The priority relation is total.
pub proof fn lemma_order_le_total(a: DesiredOrder, b: DesiredOrder)
    ensures
        order_le(a, b) || order_le(b, a),
{
}

/// Inserting at the first position whose element must come after `o` is the
/// same as the recursive insertion.
proof fn lemma_insert_at_position(o: DesiredOrder, s: Seq<DesiredOrder>, p: int)
    requires
        0 <= p <= s.len(),
        forall|k: int| 0 <= k < p ==> order_le(#[trigger] s[k], o),
        p < s.len() ==> !order_le(s[p], o),
    ensures
        spec_insert_by_priority(o, s) == s.subrange(0, p) + seq![o] + s.subrange(
            p,
            s.len() as int,
        ),
    decreases s.len(),
{
    if s.len() == 0 {
        assert(spec_insert_by_priority(o, s) =~= s.subrange(0, p) + seq![o] + s.subrange(
            p,
            s.len() as int,
        ));
    } else if p == 0 {
        assert(!order_le(s[0], o));
        assert(spec_insert_by_priority(o, s) =~= s.subrange(0, 0) + seq![o] + s.subrange(
            0,
            s.len() as int,
        ));
    } else {
        assert(order_le(s[0], o));
        let t = s.drop_first();
        assert(forall|k: int| 0 <= k < p - 1 ==> order_le(#[trigger] t[k], o)) by {
            assert(forall|k: int| 0 <= k < p - 1 ==> t[k] == #[trigger] s[k + 1]);
        }
        lemma_insert_at_position(o, t, p - 1);
        assert(seq![s[0]] + spec_insert_by_priority(o, t) =~= s.subrange(0, p) + seq![o]
            + s.subrange(p, s.len() as int));
    }
}

/// The priority relation is transitive.
pub proof fn lemma_order_le_trans(a: DesiredOrder, b: DesiredOrder, c: DesiredOrder)
    requires
        order_le(a, b),
        order_le(b, c),
    ensures
        order_le(a, c),
{
}

/// Every element of the inserted sequence is bounded below by any `b` that
/// precedes both `o` and every element of `s`.
proof fn lemma_insert_lower_bound(b: DesiredOrder, o: DesiredOrder, s: Seq<DesiredOrder>)
    requires
        order_le(b, o),
        forall|k: int| 0 <= k < s.len() ==> order_le(b, #[trigger] s[k]),
    ensures
        forall|i: int| 0 <= i < spec_insert_by_priority(o, s).len() ==> order_le(
            b,
            #[trigger] spec_insert_by_priority(o, s)[i],
        ),
    decreases s.len(),
{
    let r = spec_insert_by_priority(o, s);
    if s.len() == 0 {
    } else if order_le(s[0], o) {
        let t = s.drop_first();
        assert(forall|k: int| 0 <= k < t.len() ==> order_le(b, #[trigger] t[k])) by {
            assert(forall|k: int| 0 <= k < t.len() ==> t[k] == #[trigger] s[k + 1]);
        }
        lemma_insert_lower_bound(b, o, t);
        assert forall|i: int| 0 <= i < r.len() implies order_le(b, #[trigger] r[i]) by {
            if i == 0 {
                assert(r[0] == s[0]);
            } else {
                assert(r[i] == spec_insert_by_priority(o, t)[i - 1]);
            }
        }
    } else {
        assert forall|i: int| 0 <= i < r.len() implies order_le(b, #[trigger] r[i]) by {
            if i > 0 {
                assert(r[i] == s[i - 1]);
            }
        }
    }
}

/// Inserting into a priority-sorted sequence keeps it sorted.
proof fn lemma_insert_keeps_sorted(o: DesiredOrder, s: Seq<DesiredOrder>)
    requires
        sorted_by_priority(s),
    ensures
        sorted_by_priority(spec_insert_by_priority(o, s)),
    decreases s.len(),
{
    let r = spec_insert_by_priority(o, s);
    if s.len() == 0 {
    } else if order_le(s[0], o) {
        let t = s.drop_first();
        assert(sorted_by_priority(t)) by {
            assert(forall|k: int| 0 <= k < t.len() ==> t[k] == #[trigger] s[k + 1]);
        }
        lemma_insert_keeps_sorted(o, t);
        assert(forall|k: int| 0 <= k < t.len() ==> order_le(s[0], #[trigger] t[k])) by {
            assert(forall|k: int| 0 <= k < t.len() ==> t[k] == #[trigger] s[k + 1]);
        }
        lemma_insert_lower_bound(s[0], o, t);
        let it = spec_insert_by_priority(o, t);
        assert forall|i: int, j: int| 0 <= i < j < r.len() implies order_le(
            #[trigger] r[i],
            #[trigger] r[j],
        ) by {
            if i == 0 {
                assert(r[j] == it[j - 1]);
            } else {
                assert(r[i] == it[i - 1] && r[j] == it[j - 1]);
            }
        }
    } else {
        lemma_order_le_total(s[0], o);
        assert forall|i: int, j: int| 0 <= i < j < r.len() implies order_le(
            #[trigger] r[i],
            #[trigger] r[j],
        ) by {
            if i == 0 {
                assert(r[j] == s[j - 1]);
                if j == 1 {
                    assert(order_le(o, s[0]));
                } else {
                    lemma_order_le_trans(o, s[0], s[j - 1]);
                }
            } else {
                assert(r[i] == s[i - 1] && r[j] == s[j - 1]);
            }
        }
    }
}

/// Whether `a` must fill no later than `b`.
pub fn order_le_exec(a: &DesiredOrder, b: &DesiredOrder) -> (r: bool)
    ensures
        r == order_le(*a, *b),
{
    match (a.side, b.side) {
        (Side::Buy, Side::Sell) => true,
        (Side::Sell, Side::Buy) => false,
        (Side::Buy, Side::Buy) => a.price.0 >= b.price.0,
        (Side::Sell, Side::Sell) => a.price.0 <= b.price.0,
    }
}

/// Sort the desired orders into fill priority: buys before sells, buys by
/// descending price, sells by ascending price (stable).
pub fn sort_orders(orders: Vec<DesiredOrder>) -> (r: Vec<DesiredOrder>)
    ensures
        r@ == spec_sort_orders(orders@),
        sorted_by_priority(r@),
        r@.len() == orders@.len(),
{
    let mut out: Vec<DesiredOrder> = Vec::new();
    let mut i: usize = 0;
    proof {
        assert(orders@.subrange(0, 0) =~= Seq::<DesiredOrder>::empty());
        lemma_sort_len(orders@.subrange(0, 0));
    }
    while i < orders.len()
        invariant
            0 <= i <= orders@.len(),
            out@ == spec_sort_orders(orders@.subrange(0, i as int)),
            out@.len() == i,
            sorted_by_priority(out@),
        decreases orders@.len() - i,
    {
        let o = orders[i];
        let mut p: usize = 0;
        while p < out.len() && order_le_exec(&out[p], &o)
            invariant
                0 <= p <= out@.len(),
                forall|k: int| 0 <= k < p ==> order_le(#[trigger] out@[k], o),
                sorted_by_priority(out@),
                out@ == spec_sort_orders(orders@.subrange(0, i as int)),
                out@.len() == i,
                i < orders@.len(),
                o == orders@[i as int],
            decreases out@.len() - p,
        {
            p = p + 1;
        }
        proof {
            lemma_insert_at_position(o, out@, p as int);
            lemma_insert_keeps_sorted(o, out@);
            let pre = orders@.subrange(0, i as int);
            let post = orders@.subrange(0, i + 1int);
            assert(post.drop_last() =~= pre);
            assert(post.last() == o);
            lemma_sort_len(pre);
        }
        out.insert(p, o);
        proof {
            assert(out@ =~= spec_sort_orders(orders@.subrange(0, i + 1int)));
        }
        i = i + 1;
    }
    proof {
        assert(orders@.subrange(0, orders@.len() as int) =~= orders@);
    }
    out
}

/// Sorting keeps the length.
pub proof fn lemma_sort_len(s: Seq<DesiredOrder>)
    ensures
        spec_sort_orders(s).len() == s.len(),
    decreases s.len(),
{
    if s.len() > 0 {
        lemma_sort_len(s.drop_last());
        lemma_insert_len(s.last(), spec_sort_orders(s.drop_last()));
    }
}

proof fn lemma_insert_len(o: DesiredOrder, s: Seq<DesiredOrder>)
    ensures
        spec_insert_by_priority(o, s).len() == s.len() + 1,
    decreases s.len(),
{
    if s.len() > 0 && order_le(s[0], o) {
        lemma_insert_len(o, s.drop_first());
    }
}

/// One order applied to the ledger against a bar. A buy fills when the bar
/// traded at or below its price and the quote on hand covers cost plus
/// maker fee; a sell fills when the bar traded at or above its price, for at
/// most the base on hand, realizing PnL against the average cost. A fill
/// whose result would leave the representable range is not taken.
pub open spec fn spec_apply_order(
    st: LedgerState,
    stats: TradeStats,
    o: DesiredOrder,
    low: int,
    high: int,
    ts: TimestampMs,
    mode: FillMode,
    maker_fee: int,
) -> (LedgerState, TradeStats, Option<FillRecord>) {
    match o.side {
        Side::Buy => {
            if low > o.price.0 || o.qty.0 <= 0 || o.price.0 < 0 {
                (st, stats, None)
            } else {
                let gross = o.qty.0 * o.price.0 / (SCALE as int);
                if gross > MAX_AMOUNT {
                    (st, stats, None)
                } else {
                    let fee = gross * maker_fee / 10_000;
                    let total = gross + fee;
                    if total > st.quote.0 || o.qty.0 > MAX_AMOUNT - st.base.0 || total
                        > MAX_AMOUNT - st.cost_basis_quote.0 {
                        (st, stats, None)
                    } else {
                        (
                            LedgerState {
                                quote: Money((st.quote.0 - total) as i64),
                                base: Qty((st.base.0 + o.qty.0) as i64),
                                cost_basis_quote: Money((st.cost_basis_quote.0 + total) as i64),
                            },
                            TradeStats {
                                buy_fills: if stats.buy_fills < u64::MAX {
                                    (stats.buy_fills + 1) as u64
                                } else {
                                    stats.buy_fills
                                },
                                ..stats
                            },
                            Some(FillRecord {
                                ts,
                                side: Side::Buy,
                                mode,
                                qty: o.qty,
                                price: o.price,
                                fee_quote: Money(fee as i64),
                                quote_delta: Money((0 - total) as i64),
                                realized_pnl: None,
                            }),
                        )
                    }
                }
            }
        }
        Side::Sell => {
            if high < o.price.0 || st.base.0 <= 0 || o.price.0 < 0 {
                (st, stats, None)
            } else {
                let q = if o.qty.0 <= st.base.0 { o.qty.0 as int } else { st.base.0 as int };
                if q <= 0 {
                    (st, stats, None)
                } else {
                    let gross = q * o.price.0 / (SCALE as int);
                    if gross > MAX_AMOUNT {
                        (st, stats, None)
                    } else {
                        let fee = gross * maker_fee / 10_000;
                        let proceeds = gross - fee;
                        let removed = st.cost_basis_quote.0 * q / (st.base.0 as int);
                        let realized = proceeds - removed;
                        if proceeds > MAX_AMOUNT - st.quote.0 {
                            (st, stats, None)
                        } else {
                            let new_base = st.base.0 - q;
                            (
                                LedgerState {
                                    quote: Money((st.quote.0 + proceeds) as i64),
                                    base: Qty(new_base as i64),
                                    cost_basis_quote: Money(
                                        if new_base == 0 {
                                            0
                                        } else {
                                            (st.cost_basis_quote.0 - removed) as i64
                                        },
                                    ),
                                },
                                spec_record_sell(stats, realized),
                                Some(FillRecord {
                                    ts,
                                    side: Side::Sell,
                                    mode,
                                    qty: Qty(q as i64),
                                    price: o.price,
                                    fee_quote: Money(fee as i64),
                                    quote_delta: Money(proceeds as i64),
                                    realized_pnl: Some(Money(realized as i64)),
                                }),
                            )
                        }
                    }
                }
            }
        }
    }
}

/// Record one closed sell in the statistics: count it, and add its realized
/// PnL to the gross profit or gross loss (saturating).
pub open spec fn spec_record_sell(stats: TradeStats, realized: int) -> TradeStats {
    let sold = TradeStats {
        sell_fills: if stats.sell_fills < u64::MAX {
            (stats.sell_fills + 1) as u64
        } else {
            stats.sell_fills
        },
        ..stats
    };
    if realized > 0 {
        TradeStats {
            winning_sells: if sold.winning_sells < u64::MAX {
                (sold.winning_sells + 1) as u64
            } else {
                sold.winning_sells
            },
            gross_profit: Money(
                if sold.gross_profit.0 + realized <= i64::MAX {
                    (sold.gross_profit.0 + realized) as i64
                } else {
                    i64::MAX
                },
            ),
            ..sold
        }
    } else if realized < 0 {
        TradeStats {
            losing_sells: if sold.losing_sells < u64::MAX {
                (sold.losing_sells + 1) as u64
            } else {
                sold.losing_sells
            },
            gross_loss: Money(
                if sold.gross_loss.0 + (0 - realized) <= i64::MAX {
                    (sold.gross_loss.0 + (0 - realized)) as i64
                } else {
                    i64::MAX
                },
            ),
            ..sold
        }
    } else {
        sold
    }
}

/// Apply one order to the ledger and statistics; returns the fill record if
/// the order filled.
pub fn apply_order(
    st: &mut LedgerState,
    stats: &mut TradeStats,
    o: &DesiredOrder,
    low: Price,
    high: Price,
    ts: TimestampMs,
    mode: FillMode,
    maker_fee_bps: Bps,
) -> (r: Option<FillRecord>)
    requires
        ledger_wf(*old(st)),
        stats_wf(*old(stats)),
        0 <= maker_fee_bps.0 <= 10_000,
    ensures
        (*final(st), *final(stats), r) == spec_apply_order(
            *old(st),
            *old(stats),
            *o,
            low.0 as int,
            high.0 as int,
            ts,
            mode,
            maker_fee_bps.0 as int,
        ),
        ledger_wf(*final(st)),
        stats_wf(*final(stats)),
{
    match o.side {
        Side::Buy => {
            if low.0 > o.price.0 || o.qty.0 <= 0 || o.price.0 < 0 {
                return None;
            }
            let gross = match mul_div_opt(o.qty.0, o.price.0, SCALE) {
                Some(g) => g,
                None => {
                    return None;
                }
            };
            if gross > MAX_AMOUNT {
                return None;
            }
            proof {
                assert(gross * maker_fee_bps.0 / 10_000 <= gross) by (nonlinear_arith)
                    requires 0 <= gross, 0 <= maker_fee_bps.0 <= 10_000;
                assert(0 <= gross * maker_fee_bps.0 / 10_000) by (nonlinear_arith)
                    requires 0 <= gross, 0 <= maker_fee_bps.0;
            }
            let fee = mul_div(gross, maker_fee_bps.0, 10_000);
            let total = gross + fee;
            if total > st.quote.0 || o.qty.0 > MAX_AMOUNT - st.base.0 || total
                > MAX_AMOUNT - st.cost_basis_quote.0 {
                return None;
            }
            st.quote = Money(st.quote.0 - total);
            st.base = Qty(st.base.0 + o.qty.0);
            st.cost_basis_quote = Money(st.cost_basis_quote.0 + total);
            stats.buy_fills = inc_u64(stats.buy_fills);
            Some(FillRecord {
                ts,
                side: Side::Buy,
                mode,
                qty: o.qty,
                price: o.price,
                fee_quote: Money(fee),
                quote_delta: Money(0 - total),
                realized_pnl: None,
            })
        }
        Side::Sell => {
            if high.0 < o.price.0 || st.base.0 <= 0 || o.price.0 < 0 {
                return None;
            }
            let q = min_i64(o.qty.0, st.base.0);
            if q <= 0 {
                return None;
            }
            let gross = match mul_div_opt(q, o.price.0, SCALE) {
                Some(g) => g,
                None => {
                    return None;
                }
            };
            if gross > MAX_AMOUNT {
                return None;
            }
            proof {
                assert(gross * maker_fee_bps.0 / 10_000 <= gross) by (nonlinear_arith)
                    requires 0 <= gross, 0 <= maker_fee_bps.0 <= 10_000;
                assert(0 <= gross * maker_fee_bps.0 / 10_000) by (nonlinear_arith)
                    requires 0 <= gross, 0 <= maker_fee_bps.0;
            }
            let fee = mul_div(gross, maker_fee_bps.0, 10_000);
            let proceeds = gross - fee;
            proof {
                assert(st.cost_basis_quote.0 * q / (st.base.0 as int) <= st.cost_basis_quote.0)
                    by (nonlinear_arith)
                    requires 0 <= st.cost_basis_quote.0, 0 < q <= st.base.0;
                assert(0 <= st.cost_basis_quote.0 * q / (st.base.0 as int)) by (nonlinear_arith)
                    requires 0 <= st.cost_basis_quote.0, 0 < q, 0 < st.base.0;
            }
            let removed = mul_div(st.cost_basis_quote.0, q, st.base.0);
            let realized = proceeds - removed;
            if proceeds > MAX_AMOUNT - st.quote.0 {
                return None;
            }
            let new_base = st.base.0 - q;
            st.quote = Money(st.quote.0 + proceeds);
            st.base = Qty(new_base);
            st.cost_basis_quote = Money(
                if new_base == 0 {
                    0
                } else {
                    st.cost_basis_quote.0 - removed
                },
            );
            stats.sell_fills = inc_u64(stats.sell_fills);
            if realized > 0 {
                stats.winning_sells = inc_u64(stats.winning_sells);
                stats.gross_profit = Money(add_sat(stats.gross_profit.0, realized));
            } else if realized < 0 {
                stats.losing_sells = inc_u64(stats.losing_sells);
                stats.gross_loss = Money(add_sat(stats.gross_loss.0, 0 - realized));
            }
            Some(FillRecord {
                ts,
                side: Side::Sell,
                mode,
                qty: Qty(q),
                price: o.price,
                fee_quote: Money(fee),
                quote_delta: Money(proceeds),
                realized_pnl: Some(Money(realized)),
            })
        }
    }
}

/// All orders of one bar applied in sequence.
pub open spec fn spec_fill_bar(
    st: LedgerState,
    stats: TradeStats,
    orders: Seq<DesiredOrder>,
    low: int,
    high: int,
    ts: TimestampMs,
    mode: FillMode,
    maker_fee: int,
) -> (LedgerState, TradeStats, Seq<FillRecord>)
    decreases orders.len(),
{
    if orders.len() == 0 {
        (st, stats, Seq::empty())
    } else {
        let head = spec_apply_order(st, stats, orders[0], low, high, ts, mode, maker_fee);
        let rest = spec_fill_bar(
            head.0,
            head.1,
            orders.drop_first(),
            low,
            high,
            ts,
            mode,
            maker_fee,
        );
        (
            rest.0,
            rest.1,
            match head.2 {
                Some(rec) => seq![rec] + rest.2,
                None => rest.2,
            },
        )
    }
}

/// Apply every order of the bar, in the given (already prioritized) order.
/// Returns the fills that executed.
pub fn fill_bar(
    st: &mut LedgerState,
    stats: &mut TradeStats,
    orders: &Vec<DesiredOrder>,
    low: Price,
    high: Price,
    ts: TimestampMs,
    mode: FillMode,
    maker_fee_bps: Bps,
) -> (r: Vec<FillRecord>)
    requires
        ledger_wf(*old(st)),
        stats_wf(*old(stats)),
        0 <= maker_fee_bps.0 <= 10_000,
    ensures
        (*final(st), *final(stats), r@) == spec_fill_bar(
            *old(st),
            *old(stats),
            orders@,
            low.0 as int,
            high.0 as int,
            ts,
            mode,
            maker_fee_bps.0 as int,
        ),
        ledger_wf(*final(st)),
        stats_wf(*final(stats)),
{
    let mut recs: Vec<FillRecord> = Vec::new();
    let mut i: usize = 0;
    let ghost st0 = *st;
    let ghost stats0 = *stats;
    proof {
        assert(orders@.subrange(0, orders@.len() as int) =~= orders@);
        let rest0 = spec_fill_bar(
            st0,
            stats0,
            orders@,
            low.0 as int,
            high.0 as int,
            ts,
            mode,
            maker_fee_bps.0 as int,
        );
        assert(Seq::<FillRecord>::empty() + rest0.2 =~= rest0.2);
    }
    while i < orders.len()
        invariant
            0 <= i <= orders@.len(),
            ledger_wf(*st),
            stats_wf(*stats),
            0 <= maker_fee_bps.0 <= 10_000,
            spec_fill_bar(
                st0,
                stats0,
                orders@,
                low.0 as int,
                high.0 as int,
                ts,
                mode,
                maker_fee_bps.0 as int,
            ) == {
                let rest = spec_fill_bar(
                    *st,
                    *stats,
                    orders@.subrange(i as int, orders@.len() as int),
                    low.0 as int,
                    high.0 as int,
                    ts,
                    mode,
                    maker_fee_bps.0 as int,
                );
                (rest.0, rest.1, recs@ + rest.2)
            },
        decreases orders@.len() - i,
    {
        let ghost pre_st = *st;
        let ghost pre_stats = *stats;
        let ghost suffix = orders@.subrange(i as int, orders@.len() as int);
        let rec = apply_order(st, stats, &orders[i], low, high, ts, mode, maker_fee_bps);
        proof {
            assert(suffix[0] == orders@[i as int]);
            assert(suffix.drop_first() =~= orders@.subrange(i + 1int, orders@.len() as int));
        }
        match rec {
            Some(fr) => {
                proof {
                    let rest = spec_fill_bar(
                        *st,
                        *stats,
                        orders@.subrange(i + 1int, orders@.len() as int),
                        low.0 as int,
                        high.0 as int,
                        ts,
                        mode,
                        maker_fee_bps.0 as int,
                    );
                    assert(recs@ + (seq![fr] + rest.2) =~= (recs@ + seq![fr]) + rest.2);
                    assert(recs@.push(fr) =~= recs@ + seq![fr]);
                }
                recs.push(fr);
            }
            None => {}
        }
        i = i + 1;
    }
    proof {
        assert(orders@.subrange(orders@.len() as int, orders@.len() as int)
            =~= Seq::<DesiredOrder>::empty());
        assert(recs@ + Seq::<FillRecord>::empty() =~= recs@);
    }
    recs
}

} // verus!
