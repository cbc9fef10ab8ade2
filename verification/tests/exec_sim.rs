use mmbot::exec_sim::ExecutionModel;
use mmbot::types::Bps;
use mmbot::types::Money;
use mmbot::types::Price;
use mmbot::types::SCALE;

fn model(fee: i64, spread: i64, slip: i64) -> ExecutionModel {
    ExecutionModel {
        fee_bps: Bps(fee),
        spread_bps: Bps(spread),
        slippage_bps: Bps(slip),
    }
}

#[test]
fn buy_fill_is_above_mid_sell_fill_below_mid() {
    let m = model(10, 8, 2);
    let mid = Price(100 * SCALE);

    assert!(m.buy_fill_price(mid).0 > mid.0);
    assert!(m.sell_fill_price(mid).0 < mid.0);
}

#[test]
fn buy_cost_does_not_exceed_budget_when_sized_by_budget() {
    let m = model(10, 8, 2);
    let budget = Money(1000 * SCALE);
    let mid = Price(200 * SCALE);
    let qty = m.buy_qty_for_quote(budget, mid);
    let cost = m.buy_cost(qty, mid);

    assert!(cost.0 <= budget.0);
}

#[test]
fn round_trip_loses_money_with_costs() {
    let m = model(10, 10, 5);
    let mid = Price(100 * SCALE);
    let quote = Money(1000 * SCALE);
    let qty = m.buy_qty_for_quote(quote, mid);
    let proceeds = m.sell_proceeds(qty, mid);

    assert!(proceeds.0 < quote.0);
}

#[test]
fn fill_prices_are_exact() {
    // spread 8 bps and slippage 2 bps: factor 20012/20000 on buys
    let m = model(10, 8, 2);
    let mid = Price(100 * SCALE);
    assert_eq!(m.buy_fill_price(mid).0, 100 * SCALE / 20_000 * 20_012);
    assert_eq!(m.sell_fill_price(mid).0, 100 * SCALE / 20_000 * 19_988);
}

#[test]
fn zero_budget_buys_nothing() {
    let m = model(10, 8, 2);
    assert_eq!(m.buy_qty_for_quote(Money(0), Price(100 * SCALE)).0, 0);
    assert_eq!(m.buy_qty_for_quote(Money(100), Price(0)).0, 0);
}

#[test]
fn negative_bps_are_clamped_to_zero() {
    let m = model(-5, -5, -5);
    let mid = Price(100 * SCALE);
    assert_eq!(m.buy_fill_price(mid).0, mid.0);
    assert_eq!(m.sell_fill_price(mid).0, mid.0);
}
