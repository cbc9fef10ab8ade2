use mmbot::rebalance::Portfolio;
use mmbot::rebalance::RebalanceDecision;
use mmbot::rebalance::RebalanceParams;
use mmbot::rebalance::rebalance_decision;
use mmbot::types::Money;
use mmbot::types::Price;
use mmbot::types::Qty;
use mmbot::types::Ratio;
use mmbot::types::SCALE;

fn params() -> RebalanceParams {
    RebalanceParams {
        target_base_ratio: Ratio(SCALE / 2),
        tolerance: Ratio(2 * SCALE / 100),
        fee_rate: Ratio(SCALE / 1000),
        min_quote_trade: Money(5 * SCALE),
    }
}

#[test]
fn noop_when_already_balanced() {
    let p = Portfolio {
        base: Qty(SCALE),
        quote: Money(1000 * SCALE),
    };
    // base value 1000, equity 2000: exactly half
    let mid = Price(1000 * SCALE);
    let d = rebalance_decision(p, mid, params()).unwrap();
    assert_eq!(d, RebalanceDecision::Noop);
}

#[test]
fn buy_when_underweight_base() {
    let p = Portfolio {
        base: Qty(SCALE / 5),
        quote: Money(1000 * SCALE),
    };
    // base value 200, equity 1200, target 600: buy about 400 worth
    let mid = Price(1000 * SCALE);
    let d = rebalance_decision(p, mid, params()).unwrap();
    match d {
        RebalanceDecision::BuyBase(q) => assert!(q.0 > 0),
        _ => panic!("expected buy"),
    }
}

#[test]
fn sell_when_overweight_base() {
    let p = Portfolio {
        base: Qty(2 * SCALE),
        quote: Money(100 * SCALE),
    };
    // base value 2000, equity 2100, target 1050: sell about 950 worth
    let mid = Price(1000 * SCALE);
    let d = rebalance_decision(p, mid, params()).unwrap();
    match d {
        RebalanceDecision::SellBase(q) => assert!(q.0 > 0),
        _ => panic!("expected sell"),
    }
}

#[test]
fn no_decision_without_equity() {
    let p = Portfolio {
        base: Qty(0),
        quote: Money(0),
    };
    assert!(rebalance_decision(p, Price(1000 * SCALE), params()).is_none());
}

#[test]
fn small_gap_below_minimum_trade_is_noop() {
    // gap just over tolerance but the trade is under the 5 quote minimum
    let p = Portfolio {
        base: Qty(47 * SCALE / 1000),
        quote: Money(53 * SCALE / 1000),
    };
    let mid = Price(SCALE);
    let d = rebalance_decision(p, mid, params()).unwrap();
    assert_eq!(d, RebalanceDecision::Noop);
}
