use mmbot::grid::DesiredOrder;
use mmbot::grid::GridParams;
use mmbot::grid::Inventory;
use mmbot::grid::Side;
use mmbot::grid::build_grid;
use mmbot::types::Bps;
use mmbot::types::Money;
use mmbot::types::Price;
use mmbot::types::Qty;
use mmbot::types::Ratio;
use mmbot::types::SCALE;

fn params() -> GridParams {
    GridParams {
        levels: 3,
        step: Bps(10),
        base_quote_per_order: Money(50 * SCALE),
        max_size_mult: Ratio(2 * SCALE),
        soft_min: Ratio(40 * SCALE / 100),
        soft_max: Ratio(60 * SCALE / 100),
        hard_min: Ratio(35 * SCALE / 100),
        hard_max: Ratio(65 * SCALE / 100),
        min_base_qty: Qty(SCALE / 10_000),
    }
}

fn notional(o: &DesiredOrder) -> i64 {
    ((o.qty.0 as i128) * (o.price.0 as i128) / (SCALE as i128)) as i64
}

#[test]
fn builds_orders() {
    let inv = Inventory {
        base: Qty(SCALE),
        quote: Money(1000 * SCALE),
    };
    let mid = Price(1000 * SCALE);
    let anchor = Price(1000 * SCALE);
    let orders = build_grid(anchor, mid, inv, params()).unwrap();
    assert!(!orders.is_empty());
}

#[test]
fn returns_none_if_outside_hard_band() {
    // nearly everything in base
    let inv = Inventory {
        base: Qty(10 * SCALE),
        quote: Money(10 * SCALE),
    };
    let mid = Price(1000 * SCALE);
    let anchor = Price(1000 * SCALE);
    let orders = build_grid(anchor, mid, inv, params());
    assert!(orders.is_none());
}

#[test]
fn caps_total_sell_qty_to_available_base() {
    let inv = Inventory {
        base: Qty(SCALE / 50),
        quote: Money(20 * SCALE),
    };
    let mid = Price(1000 * SCALE);
    let anchor = Price(1000 * SCALE);

    let orders = build_grid(anchor, mid, inv, params()).unwrap();
    let total_sell_qty: i64 = orders
        .iter()
        .filter(|o| o.side == Side::Sell)
        .map(|o| o.qty.0)
        .sum();

    assert!(total_sell_qty <= inv.base.0);
}

#[test]
fn caps_total_buy_notional_to_available_quote() {
    let inv = Inventory {
        base: Qty(SCALE / 50),
        quote: Money(20 * SCALE),
    };
    let mid = Price(1000 * SCALE);
    let anchor = Price(1000 * SCALE);

    let orders = build_grid(anchor, mid, inv, params()).unwrap();
    let total_buy_notional: i64 = orders
        .iter()
        .filter(|o| o.side == Side::Buy)
        .map(notional)
        .sum();

    assert!(total_buy_notional <= inv.quote.0);
}

#[test]
fn over_target_base_biases_toward_sells() {
    // base ratio 0.6 at mid 1000
    let inv = Inventory {
        base: Qty(6 * SCALE),
        quote: Money(4000 * SCALE),
    };
    let mid = Price(1000 * SCALE);
    let anchor = Price(1000 * SCALE);

    let orders = build_grid(anchor, mid, inv, params()).unwrap();
    let total_buy_qty: i64 = orders
        .iter()
        .filter(|o| o.side == Side::Buy)
        .map(|o| o.qty.0)
        .sum();
    let total_sell_qty: i64 = orders
        .iter()
        .filter(|o| o.side == Side::Sell)
        .map(|o| o.qty.0)
        .sum();

    assert!(total_sell_qty > total_buy_qty);
}

#[test]
fn under_target_base_biases_toward_buys() {
    // base ratio 0.4 at mid 1000
    let inv = Inventory {
        base: Qty(4 * SCALE),
        quote: Money(6000 * SCALE),
    };
    let mid = Price(1000 * SCALE);
    let anchor = Price(1000 * SCALE);

    let orders = build_grid(anchor, mid, inv, params()).unwrap();
    let total_buy_qty: i64 = orders
        .iter()
        .filter(|o| o.side == Side::Buy)
        .map(|o| o.qty.0)
        .sum();
    let total_sell_qty: i64 = orders
        .iter()
        .filter(|o| o.side == Side::Sell)
        .map(|o| o.qty.0)
        .sum();

    assert!(total_buy_qty > total_sell_qty);
}

#[test]
fn buys_price_below_anchor_sells_above() {
    let inv = Inventory {
        base: Qty(SCALE),
        quote: Money(1000 * SCALE),
    };
    let anchor = Price(1000 * SCALE);
    let orders = build_grid(anchor, anchor, inv, params()).unwrap();
    for o in &orders {
        match o.side {
            Side::Buy => assert!(o.price.0 < anchor.0),
            Side::Sell => assert!(o.price.0 > anchor.0),
        }
        assert!(o.qty.0 >= params().min_base_qty.0);
    }
}

#[test]
fn rejects_negative_inventory() {
    let inv = Inventory {
        base: Qty(-1),
        quote: Money(1000 * SCALE),
    };
    let anchor = Price(1000 * SCALE);
    assert!(build_grid(anchor, anchor, inv, params()).is_none());
}

#[test]
fn rejects_zero_levels_and_bad_prices() {
    let inv = Inventory {
        base: Qty(SCALE),
        quote: Money(1000 * SCALE),
    };
    let mut p = params();
    p.levels = 0;
    assert!(build_grid(Price(1000 * SCALE), Price(1000 * SCALE), inv, p).is_none());
    assert!(build_grid(Price(0), Price(1000 * SCALE), inv, params()).is_none());
    assert!(build_grid(Price(1000 * SCALE), Price(0), inv, params()).is_none());
}
