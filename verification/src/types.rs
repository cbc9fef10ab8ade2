//! Domain value types with explicit units.
//!
//! Every quantity-like value (price, quantity, money, ratio) is a fixed-point
//! integer: the stored `i64` is the real value multiplied by [`SCALE`].
//! Keeping the unit in the type prevents mixing (a price never adds to a
//! quantity), and keeping the representation integral makes every operation
//! exact and provable.

use vstd::prelude::*;

verus! {

/// Fixed-point scale: a stored value of `SCALE` means `1.0` in real terms.
pub const SCALE: i64 = 1_000_000;

/// Bound on the magnitude of any well-formed amount (price, qty, money).
/// `MAX_AMOUNT * MAX_AMOUNT / SCALE` still fits an `i64`, so a product of two
/// well-formed amounts rescaled by [`SCALE`] never overflows.
pub const MAX_AMOUNT: i64 = 1_000_000_000_000;

/// Bound on basis-point parameters (`MAX_BPS` bps = 100x).
pub const MAX_BPS: i64 = 1_000_000;

/// An amount within the well-formed range.
pub open spec fn amount_ok(v: i64) -> bool {
    -MAX_AMOUNT <= v <= MAX_AMOUNT
}

/// Price of the traded asset in quote currency per unit of base.
#[derive(Clone, Copy, Debug, PartialEq, Eq, Structural)]
pub struct Price(pub i64);

/// Quantity of the base asset.
#[derive(Clone, Copy, Debug, PartialEq, Eq, Structural)]
pub struct Qty(pub i64);

/// Amount of quote currency.
#[derive(Clone, Copy, Debug, PartialEq, Eq, Structural)]
pub struct Money(pub i64);

/// Basis points (1 bps = 0.01%), stored without rescaling.
#[derive(Clone, Copy, Debug, PartialEq, Eq, Structural)]
pub struct Bps(pub i64);

/// Dimensionless fraction, fixed-point at [`SCALE`] (`SCALE` means `1.0`).
#[derive(Clone, Copy, Debug, PartialEq, Eq, Structural)]
pub struct Ratio(pub i64);

/// Unix-epoch time in milliseconds.
#[derive(Clone, Copy, Debug, PartialEq, Eq, Structural)]
pub struct TimestampMs(pub i64);

/// Portfolio value expressed in quote currency.
#[derive(Clone, Copy, Debug, PartialEq, Eq, Structural)]
pub struct Equity {
    pub total: Money,
}

impl Equity {
    pub fn new(total: Money) -> (r: Self)
        ensures
            r.total == total,
    {
        Equity { total }
    }
}

/// `a * b / d` on non-negative operands, computed without intermediate
/// overflow. The result is the mathematical floor quotient.
pub fn mul_div(a: i64, b: i64, d: i64) -> (r: i64)
    requires
        0 <= a,
        0 <= b,
        0 < d,
        a * b / (d as int) <= i64::MAX,
    ensures
        r == a * b / (d as int),
        0 <= r,
{
    proof {
        assert((a as int) * (b as int) <= (i64::MAX as int) * (i64::MAX as int)) by (nonlinear_arith)
            requires 0 <= a <= i64::MAX, 0 <= b <= i64::MAX;
    }
    let prod: u128 = (a as u128) * (b as u128);
    let q: u128 = prod / (d as u128);
    proof {
        assert(prod == a * b);
        assert(q == a * b / (d as int));
        assert(0 <= a * b / (d as int)) by (nonlinear_arith)
            requires 0 <= a, 0 <= b, 0 < d;
    }
    q as i64
}

/// `a * b / d` rounded down, or `None` when the quotient exceeds `i64::MAX`.
pub fn mul_div_opt(a: i64, b: i64, d: i64) -> (r: Option<i64>)
    requires
        0 <= a,
        0 <= b,
        0 < d,
    ensures
        a * b / (d as int) <= i64::MAX ==> r == Some::<i64>((a * b / (d as int)) as i64),
        a * b / (d as int) > i64::MAX ==> r is None,
{
    proof {
        assert((a as int) * (b as int) <= (i64::MAX as int) * (i64::MAX as int)) by (nonlinear_arith)
            requires 0 <= a <= i64::MAX, 0 <= b <= i64::MAX;
    }
    let prod: u128 = (a as u128) * (b as u128);
    let q: u128 = prod / (d as u128);
    proof {
        assert(prod == a * b);
        assert(q == a * b / (d as int));
        assert(0 <= a * b / (d as int)) by (nonlinear_arith)
            requires 0 <= a, 0 <= b, 0 < d;
    }
    if q <= i64::MAX as u128 {
        Some(q as i64)
    } else {
        None
    }
}

/// Saturating increment, as a value.
pub open spec fn spec_inc_u64(a: u64) -> u64 {
    if a < u64::MAX {
        (a + 1) as u64
    } else {
        a
    }
}

/// Saturating addition of non-negative values, as a value.
pub open spec fn spec_add_sat(a: int, b: int) -> int {
    if a + b <= i64::MAX {
        a + b
    } else {
        i64::MAX as int
    }
}

/// Saturating addition of non-negative machine integers.
pub fn add_sat(a: i64, b: i64) -> (r: i64)
    requires
        0 <= a,
        0 <= b,
    ensures
        r == if a + b <= i64::MAX { a + b } else { i64::MAX as int },
{
    if b <= i64::MAX - a {
        a + b
    } else {
        i64::MAX
    }
}

/// Saturating increment of a counter.
pub fn inc_u64(a: u64) -> (r: u64)
    ensures
        r == if a < u64::MAX { a + 1 } else { a as int },
{
    if a < u64::MAX {
        a + 1
    } else {
        a
    }
}

/// Floor division of a non-negative amount by a positive count.
pub fn div_count(a: i64, b: u64) -> (r: i64)
    requires
        0 <= a,
        0 < b,
    ensures
        r == a as int / (b as int),
        0 <= r <= a,
{
    proof {
        assert(a as int / (b as int) <= a) by (nonlinear_arith)
            requires 0 <= a, 0 < b;
        assert(0 <= a as int / (b as int)) by (nonlinear_arith)
            requires 0 <= a, 0 < b;
    }
    ((a as u128) / (b as u128)) as i64
}

/// `a * b / d` for a `u64` count against fixed-point factors.
pub fn mul_div_u64(a: u64, b: i64, d: u64) -> (r: i64)
    requires
        0 <= b,
        0 < d,
        (a as int) * (b as int) / (d as int) <= i64::MAX,
    ensures
        r == (a as int) * (b as int) / (d as int),
        0 <= r,
{
    proof {
        assert((a as int) * (b as int) <= (u64::MAX as int) * (i64::MAX as int))
            by (nonlinear_arith)
            requires 0 <= a <= u64::MAX, 0 <= b <= i64::MAX;
        assert(0 <= (a as int) * (b as int)) by (nonlinear_arith)
            requires 0 <= a, 0 <= b;
        assert(0 <= (a as int) * (b as int) / (d as int)) by (nonlinear_arith)
            requires 0 <= (a as int) * (b as int), 0 < d;
    }
    let prod: u128 = (a as u128) * (b as u128);
    let q: u128 = prod / (d as u128);
    q as i64
}

/// The smaller of two machine integers.
pub fn min_i64(a: i64, b: i64) -> (r: i64)
    ensures
        r == if a <= b { a } else { b },
{
    if a <= b { a } else { b }
}

impl Bps {
    /// Basis points as a fixed-point ratio: 1 bps is `SCALE / 10_000`.
    pub fn as_ratio(self) -> (r: Ratio)
        requires
            0 <= self.0 <= MAX_BPS,
        ensures
            r.0 == self.0 * SCALE / 10_000int,
    {
        proof {
            assert(self.0 * SCALE / 10_000int == self.0 * 100) by (nonlinear_arith)
                requires 0 <= self.0;
        }
        Ratio(self.0 * 100)
    }
}

impl Ratio {
    /// Clamp into the unit interval `[0, 1]` (`[0, SCALE]` in fixed point).
    pub fn clamp_01(self) -> (r: Self)
        ensures
            r.0 == if self.0 < 0 { 0int } else if self.0 > SCALE { SCALE as int } else { self.0 as int },
    {
        if self.0 < 0 {
            Ratio(0)
        } else if self.0 > SCALE {
            Ratio(SCALE)
        } else {
            self
        }
    }
}

impl Money {
    /// Sum of two money amounts.
    pub fn add(self, rhs: Money) -> (r: Money)
        requires
            amount_ok(self.0),
            amount_ok(rhs.0),
        ensures
            r.0 == self.0 + rhs.0,
    {
        Money(self.0 + rhs.0)
    }

    /// Difference of two money amounts.
    pub fn sub(self, rhs: Money) -> (r: Money)
        requires
            amount_ok(self.0),
            amount_ok(rhs.0),
        ensures
            r.0 == self.0 - rhs.0,
    {
        Money(self.0 - rhs.0)
    }

    /// Money divided by a price gives a quantity of base.
    pub fn div(self, price: Price) -> (r: Qty)
        requires
            0 <= self.0 <= MAX_AMOUNT,
            0 < price.0,
        ensures
            r.0 == self.0 * SCALE / (price.0 as int),
    {
        proof {
            assert(self.0 * SCALE / (price.0 as int) <= self.0 * SCALE) by (nonlinear_arith)
                requires 0 <= self.0, 0 < price.0;
            assert(self.0 * SCALE <= (MAX_AMOUNT as int) * (SCALE as int)) by (nonlinear_arith)
                requires 0 <= self.0 <= MAX_AMOUNT;
        }
        Qty(mul_div(self.0, SCALE, price.0))
    }
}

impl Qty {
    /// Quantity times price gives money.
    pub fn mul(self, price: Price) -> (r: Money)
        requires
            0 <= self.0 <= MAX_AMOUNT,
            0 <= price.0 <= MAX_AMOUNT,
        ensures
            r.0 == self.0 * price.0 / (SCALE as int),
    {
        proof {
            lemma_amount_product_bounded(self.0 as int, price.0 as int);
        }
        Money(mul_div(self.0, price.0, SCALE))
    }
}

/// The rescaled product of two well-formed amounts fits an `i64`.
pub proof fn lemma_amount_product_bounded(a: int, b: int)
    requires
        0 <= a <= MAX_AMOUNT,
        0 <= b <= MAX_AMOUNT,
    ensures
        0 <= a * b / (SCALE as int) <= 1_000_000_000_000_000_000,
        a * b / (SCALE as int) <= i64::MAX,
{
    assert(a * b <= (MAX_AMOUNT as int) * (MAX_AMOUNT as int)) by (nonlinear_arith)
        requires 0 <= a <= MAX_AMOUNT, 0 <= b <= MAX_AMOUNT;
    assert(a * b / (SCALE as int) <= (MAX_AMOUNT as int) * (MAX_AMOUNT as int) / (SCALE as int)) by (nonlinear_arith)
        requires a * b <= (MAX_AMOUNT as int) * (MAX_AMOUNT as int), 0 <= a * b;
    assert((MAX_AMOUNT as int) * (MAX_AMOUNT as int) / (SCALE as int)
        == 1_000_000_000_000_000_000) by (nonlinear_arith);
    assert(0 <= a * b / (SCALE as int)) by (nonlinear_arith)
        requires 0 <= a, 0 <= b;
}

/// `a <= b * s / p` implies `a * p / s <= b` (floor division both ways).
/// This is what lets a budget-capped order size be subtracted from the
/// budget without going negative.
pub proof fn lemma_capped_mul_div(a: int, b: int, s: int, p: int)
    requires
        0 <= a,
        0 <= b,
        0 < s,
        0 < p,
        a <= b * s / p,
    ensures
        a * p / s <= b,
        a * p <= b * s,
{
    assert(a * p <= (b * s / p) * p) by (nonlinear_arith)
        requires 0 <= a, 0 < p, a <= b * s / p;
    assert((b * s / p) * p <= b * s) by (nonlinear_arith)
        requires 0 <= b, 0 < s, 0 < p;
    assert(a * p / s <= b * s / s) by (nonlinear_arith)
        requires a * p <= b * s, 0 < s;
    assert(b * s / s == b) by (nonlinear_arith)
        requires 0 < s;
}

} // verus!
