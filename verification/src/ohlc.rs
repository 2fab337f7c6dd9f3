//! The price bar and its field-wise arithmetic.

use std::ops::{Add, Div, Sub};
use vstd::prelude::*;
use vstd::std_specs::ops::{AddSpecImpl, DivSpecImpl, SubSpecImpl};
use vstd::wrapping::i64_specs::{wrapping_add, wrapping_sub};

verus! {

/// Fixed-point units in one whole unit of a price or a volume.
pub const UNITS_PER_WHOLE: i64 = 1_000_000;

/// One time slice of market activity.
///
/// `time` and `count` are whole numbers. The six price and volume fields are
/// fixed-point numbers, counted in units of `1 / UNITS_PER_WHOLE`.
#[derive(Clone, Copy, Debug, PartialEq, Eq, Structural)]
pub struct OHLC {
    pub time: i64,
    pub open: i64,
    pub high: i64,
    pub low: i64,
    pub close: i64,
    pub vwap: i64,
    pub volume: i64,
    pub count: i64,
}

/// The fields of a bar.
#[derive(Clone, Copy, Debug, PartialEq, Eq, Structural)]
pub enum Field {
    Time,
    Open,
    High,
    Low,
    Close,
    Vwap,
    Volume,
    Count,
}

/// Quotient of `a` by a positive `n`, rounded toward zero.
pub open spec fn quot(a: int, n: int) -> int {
    if a >= 0 {
        a / n
    } else {
        -((-a) / n)
    }
}

/// The larger of `a` and `b` less the smaller, wrapped into `i64`.
pub open spec fn gap(a: i64, b: i64) -> i64 {
    if a >= b {
        wrapping_sub(a, b)
    } else {
        wrapping_sub(b, a)
    }
}

/// Computes `gap(a, b)`.
pub fn abs_gap(a: i64, b: i64) -> (d: i64)
    ensures
        d == gap(a, b),
{
    if a >= b {
        a.wrapping_sub(b)
    } else {
        b.wrapping_sub(a)
    }
}

/// Divides `a` by `n`, rounding toward zero.
pub fn div_trunc(a: i64, n: usize) -> (q: i64)
    requires
        n > 0,
    ensures
        q == quot(a as int, n as int),
{
    let m: u64 = n as u64;
    if m > 0x7fff_ffff_ffff_ffffu64 {
        if a == i64::MIN && m == 0x8000_0000_0000_0000u64 {
            -1
        } else {
            proof {
                let x: int = if a >= 0 { a as int } else { -(a as int) };
                assert(x / (m as int) == 0) by (nonlinear_arith)
                    requires
                        0 <= x < m,
                ;
            }
            0
        }
    } else {
        a / (m as i64)
    }
}

impl OHLC {
    /// The bar whose fields are all zero.
    pub open spec fn zero() -> OHLC {
        OHLC { time: 0, open: 0, high: 0, low: 0, close: 0, vwap: 0, volume: 0, count: 0 }
    }

    /// The value of one field.
    pub open spec fn field(self, which: Field) -> i64 {
        match which {
            Field::Time => self.time,
            Field::Open => self.open,
            Field::High => self.high,
            Field::Low => self.low,
            Field::Close => self.close,
            Field::Vwap => self.vwap,
            Field::Volume => self.volume,
            Field::Count => self.count,
        }
    }

    /// Field-wise sum. Each field wraps around at the bounds of `i64`.
    pub open spec fn plus(self, rhs: OHLC) -> OHLC {
        OHLC {
            time: wrapping_add(self.time, rhs.time),
            open: wrapping_add(self.open, rhs.open),
            high: wrapping_add(self.high, rhs.high),
            low: wrapping_add(self.low, rhs.low),
            close: wrapping_add(self.close, rhs.close),
            vwap: wrapping_add(self.vwap, rhs.vwap),
            volume: wrapping_add(self.volume, rhs.volume),
            count: wrapping_add(self.count, rhs.count),
        }
    }

    /// Field-wise difference. Each field wraps around at the bounds of `i64`.
    pub open spec fn minus(self, rhs: OHLC) -> OHLC {
        OHLC {
            time: wrapping_sub(self.time, rhs.time),
            open: wrapping_sub(self.open, rhs.open),
            high: wrapping_sub(self.high, rhs.high),
            low: wrapping_sub(self.low, rhs.low),
            close: wrapping_sub(self.close, rhs.close),
            vwap: wrapping_sub(self.vwap, rhs.vwap),
            volume: wrapping_sub(self.volume, rhs.volume),
            count: wrapping_sub(self.count, rhs.count),
        }
    }

    /// Field-wise quotient by a positive `n`, rounded toward zero.
    pub open spec fn over(self, n: int) -> OHLC {
        OHLC {
            time: quot(self.time as int, n) as i64,
            open: quot(self.open as int, n) as i64,
            high: quot(self.high as int, n) as i64,
            low: quot(self.low as int, n) as i64,
            close: quot(self.close as int, n) as i64,
            vwap: quot(self.vwap as int, n) as i64,
            volume: quot(self.volume as int, n) as i64,
            count: quot(self.count as int, n) as i64,
        }
    }

    /// Field-wise distance `|self - rhs|`. Each field wraps around at the
    /// bounds of `i64`.
    pub open spec fn distance(self, rhs: OHLC) -> OHLC {
        OHLC {
            time: gap(self.time, rhs.time),
            open: gap(self.open, rhs.open),
            high: gap(self.high, rhs.high),
            low: gap(self.low, rhs.low),
            close: gap(self.close, rhs.close),
            vwap: gap(self.vwap, rhs.vwap),
            volume: gap(self.volume, rhs.volume),
            count: gap(self.count, rhs.count),
        }
    }

    /// The additive identity.
    pub fn new_zero() -> (z: OHLC)
        ensures
            z == OHLC::zero(),
    {
        OHLC { time: 0, open: 0, high: 0, low: 0, close: 0, vwap: 0, volume: 0, count: 0 }
    }

    /// Field-wise distance between two bars.
    pub fn abs_diff(self, rhs: OHLC) -> (d: OHLC)
        ensures
            d == self.distance(rhs),
    {
        OHLC {
            time: abs_gap(self.time, rhs.time),
            open: abs_gap(self.open, rhs.open),
            high: abs_gap(self.high, rhs.high),
            low: abs_gap(self.low, rhs.low),
            close: abs_gap(self.close, rhs.close),
            vwap: abs_gap(self.vwap, rhs.vwap),
            volume: abs_gap(self.volume, rhs.volume),
            count: abs_gap(self.count, rhs.count),
        }
    }
}

impl AddSpecImpl for OHLC {
    open spec fn obeys_add_spec() -> bool {
        true
    }

    open spec fn add_req(self, rhs: OHLC) -> bool {
        true
    }

    open spec fn add_spec(self, rhs: OHLC) -> OHLC {
        self.plus(rhs)
    }
}

impl Add for OHLC {
    type Output = OHLC;

    /// Field-wise sum, wrapping in each field. Never fails.
    fn add(self, rhs: OHLC) -> (sum: OHLC)
        ensures
            sum == self.plus(rhs),
    {
        OHLC {
            time: self.time.wrapping_add(rhs.time),
            open: self.open.wrapping_add(rhs.open),
            high: self.high.wrapping_add(rhs.high),
            low: self.low.wrapping_add(rhs.low),
            close: self.close.wrapping_add(rhs.close),
            vwap: self.vwap.wrapping_add(rhs.vwap),
            volume: self.volume.wrapping_add(rhs.volume),
            count: self.count.wrapping_add(rhs.count),
        }
    }
}

impl SubSpecImpl for OHLC {
    open spec fn obeys_sub_spec() -> bool {
        true
    }

    open spec fn sub_req(self, rhs: OHLC) -> bool {
        true
    }

    open spec fn sub_spec(self, rhs: OHLC) -> OHLC {
        self.minus(rhs)
    }
}

impl Sub for OHLC {
    type Output = OHLC;

    /// Field-wise difference, wrapping in each field. The operands need not
    /// be ordered: a field of the result may be negative.
    fn sub(self, rhs: OHLC) -> (difference: OHLC)
        ensures
            difference == self.minus(rhs),
    {
        OHLC {
            time: self.time.wrapping_sub(rhs.time),
            open: self.open.wrapping_sub(rhs.open),
            high: self.high.wrapping_sub(rhs.high),
            low: self.low.wrapping_sub(rhs.low),
            close: self.close.wrapping_sub(rhs.close),
            vwap: self.vwap.wrapping_sub(rhs.vwap),
            volume: self.volume.wrapping_sub(rhs.volume),
            count: self.count.wrapping_sub(rhs.count),
        }
    }
}

impl DivSpecImpl<usize> for OHLC {
    open spec fn obeys_div_spec() -> bool {
        true
    }

    open spec fn div_req(self, rhs: usize) -> bool {
        rhs > 0
    }

    open spec fn div_spec(self, rhs: usize) -> OHLC {
        self.over(rhs as int)
    }
}

impl Div<usize> for OHLC {
    type Output = OHLC;

    /// Field-wise quotient by a positive count, each field rounded toward
    /// zero. Dividing by 0 is not allowed (`div_req`).
    fn div(self, rhs: usize) -> (quotient: OHLC)
        ensures
            quotient == self.over(rhs as int),
    {
        OHLC {
            time: div_trunc(self.time, rhs),
            open: div_trunc(self.open, rhs),
            high: div_trunc(self.high, rhs),
            low: div_trunc(self.low, rhs),
            close: div_trunc(self.close, rhs),
            vwap: div_trunc(self.vwap, rhs),
            volume: div_trunc(self.volume, rhs),
            count: div_trunc(self.count, rhs),
        }
    }
}

/// Adding the zero bar changes nothing, on either side.
pub proof fn lemma_zero_is_identity(a: OHLC)
    ensures
        a.plus(OHLC::zero()) == a,
        OHLC::zero().plus(a) == a,
        a.minus(OHLC::zero()) == a,
        a.minus(a) == OHLC::zero(),
{
}

/// Addition does not depend on the order or the grouping of its operands,
/// wrapped or not.
pub proof fn lemma_plus_is_commutative_and_associative(a: OHLC, b: OHLC, c: OHLC)
    ensures
        a.plus(b) == b.plus(a),
        a.plus(b).plus(c) == a.plus(b.plus(c)),
{
}

/// Subtraction undoes addition, wrapped or not.
pub proof fn lemma_minus_undoes_plus(a: OHLC, b: OHLC)
    ensures
        a.plus(b).minus(b) == a,
        a.plus(b).minus(a) == b,
        a.minus(b).plus(b) == a,
{
}

/// Dividing by 1 changes nothing, and the quotient of the zero bar is zero.
pub proof fn lemma_over_one(a: OHLC, n: int)
    requires
        n > 0,
    ensures
        a.over(1) == a,
        OHLC::zero().over(n) == OHLC::zero(),
{
    assert(0int / n == 0) by (nonlinear_arith)
        requires
            n > 0,
    ;
}

/// The distance is symmetric, and zero from a bar to itself.
pub proof fn lemma_distance_is_symmetric(a: OHLC, b: OHLC)
    ensures
        a.distance(b) == b.distance(a),
        a.distance(a) == OHLC::zero(),
{
}

} // verus!
