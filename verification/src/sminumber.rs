use vstd::prelude::*;
use crate::decimal::{
    add_spec, le_spec, lt_spec, mul_spec, neg_spec, Decimal, PRECISION,
};
use crate::arith::{trunc_div, trunc_rem, lemma_std_div};
use std::cmp::Ordering;

verus! {

/// The arithmetic a number type of the engine offers.
pub trait JSNumber {}

/// A number: a small integer, or a fixed-point decimal.
#[derive(Debug, Clone, Copy, PartialEq, Eq, Structural)]
pub enum SMINumber {
    SMI(i32),
    Float(Decimal),
}

/// The decimal an integer stands for.
pub open spec fn decimal_of_int(i: int) -> Decimal {
    Decimal::Number((i * PRECISION) as i128)
}

/// The decimal a number stands for.
pub open spec fn to_decimal(x: SMINumber) -> Decimal {
    match x {
        SMINumber::SMI(i) => decimal_of_int(i as int),
        SMINumber::Float(d) => d,
    }
}

/// Combines two numbers: two small integers by `int_op`, anything else as decimals by
/// `dec_op`.
pub open spec fn combine(
    a: SMINumber,
    b: SMINumber,
    int_op: spec_fn(int, int) -> int,
    dec_op: spec_fn(Decimal, Decimal) -> Decimal,
) -> SMINumber {
    match (a, b) {
        (SMINumber::SMI(i), SMINumber::SMI(j)) => SMINumber::SMI(int_op(i as int, j as int) as i32),
        _ => SMINumber::Float(dec_op(to_decimal(a), to_decimal(b))),
    }
}

/// Whether a number is a decimal number other than `i128::MIN`, or a small integer.
pub open spec fn negatable(x: SMINumber) -> bool {
    to_decimal(x) != Decimal::Number(i128::MIN)
}

/// Whether a number is finite: a small integer or a decimal number.
pub open spec fn finite(x: SMINumber) -> bool {
    to_decimal(x) is Number
}

proof fn lemma_scaled(i: i32)
    ensures
        i128::MIN < i * PRECISION < i128::MAX,
        (i * PRECISION) as i128 != i128::MIN,
{
    assert(-0x8000_0000 * PRECISION <= i * PRECISION <= 0x7FFF_FFFF * PRECISION) by (nonlinear_arith)
        requires
            -0x8000_0000 <= i <= 0x7FFF_FFFF,
    ;
}

proof fn lemma_scaled_order(i: int, j: int)
    ensures
        i < j <==> i * PRECISION < j * PRECISION,
        i == j <==> i * PRECISION == j * PRECISION,
{
}

fn decimal_of(x: SMINumber) -> (r: Decimal)
    ensures
        r == to_decimal(x),
{
    match x {
        SMINumber::SMI(i) => {
            proof {
                lemma_scaled(i);
            }
            Decimal::from_i32(i)
        },
        SMINumber::Float(d) => d,
    }
}

/// How two decimals are ordered, or `None` when either is not-a-number.
pub open spec fn decimal_order(a: Decimal, b: Decimal) -> Option<Ordering> {
    if lt_spec(a, b) {
        Some(Ordering::Less)
    } else if lt_spec(b, a) {
        Some(Ordering::Greater)
    } else if a == b && a != Decimal::NaN {
        Some(Ordering::Equal)
    } else {
        None
    }
}

impl SMINumber {
    /// How the two are ordered as decimals; `None` when either is not-a-number.
    pub fn partial_cmp(&self, other: &Self) -> (r: Option<Ordering>)
        ensures
            r == decimal_order(to_decimal(*self), to_decimal(*other)),
    {
        if self.lt(other) {
            Some(Ordering::Less)
        } else if other.lt(self) {
            Some(Ordering::Greater)
        } else if self.eq(other) && decimal_of(*self) != Decimal::NaN {
            Some(Ordering::Equal)
        } else {
            None
        }
    }

    /// The small integer, or zero for a decimal.
    pub fn to_int32(&self) -> (r: i32)
        ensures
            r == (match *self {
                SMINumber::SMI(i) => i,
                SMINumber::Float(_) => 0,
            }),
    {
        match self {
            SMINumber::SMI(i) => *i,
            SMINumber::Float(_) => 0,
        }
    }

    /// The small integer, or `None` for a decimal.
    pub fn to_i64(&self) -> (r: Option<i64>)
        ensures
            r == (match *self {
                SMINumber::SMI(i) => Some(i as i64),
                SMINumber::Float(_) => None,
            }),
    {
        match self {
            SMINumber::SMI(i) => Some(*i as i64),
            SMINumber::Float(_) => None,
        }
    }

    /// The sum; two small integers must have a sum that fits in 32 bits.
    pub fn add(self, rhs: Self) -> (r: Self)
        requires
            (self, rhs) matches (SMINumber::SMI(i), SMINumber::SMI(j)) ==> i32::MIN <= i + j
                <= i32::MAX,
        ensures
            r == combine(self, rhs, |x: int, y: int| x + y, |a: Decimal, b: Decimal| add_spec(a, b)),
    {
        match (self, rhs) {
            (SMINumber::SMI(i), SMINumber::SMI(j)) => SMINumber::SMI(i + j),
            _ => SMINumber::Float(decimal_of(self).add(decimal_of(rhs))),
        }
    }

    /// The difference; two small integers must have a difference that fits in 32 bits, and
    /// a decimal subtrahend must not be `i128::MIN`.
    pub fn sub(self, rhs: Self) -> (r: Self)
        requires
            (self, rhs) matches (SMINumber::SMI(i), SMINumber::SMI(j)) ==> i32::MIN <= i - j
                <= i32::MAX,
            negatable(rhs),
        ensures
            r == combine(
                self,
                rhs,
                |x: int, y: int| x - y,
                |a: Decimal, b: Decimal| add_spec(a, neg_spec(b)),
            ),
    {
        match (self, rhs) {
            (SMINumber::SMI(i), SMINumber::SMI(j)) => SMINumber::SMI(i - j),
            _ => SMINumber::Float(decimal_of(self).sub(decimal_of(rhs))),
        }
    }

    /// The product; two small integers must have a product that fits in 32 bits, and no
    /// decimal may be `i128::MIN`.
    pub fn mul(self, rhs: Self) -> (r: Self)
        requires
            (self, rhs) matches (SMINumber::SMI(i), SMINumber::SMI(j)) ==> i32::MIN <= i * j
                <= i32::MAX,
            negatable(self),
            negatable(rhs),
        ensures
            r == combine(self, rhs, |x: int, y: int| x * y, |a: Decimal, b: Decimal| mul_spec(a, b)),
    {
        match (self, rhs) {
            (SMINumber::SMI(i), SMINumber::SMI(j)) => SMINumber::SMI(i * j),
            _ => SMINumber::Float(decimal_of(self).mul(decimal_of(rhs))),
        }
    }

    /// The quotient, always a decimal. Two small integers divide as integers, rounding
    /// toward zero, and the quotient becomes a decimal; otherwise both must be finite, the
    /// divisor not zero, and the dividend small enough to scale (see `Decimal::div`).
    pub fn div(self, rhs: Self) -> (r: Self)
        requires
            (self, rhs) matches (SMINumber::SMI(i), SMINumber::SMI(j)) ==> j != 0 && !(i
                == i32::MIN && j == -1),
            !(self is SMI && rhs is SMI) ==> {
                &&& finite(self)
                &&& finite(rhs)
                &&& to_decimal(rhs)->Number_0 != 0
                &&& i128::MIN <= to_decimal(self)->Number_0 * PRECISION <= i128::MAX
            },
        ensures
            (self, rhs) matches (SMINumber::SMI(i), SMINumber::SMI(j)) ==> r == SMINumber::Float(
                decimal_of_int(trunc_div(i as int, j as int)),
            ),
            !(self is SMI && rhs is SMI) ==> r == SMINumber::Float(
                Decimal::Number(
                    trunc_div(
                        to_decimal(self)->Number_0 * PRECISION,
                        to_decimal(rhs)->Number_0 as int,
                    ) as i128,
                ),
            ),
    {
        match (self, rhs) {
            (SMINumber::SMI(i), SMINumber::SMI(j)) => {
                proof {
                    lemma_std_div(i as int, j as int);
                }
                let q = i.checked_div(j).unwrap();
                proof {
                    lemma_scaled(q);
                }
                SMINumber::Float(Decimal::from_i32(q))
            },
            _ => SMINumber::Float(decimal_of(self).div(decimal_of(rhs))),
        }
    }

    /// The remainder, rounding toward zero. Two small integers give a small integer (the
    /// divisor not zero, and not `i32::MIN % -1`); otherwise both must be finite and the
    /// divisor not zero.
    pub fn rem(self, rhs: Self) -> (r: Self)
        requires
            (self, rhs) matches (SMINumber::SMI(i), SMINumber::SMI(j)) ==> j != 0 && !(i
                == i32::MIN && j == -1),
            !(self is SMI && rhs is SMI) ==> finite(self) && finite(rhs) && to_decimal(
                rhs,
            )->Number_0 != 0,
        ensures
            (self, rhs) matches (SMINumber::SMI(i), SMINumber::SMI(j)) ==> r == SMINumber::SMI(
                trunc_rem(i as int, j as int) as i32,
            ),
            !(self is SMI && rhs is SMI) ==> r == SMINumber::Float(
                Decimal::Number(
                    trunc_rem(
                        to_decimal(self)->Number_0 as int,
                        to_decimal(rhs)->Number_0 as int,
                    ) as i128,
                ),
            ),
    {
        match (self, rhs) {
            (SMINumber::SMI(i), SMINumber::SMI(j)) => {
                proof {
                    lemma_std_div(i as int, j as int);
                }
                SMINumber::SMI(i.checked_rem(j).unwrap())
            },
            _ => SMINumber::Float(decimal_of(self).rem(decimal_of(rhs))),
        }
    }

    pub fn add_assign(&mut self, rhs: Self)
        requires
            (*old(self), rhs) matches (SMINumber::SMI(i), SMINumber::SMI(j)) ==> i32::MIN <= i
                + j <= i32::MAX,
        ensures
            *final(self) == combine(
                *old(self),
                rhs,
                |x: int, y: int| x + y,
                |a: Decimal, b: Decimal| add_spec(a, b),
            ),
    {
        *self = self.add(rhs);
    }

    pub fn sub_assign(&mut self, rhs: Self)
        requires
            (*old(self), rhs) matches (SMINumber::SMI(i), SMINumber::SMI(j)) ==> i32::MIN <= i
                - j <= i32::MAX,
            negatable(rhs),
        ensures
            *final(self) == combine(
                *old(self),
                rhs,
                |x: int, y: int| x - y,
                |a: Decimal, b: Decimal| add_spec(a, neg_spec(b)),
            ),
    {
        *self = self.sub(rhs);
    }

    pub fn mul_assign(&mut self, rhs: Self)
        requires
            (*old(self), rhs) matches (SMINumber::SMI(i), SMINumber::SMI(j)) ==> i32::MIN <= i
                * j <= i32::MAX,
            negatable(*old(self)),
            negatable(rhs),
        ensures
            *final(self) == combine(
                *old(self),
                rhs,
                |x: int, y: int| x * y,
                |a: Decimal, b: Decimal| mul_spec(a, b),
            ),
    {
        *self = self.mul(rhs);
    }

    pub fn div_assign(&mut self, rhs: Self)
        requires
            (*old(self), rhs) matches (SMINumber::SMI(i), SMINumber::SMI(j)) ==> j != 0 && !(i
                == i32::MIN && j == -1),
            !(*old(self) is SMI && rhs is SMI) ==> {
                &&& finite(*old(self))
                &&& finite(rhs)
                &&& to_decimal(rhs)->Number_0 != 0
                &&& i128::MIN <= to_decimal(*old(self))->Number_0 * PRECISION <= i128::MAX
            },
        ensures
            (*old(self), rhs) matches (SMINumber::SMI(i), SMINumber::SMI(j)) ==> *final(self)
                == SMINumber::Float(decimal_of_int(trunc_div(i as int, j as int))),
            !(*old(self) is SMI && rhs is SMI) ==> *final(self) == SMINumber::Float(
                Decimal::Number(
                    trunc_div(
                        to_decimal(*old(self))->Number_0 * PRECISION,
                        to_decimal(rhs)->Number_0 as int,
                    ) as i128,
                ),
            ),
    {
        *self = self.div(rhs);
    }

    pub fn rem_assign(&mut self, rhs: Self)
        requires
            (*old(self), rhs) matches (SMINumber::SMI(i), SMINumber::SMI(j)) ==> j != 0 && !(i
                == i32::MIN && j == -1),
            !(*old(self) is SMI && rhs is SMI) ==> finite(*old(self)) && finite(rhs)
                && to_decimal(rhs)->Number_0 != 0,
        ensures
            (*old(self), rhs) matches (SMINumber::SMI(i), SMINumber::SMI(j)) ==> *final(self)
                == SMINumber::SMI(trunc_rem(i as int, j as int) as i32),
            !(*old(self) is SMI && rhs is SMI) ==> *final(self) == SMINumber::Float(
                Decimal::Number(
                    trunc_rem(
                        to_decimal(*old(self))->Number_0 as int,
                        to_decimal(rhs)->Number_0 as int,
                    ) as i128,
                ),
            ),
    {
        *self = self.rem(rhs);
    }

    /// Whether `self < other`, comparing as decimals.
    pub fn lt(&self, other: &Self) -> (r: bool)
        ensures
            r == lt_spec(to_decimal(*self), to_decimal(*other)),
    {
        match (self, other) {
            (SMINumber::SMI(i), SMINumber::SMI(j)) => {
                proof {
                    lemma_scaled(*i);
                    lemma_scaled(*j);
                    lemma_scaled_order(*i as int, *j as int);
                }
                *i < *j
            },
            _ => decimal_of(*self).lt(&decimal_of(*other)),
        }
    }

    /// Whether `self <= other`, comparing as decimals.
    pub fn le(&self, other: &Self) -> (r: bool)
        ensures
            r == le_spec(to_decimal(*self), to_decimal(*other)),
    {
        match (self, other) {
            (SMINumber::SMI(i), SMINumber::SMI(j)) => {
                proof {
                    lemma_scaled(*i);
                    lemma_scaled(*j);
                    lemma_scaled_order(*i as int, *j as int);
                }
                *i <= *j
            },
            _ => decimal_of(*self).le(&decimal_of(*other)),
        }
    }

    /// Whether `self > other`, comparing as decimals.
    pub fn gt(&self, other: &Self) -> (r: bool)
        ensures
            r == lt_spec(to_decimal(*other), to_decimal(*self)),
    {
        other.lt(self)
    }

    /// Whether `self >= other`, comparing as decimals.
    pub fn ge(&self, other: &Self) -> (r: bool)
        ensures
            r == le_spec(to_decimal(*other), to_decimal(*self)),
    {
        other.le(self)
    }

    /// Whether the two stand for the same decimal (not-a-number equals itself).
    pub fn eq(&self, other: &Self) -> (r: bool)
        ensures
            r == (to_decimal(*self) == to_decimal(*other)),
    {
        match (self, other) {
            (SMINumber::SMI(i), SMINumber::SMI(j)) => {
                proof {
                    lemma_scaled(*i);
                    lemma_scaled(*j);
                    lemma_scaled_order(*i as int, *j as int);
                }
                *i == *j
            },
            _ => decimal_of(*self) == decimal_of(*other),
        }
    }
}

} // verus!
