use vstd::prelude::*;
use crate::arith::{trunc_div, trunc_rem, lemma_std_div};
use crate::text::push_str;

verus! {

/// The scale of a decimal: a number `n` stands for `n / 10^18`.
pub const PRECISION: i128 = 1_000_000_000_000_000_000i128;

/// A fixed-point decimal with eighteen digits after the point, or an infinity (`true` when
/// negative), or not-a-number.
#[derive(Debug, Clone, Copy, PartialEq, Eq, Structural)]
pub enum Decimal {
    Number(i128),
    Infinity(bool),
    NaN,
}

/// Whether a decimal counts as positive: zero and above, or positive infinity.
pub open spec fn is_positive_spec(d: Decimal) -> bool {
    match d {
        Decimal::Number(n) => n >= 0,
        Decimal::Infinity(neg) => !neg,
        Decimal::NaN => false,
    }
}

/// The sum of two decimals. Infinities of one sign absorb numbers, infinities of opposite
/// signs give not-a-number, and a sum past the `i128` range becomes the infinity of its sign.
pub open spec fn add_spec(a: Decimal, b: Decimal) -> Decimal {
    match (a, b) {
        (Decimal::NaN, _) => Decimal::NaN,
        (_, Decimal::NaN) => Decimal::NaN,
        (Decimal::Infinity(n), Decimal::Infinity(m)) => if n == m {
            Decimal::Infinity(n)
        } else {
            Decimal::NaN
        },
        (Decimal::Infinity(_), _) => a,
        (_, Decimal::Infinity(_)) => b,
        (Decimal::Number(i), Decimal::Number(j)) => {
            let s = i + j;
            if s > i128::MAX {
                Decimal::Infinity(false)
            } else if s < i128::MIN {
                Decimal::Infinity(true)
            } else {
                Decimal::Number(s as i128)
            }
        },
    }
}

/// The negation of a decimal.
pub open spec fn neg_spec(a: Decimal) -> Decimal {
    match a {
        Decimal::Number(n) => Decimal::Number((-n) as i128),
        Decimal::Infinity(neg) => Decimal::Infinity(!neg),
        Decimal::NaN => Decimal::NaN,
    }
}

/// The magnitude of the product of two numbers, scaled back: `|i| * |j| / 10^18`, rounded
/// toward zero.
pub open spec fn mul_magnitude(i: int, j: int) -> int {
    crate::arith::abs(i) * crate::arith::abs(j) / (PRECISION as int)
}

/// The product of two decimals. Numbers multiply in fixed point; a product past the `i128`
/// range becomes the infinity of its sign. An infinity times an infinity has the sign of the
/// product; an infinity `Infinity(n)` times anything else `m` gives
/// `Infinity(n != is_positive(m))`.
pub open spec fn mul_spec(a: Decimal, b: Decimal) -> Decimal {
    match (a, b) {
        (Decimal::NaN, _) => Decimal::NaN,
        (_, Decimal::NaN) => Decimal::NaN,
        (Decimal::Infinity(n), Decimal::Infinity(m)) => Decimal::Infinity(n != m),
        (Decimal::Infinity(n), _) => Decimal::Infinity(n != is_positive_spec(b)),
        (_, Decimal::Infinity(m)) => Decimal::Infinity(m != is_positive_spec(a)),
        (Decimal::Number(i), Decimal::Number(j)) => {
            let neg = (i < 0) != (j < 0);
            let q = mul_magnitude(i as int, j as int);
            if q > i128::MAX {
                Decimal::Infinity(neg)
            } else if neg {
                Decimal::Number((-q) as i128)
            } else {
                Decimal::Number(q as i128)
            }
        },
    }
}

/// The order of decimals: not-a-number is unordered, and the infinities lie beyond every
/// number.
pub open spec fn lt_spec(a: Decimal, b: Decimal) -> bool {
    match (a, b) {
        (Decimal::NaN, _) => false,
        (_, Decimal::NaN) => false,
        (Decimal::Infinity(n), Decimal::Infinity(m)) => n && !m,
        (Decimal::Infinity(n), _) => n,
        (_, Decimal::Infinity(m)) => !m,
        (Decimal::Number(i), Decimal::Number(j)) => i < j,
    }
}

/// `a <= b`: less, or equal and not not-a-number.
pub open spec fn le_spec(a: Decimal, b: Decimal) -> bool {
    lt_spec(a, b) || (a == b && a != Decimal::NaN)
}

proof fn lemma_split_product(a1: int, a0: int, b1: int, b0: int, p: int)
    requires
        p > 0,
        0 <= a0 < p,
        0 <= b0 < p,
        a1 >= 0,
        b1 >= 0,
    ensures
        ((a1 * p + a0) * (b1 * p + b0)) / p == a1 * b1 * p + a1 * b0 + a0 * b1 + (a0 * b0) / p,
        a1 * b0 >= 0,
        a0 * b1 >= 0,
        a0 * b0 >= 0,
        a1 * b1 >= 0,
{
    let k = a1 * b1 * p + a1 * b0 + a0 * b1;
    let x = a1 * p;
    let y = b1 * p;
    assert((x + a0) * (y + b0) == x * y + x * b0 + a0 * y + a0 * b0) by (nonlinear_arith);
    assert(x * y == (a1 * b1 * p) * p) by (nonlinear_arith)
        requires
            x == a1 * p,
            y == b1 * p,
    ;
    assert(x * b0 == (a1 * b0) * p) by (nonlinear_arith)
        requires
            x == a1 * p,
    ;
    assert(a0 * y == (a0 * b1) * p) by (nonlinear_arith)
        requires
            y == b1 * p,
    ;
    assert(k * p == (a1 * b1 * p) * p + (a1 * b0) * p + (a0 * b1) * p) by (nonlinear_arith)
        requires
            k == a1 * b1 * p + a1 * b0 + a0 * b1,
    ;
    vstd::arithmetic::div_mod::lemma_hoist_over_denominator(a0 * b0, k, p as nat);
    assert(a1 * b0 >= 0 && a0 * b1 >= 0 && a0 * b0 >= 0 && a1 * b1 >= 0) by (nonlinear_arith)
        requires
            a1 >= 0,
            b1 >= 0,
            a0 >= 0,
            b0 >= 0,
    ;
    vstd::arithmetic::div_mod::lemma_div_pos_is_pos(a0 * b0, p);
}

/// `a * b / 10^18` for two magnitudes below `2^127`, or `None` when it is more than
/// `i128::MAX`.
fn mul_magnitudes(a: u128, b: u128) -> (r: Option<u128>)
    requires
        a <= i128::MAX,
        b <= i128::MAX,
    ensures
        r matches Some(q) ==> q == a * b / (PRECISION as int) && q <= i128::MAX,
        r is None ==> a * b / (PRECISION as int) > i128::MAX,
{
    let p: u128 = 1_000_000_000_000_000_000u128;
    let a1 = a / p;
    let a0 = a % p;
    let b1 = b / p;
    let b0 = b % p;
    proof {
        vstd::arithmetic::div_mod::lemma_fundamental_div_mod(a as int, p as int);
        vstd::arithmetic::div_mod::lemma_fundamental_div_mod(b as int, p as int);
        assert(a == a1 * p + a0 && b == b1 * p + b0) by (nonlinear_arith)
            requires
                a == p * a1 + a0,
                b == p * b1 + b0,
        ;
        lemma_split_product(a1 as int, a0 as int, b1 as int, b0 as int, p as int);
        assert(a1 * b0 <= a && a0 * b1 <= b) by (nonlinear_arith)
            requires
                a == a1 * p + a0,
                b == b1 * p + b0,
                0 <= a0 < p,
                0 <= b0 < p,
                a1 >= 0,
                b1 >= 0,
        ;
        assert(a0 * b0 <= p * p) by (nonlinear_arith)
            requires
                0 <= a0 < p,
                0 <= b0 < p,
        ;
    }
    let t1 = match a1.checked_mul(b1) {
        Some(x) => match x.checked_mul(p) {
            Some(y) => y,
            None => {
                return None;
            },
        },
        None => {
            proof {
                assert(a1 * b1 * p >= a1 * b1) by (nonlinear_arith)
                    requires
                        a1 * b1 >= 0,
                        p >= 1,
                ;
            }
            return None;
        },
    };
    let t2 = a1 * b0;
    let t3 = a0 * b1;
    let t4 = a0 * b0 / p;
    let s1 = match t1.checked_add(t2) {
        Some(x) => x,
        None => {
            return None;
        },
    };
    let s2 = match s1.checked_add(t3) {
        Some(x) => x,
        None => {
            return None;
        },
    };
    let s3 = match s2.checked_add(t4) {
        Some(x) => x,
        None => {
            return None;
        },
    };
    if s3 > i128::MAX as u128 {
        None
    } else {
        Some(s3)
    }
}

impl Decimal {
    pub fn is_positive(&self) -> (r: bool)
        ensures
            r == is_positive_spec(*self),
    {
        match self {
            Decimal::Number(n) => *n >= 0,
            Decimal::Infinity(n) => !n,
            Decimal::NaN => false,
        }
    }

    pub fn positive_infinity() -> (r: Self)
        ensures
            r == Decimal::Infinity(false),
    {
        Decimal::Infinity(false)
    }

    pub fn negative_infinity() -> (r: Self)
        ensures
            r == Decimal::Infinity(true),
    {
        Decimal::Infinity(true)
    }

    /// The decimal whose scaled representation is `n`, standing for `n / 10^18`.
    pub fn number(n: i128) -> (r: Self)
        ensures
            r == Decimal::Number(n),
    {
        Decimal::Number(n)
    }

    /// The decimal standing for the integer `i`.
    pub fn from_i32(i: i32) -> (r: Self)
        ensures
            r == Decimal::Number((i * PRECISION) as i128),
    {
        Decimal::Number(i as i128 * PRECISION)
    }

    /// The negation; the number `i128::MIN` has none.
    pub fn neg(self) -> (r: Self)
        requires
            self != Decimal::Number(i128::MIN),
        ensures
            r == neg_spec(self),
    {
        match self {
            Decimal::Number(n) => Decimal::Number(-n),
            Decimal::Infinity(n) => Decimal::Infinity(!n),
            Decimal::NaN => Decimal::NaN,
        }
    }

    pub fn add(self, rhs: Self) -> (r: Self)
        ensures
            r == add_spec(self, rhs),
    {
        match (self, rhs) {
            (Decimal::NaN, _) => Decimal::NaN,
            (_, Decimal::NaN) => Decimal::NaN,
            (Decimal::Infinity(n), Decimal::Infinity(m)) => {
                if n == m {
                    Decimal::Infinity(n)
                } else {
                    Decimal::NaN
                }
            },
            (Decimal::Infinity(_), _) => self,
            (_, Decimal::Infinity(_)) => rhs,
            (Decimal::Number(i), Decimal::Number(j)) => {
                match i.checked_add(j) {
                    Some(s) => Decimal::number(s),
                    None => {
                        if (j > 0) {
                            Decimal::positive_infinity()
                        } else {
                            Decimal::negative_infinity()
                        }
                    },
                }
            },
        }
    }

    /// The difference: the sum with the negation of `rhs`, which must have one.
    pub fn sub(self, rhs: Self) -> (r: Self)
        requires
            rhs != Decimal::Number(i128::MIN),
        ensures
            r == add_spec(self, neg_spec(rhs)),
    {
        self.add(rhs.neg())
    }

    /// The product (see `mul_spec`); neither number may be `i128::MIN`.
    pub fn mul(self, rhs: Self) -> (r: Self)
        requires
            self != Decimal::Number(i128::MIN),
            rhs != Decimal::Number(i128::MIN),
        ensures
            r == mul_spec(self, rhs),
    {
        match (self, rhs) {
            (Decimal::NaN, _) => Decimal::NaN,
            (_, Decimal::NaN) => Decimal::NaN,
            (Decimal::Infinity(n), Decimal::Infinity(m)) => Decimal::Infinity(n != m),
            (Decimal::Infinity(n), m) => Decimal::Infinity(n != m.is_positive()),
            (n, Decimal::Infinity(m)) => Decimal::Infinity(m != n.is_positive()),
            (Decimal::Number(i), Decimal::Number(j)) => {
                let neg = (i < 0) != (j < 0);
                let ai: u128 = if i < 0 {
                    (-i) as u128
                } else {
                    i as u128
                };
                let aj: u128 = if j < 0 {
                    (-j) as u128
                } else {
                    j as u128
                };
                match mul_magnitudes(ai, aj) {
                    Some(q) => {
                        let qi = q as i128;
                        if neg {
                            Decimal::Number(-qi)
                        } else {
                            Decimal::Number(qi)
                        }
                    },
                    None => Decimal::Infinity(neg),
                }
            },
        }
    }

    /// The quotient of two numbers, `i * 10^18 / j` rounded toward zero; `j` must not be
    /// zero and `i * 10^18` must fit in an `i128`.
    pub fn div(self, rhs: Self) -> (r: Self)
        requires
            self is Number,
            rhs is Number,
            rhs->Number_0 != 0,
            i128::MIN <= self->Number_0 * PRECISION <= i128::MAX,
        ensures
            r == Decimal::Number(trunc_div(self->Number_0 * PRECISION, rhs->Number_0 as int) as i128),
    {
        match (self, rhs) {
            (Decimal::Number(i), Decimal::Number(j)) => {
                let scaled = i * PRECISION;
                proof {
                    lemma_std_div(scaled as int, j as int);
                    assert(scaled != i128::MIN) by {
                        assert(i128::MIN % PRECISION != 0);
                        vstd::arithmetic::div_mod::lemma_mod_multiples_basic(i as int, PRECISION as int);
                    }
                }
                Decimal::Number(scaled.checked_div(j).unwrap())
            },
            _ => self,
        }
    }

    /// The remainder of two numbers, rounded toward zero as the quotient is; `j` must not be
    /// zero.
    pub fn rem(self, rhs: Self) -> (r: Self)
        requires
            self is Number,
            rhs is Number,
            rhs->Number_0 != 0,
        ensures
            r == Decimal::Number(trunc_rem(self->Number_0 as int, rhs->Number_0 as int) as i128),
    {
        match (self, rhs) {
            (Decimal::Number(i), Decimal::Number(j)) => {
                proof {
                    lemma_std_div(i as int, j as int);
                }
                if i == i128::MIN && j == -1 {
                    Decimal::Number(0)
                } else {
                    Decimal::Number(i.checked_rem(j).unwrap())
                }
            },
            _ => self,
        }
    }

    /// Whether `self < rhs` (see `lt_spec`).
    pub fn lt(&self, rhs: &Self) -> (r: bool)
        ensures
            r == lt_spec(*self, *rhs),
    {
        match (self, rhs) {
            (Decimal::NaN, _) => false,
            (_, Decimal::NaN) => false,
            (Decimal::Infinity(n), Decimal::Infinity(m)) => *n && !*m,
            (Decimal::Infinity(n), _) => *n,
            (_, Decimal::Infinity(m)) => !*m,
            (Decimal::Number(i), Decimal::Number(j)) => *i < *j,
        }
    }

    /// Whether `self <= rhs` (see `le_spec`).
    pub fn le(&self, rhs: &Self) -> (r: bool)
        ensures
            r == le_spec(*self, *rhs),
    {
        self.lt(rhs) || (*self == *rhs && *self != Decimal::NaN)
    }
}

/// A string value.
#[derive(Debug, Clone)]
pub struct JSString(pub String);

impl View for JSString {
    type V = Seq<char>;

    open spec fn view(&self) -> Seq<char> {
        self.0@
    }
}

impl JSString {
    /// Appends `other` to this string.
    pub fn concat(&mut self, other: &Self) -> (r: &mut Self)
        ensures
            r@ == old(self)@ + other@,
            *final(self) == *final(r),
    {
        push_str(&mut self.0, other.0.as_str());
        self
    }
}

/// Addition of decimals is commutative.
pub proof fn law_decimal_add_commutative(a: Decimal, b: Decimal)
    ensures
        add_spec(a, b) == add_spec(b, a),
{
}

/// Multiplication of decimals is commutative.
pub proof fn law_decimal_mul_commutative(a: Decimal, b: Decimal)
    ensures
        mul_spec(a, b) == mul_spec(b, a),
{
    if let (Decimal::Number(i), Decimal::Number(j)) = (a, b) {
        let x = crate::arith::abs(i as int);
        let y = crate::arith::abs(j as int);
        assert(x * y == y * x) by (nonlinear_arith);
    }
}

/// Negating twice gives the decimal back.
pub proof fn law_decimal_neg_involutive(a: Decimal)
    requires
        a != Decimal::Number(i128::MIN),
    ensures
        neg_spec(neg_spec(a)) == a,
{
}

/// Not-a-number absorbs every operation.
pub proof fn law_decimal_nan_absorbs(a: Decimal)
    ensures
        add_spec(a, Decimal::NaN) == Decimal::NaN,
        add_spec(Decimal::NaN, a) == Decimal::NaN,
        mul_spec(a, Decimal::NaN) == Decimal::NaN,
        mul_spec(Decimal::NaN, a) == Decimal::NaN,
{
}

/// A number minus itself is zero, and a number plus zero is itself.
pub proof fn law_decimal_identities(i: i128)
    requires
        i != i128::MIN,
    ensures
        add_spec(Decimal::Number(i), neg_spec(Decimal::Number(i))) == Decimal::Number(0),
        add_spec(Decimal::Number(i), Decimal::Number(0)) == Decimal::Number(i),
{
}

} // verus!
