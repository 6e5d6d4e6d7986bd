use vstd::prelude::*;
use crate::arith::{trunc_div, trunc_rem, lemma_std_div};
use crate::text::push_str;

verus! {

/// A boolean value.
#[derive(Debug, Clone, Copy, PartialEq, Eq, Structural)]
pub struct JSBoolean(pub bool);

/// A big integer value; it holds nothing yet.
#[derive(Debug, Clone, Copy, PartialEq, Eq, Structural)]
pub struct JSBigint {}

/// A string value.
#[derive(Debug, Clone)]
pub struct JSString(pub String);

impl View for JSString {
    type V = Seq<char>;

    open spec fn view(&self) -> Seq<char> {
        self.0@
    }
}

impl JSString {
    /// Appends `other` to this string.
    pub fn op_concat(&mut self, other: &Self) -> (r: &mut Self)
        ensures
            r@ == old(self)@ + other@,
            *final(self) == *final(r),
    {
        push_str(&mut self.0, other.0.as_str());
        self
    }
}

/// The largest integer a number holds exactly.
pub const MAX_SAFE_INTEGER: i64 = 9007199254740991i64;
/// The smallest integer a number holds exactly.
pub const MIN_SAFE_INTEGER: i64 = -9007199254740991i64;

/// A number value: not-a-number, an infinity (`true` when positive), or an integer.
#[derive(Debug, Clone, Copy, PartialEq, Eq, Structural)]
pub enum JSNumber {
    NaN,
    Infinity(bool),
    Integer(i64),
}

/// `x` held down to the largest safe integer.
pub open spec fn clamp_high(x: int) -> int {
    if x > MAX_SAFE_INTEGER {
        MAX_SAFE_INTEGER as int
    } else {
        x
    }
}

/// `x` held up to the smallest safe integer.
pub open spec fn clamp_low(x: int) -> int {
    if x < MIN_SAFE_INTEGER {
        MIN_SAFE_INTEGER as int
    } else {
        x
    }
}

/// The low 32 bits of an integer, or zero for anything else.
pub open spec fn int32_of(x: JSNumber) -> i32 {
    match x {
        JSNumber::Integer(i) => i as i32,
        _ => 0,
    }
}

/// The sum. Not-a-number stays; an infinity stays unless the other is the opposite
/// infinity, which gives not-a-number; an integer plus an infinity is that infinity; two
/// integers add, held down to the largest safe integer.
pub open spec fn add_spec(a: JSNumber, b: JSNumber) -> JSNumber {
    match (a, b) {
        (JSNumber::NaN, _) => JSNumber::NaN,
        (JSNumber::Infinity(x), JSNumber::Infinity(y)) => if x != y {
            JSNumber::NaN
        } else {
            a
        },
        (JSNumber::Infinity(_), _) => a,
        (JSNumber::Integer(_), JSNumber::Infinity(_)) => b,
        (JSNumber::Integer(x), JSNumber::Integer(y)) => JSNumber::Integer(clamp_high(x + y) as i64),
        (JSNumber::Integer(_), JSNumber::NaN) => JSNumber::NaN,
    }
}

/// The difference. Not-a-number stays; an infinity minus the same infinity gives
/// not-a-number, and otherwise stays; an integer minus an infinity is the opposite
/// infinity; two integers subtract, held up to the smallest safe integer.
pub open spec fn sub_spec(a: JSNumber, b: JSNumber) -> JSNumber {
    match (a, b) {
        (JSNumber::NaN, _) => JSNumber::NaN,
        (JSNumber::Infinity(x), JSNumber::Infinity(y)) => if x == y {
            JSNumber::NaN
        } else {
            a
        },
        (JSNumber::Infinity(_), _) => a,
        (JSNumber::Integer(_), JSNumber::Infinity(y)) => JSNumber::Infinity(!y),
        (JSNumber::Integer(x), JSNumber::Integer(y)) => JSNumber::Integer(clamp_low(x - y) as i64),
        (JSNumber::Integer(_), JSNumber::NaN) => JSNumber::NaN,
    }
}

/// The product, with the sign rules of infinities; zero times an infinity is
/// not-a-number, and zero times an integer stays zero.
pub open spec fn mul_spec(a: JSNumber, b: JSNumber) -> JSNumber {
    match (a, b) {
        (JSNumber::NaN, _) => JSNumber::NaN,
        (JSNumber::Infinity(x), JSNumber::Infinity(y)) => JSNumber::Infinity(x == y),
        (JSNumber::Infinity(_), JSNumber::Integer(0)) => JSNumber::NaN,
        (JSNumber::Infinity(x), JSNumber::Integer(y)) => JSNumber::Infinity(x == (y >= 0)),
        (JSNumber::Infinity(_), JSNumber::NaN) => JSNumber::NaN,
        (JSNumber::Integer(0), JSNumber::Infinity(_)) => JSNumber::NaN,
        (JSNumber::Integer(0), JSNumber::Integer(_)) => a,
        (JSNumber::Integer(0), JSNumber::NaN) => JSNumber::NaN,
        (JSNumber::Integer(x), JSNumber::Infinity(y)) => JSNumber::Infinity((x >= 0) == y),
        (JSNumber::Integer(x), JSNumber::Integer(y)) => JSNumber::Integer((x * y) as i64),
        (JSNumber::Integer(_), JSNumber::NaN) => JSNumber::NaN,
    }
}

/// The quotient, rounding toward zero for integers; an integer other than zero divided by
/// zero is the infinity of its sign, and zero divided by zero is not-a-number.
pub open spec fn div_spec(a: JSNumber, b: JSNumber) -> JSNumber {
    match (a, b) {
        (JSNumber::NaN, _) => JSNumber::NaN,
        (JSNumber::Infinity(_), JSNumber::Infinity(_)) => JSNumber::NaN,
        (JSNumber::Infinity(x), JSNumber::Integer(y)) => JSNumber::Infinity(x == (y >= 0)),
        (JSNumber::Infinity(_), JSNumber::NaN) => JSNumber::NaN,
        (JSNumber::Integer(0), JSNumber::Integer(0)) => JSNumber::NaN,
        (JSNumber::Integer(0), JSNumber::NaN) => JSNumber::NaN,
        (JSNumber::Integer(0), _) => a,
        (JSNumber::Integer(x), JSNumber::Integer(0)) => JSNumber::Infinity(x >= 0),
        (JSNumber::Integer(_), JSNumber::Infinity(_)) => JSNumber::Integer(0),
        (JSNumber::Integer(x), JSNumber::Integer(y)) => JSNumber::Integer(
            trunc_div(x as int, y as int) as i64,
        ),
        (JSNumber::Integer(_), JSNumber::NaN) => JSNumber::NaN,
    }
}

/// The remainder, with the sign of the dividend; an infinity has none, an integer modulo
/// an infinity stays, and modulo zero is not-a-number.
pub open spec fn mod_spec(a: JSNumber, b: JSNumber) -> JSNumber {
    match (a, b) {
        (JSNumber::NaN, _) => JSNumber::NaN,
        (JSNumber::Infinity(_), _) => JSNumber::NaN,
        (JSNumber::Integer(_), JSNumber::Infinity(_)) => a,
        (JSNumber::Integer(_), JSNumber::Integer(0)) => JSNumber::NaN,
        (JSNumber::Integer(x), JSNumber::Integer(y)) => JSNumber::Integer(
            trunc_rem(x as int, y as int) as i64,
        ),
        (JSNumber::Integer(_), JSNumber::NaN) => JSNumber::NaN,
    }
}

/// Whether `a < b`: integers and infinities compare among themselves only.
pub open spec fn lt_spec(a: JSNumber, b: JSNumber) -> bool {
    match (a, b) {
        (JSNumber::Infinity(x), JSNumber::Infinity(y)) => !x && y,
        (JSNumber::Integer(x), JSNumber::Integer(y)) => x < y,
        _ => false,
    }
}

/// Whether `a <= b`: integers and infinities compare among themselves only.
pub open spec fn le_spec(a: JSNumber, b: JSNumber) -> bool {
    match (a, b) {
        (JSNumber::Infinity(x), JSNumber::Infinity(y)) => !x || y,
        (JSNumber::Integer(x), JSNumber::Integer(y)) => x <= y,
        _ => false,
    }
}

impl JSNumber {
    /// The low 32 bits of an integer, or zero for anything else.
    pub fn to_int32(&self) -> (r: i32)
        ensures
            r == int32_of(*self),
    {
        match self {
            JSNumber::Integer(i) => *i as i32,
            _ => 0,
        }
    }

    /// Holds an integer down to the largest safe integer.
    pub fn check_overflow(&mut self) -> (r: &mut Self)
        ensures
            *r == (match *old(self) {
                JSNumber::Integer(i) => JSNumber::Integer(clamp_high(i as int) as i64),
                other => other,
            }),
            *final(self) == *final(r),
    {
        match self {
            JSNumber::Integer(i) => {
                if *i > MAX_SAFE_INTEGER {
                    *i = MAX_SAFE_INTEGER;
                }
            },
            _ => {},
        }
        self
    }

    /// Holds an integer up to the smallest safe integer.
    pub fn check_underflow(&mut self) -> (r: &mut Self)
        ensures
            *r == (match *old(self) {
                JSNumber::Integer(i) => JSNumber::Integer(clamp_low(i as int) as i64),
                other => other,
            }),
            *final(self) == *final(r),
    {
        match self {
            JSNumber::Integer(i) => {
                if *i < MIN_SAFE_INTEGER {
                    *i = MIN_SAFE_INTEGER;
                }
            },
            _ => {},
        }
        self
    }

    /// The integer, or `None` for anything else.
    pub fn to_i64(&self) -> (r: Option<i64>)
        ensures
            r == (match *self {
                JSNumber::Integer(i) => Some(i),
                _ => None,
            }),
    {
        match self {
            JSNumber::Integer(i) => Some(*i),
            _ => None,
        }
    }

    /// Adds `other` in place (see `add_spec`); two integers must not overflow an `i64`.
    pub fn op_add(&mut self, other: &Self) -> (r: &mut Self)
        requires
            (*old(self), *other) matches (JSNumber::Integer(x), JSNumber::Integer(y))
                ==> i64::MIN <= x + y <= i64::MAX,
        ensures
            *r == add_spec(*old(self), *other),
            *final(self) == *final(r),
    {
        match (*self, *other) {
            (JSNumber::NaN, _) => {},
            (JSNumber::Infinity(x), JSNumber::Infinity(y)) => {
                if x != y {
                    *self = JSNumber::NaN;
                }
            },
            (JSNumber::Infinity(_), _) => {},
            (JSNumber::Integer(_), JSNumber::Infinity(_)) => {
                *self = *other;
            },
            (JSNumber::Integer(x), JSNumber::Integer(y)) => {
                *self = JSNumber::Integer(x + y);
                self.check_overflow();
            },
            (JSNumber::Integer(_), JSNumber::NaN) => {
                *self = JSNumber::NaN;
            },
        }
        self
    }

    /// Subtracts `other` in place (see `sub_spec`); two integers must not overflow an
    /// `i64`.
    pub fn op_sub(&mut self, other: &Self) -> (r: &mut Self)
        requires
            (*old(self), *other) matches (JSNumber::Integer(x), JSNumber::Integer(y))
                ==> i64::MIN <= x - y <= i64::MAX,
        ensures
            *r == sub_spec(*old(self), *other),
            *final(self) == *final(r),
    {
        match (*self, *other) {
            (JSNumber::NaN, _) => {},
            (JSNumber::Infinity(x), JSNumber::Infinity(y)) => {
                if x == y {
                    *self = JSNumber::NaN;
                }
            },
            (JSNumber::Infinity(_), _) => {},
            (JSNumber::Integer(_), JSNumber::Infinity(y)) => {
                *self = JSNumber::Infinity(!y);
            },
            (JSNumber::Integer(x), JSNumber::Integer(y)) => {
                *self = JSNumber::Integer(x - y);
                self.check_underflow();
            },
            (JSNumber::Integer(_), JSNumber::NaN) => {
                *self = JSNumber::NaN;
            },
        }
        self
    }

    /// Multiplies by `other` in place (see `mul_spec`); two integers must not overflow an
    /// `i64`.
    pub fn op_mul(&mut self, other: &Self) -> (r: &mut Self)
        requires
            (*old(self), *other) matches (JSNumber::Integer(x), JSNumber::Integer(y))
                ==> i64::MIN <= x * y <= i64::MAX,
        ensures
            *r == mul_spec(*old(self), *other),
            *final(self) == *final(r),
    {
        match (*self, *other) {
            (JSNumber::NaN, _) => {},
            (JSNumber::Infinity(x), JSNumber::Infinity(y)) => {
                *self = JSNumber::Infinity(x == y);
            },
            (JSNumber::Infinity(_), JSNumber::Integer(0)) => {
                *self = JSNumber::NaN;
            },
            (JSNumber::Infinity(x), JSNumber::Integer(y)) => {
                *self = JSNumber::Infinity(x == (y >= 0));
            },
            (JSNumber::Infinity(_), JSNumber::NaN) => {
                *self = JSNumber::NaN;
            },
            (JSNumber::Integer(0), JSNumber::Infinity(_)) => {
                *self = JSNumber::NaN;
            },
            (JSNumber::Integer(0), JSNumber::Integer(_)) => {},
            (JSNumber::Integer(0), JSNumber::NaN) => {
                *self = JSNumber::NaN;
            },
            (JSNumber::Integer(x), JSNumber::Infinity(y)) => {
                *self = JSNumber::Infinity((x >= 0) == y);
            },
            (JSNumber::Integer(x), JSNumber::Integer(y)) => {
                *self = JSNumber::Integer(x * y);
            },
            (JSNumber::Integer(_), JSNumber::NaN) => {
                *self = JSNumber::NaN;
            },
        }
        self
    }

    /// Divides by `other` in place (see `div_spec`); `i64::MIN / -1` has no quotient.
    pub fn op_div(&mut self, other: &Self) -> (r: &mut Self)
        requires
            !(*old(self) == JSNumber::Integer(i64::MIN) && *other == JSNumber::Integer(-1i64)),
        ensures
            *r == div_spec(*old(self), *other),
            *final(self) == *final(r),
    {
        match (*self, *other) {
            (JSNumber::NaN, _) => {},
            (JSNumber::Infinity(_), JSNumber::Infinity(_)) => {
                *self = JSNumber::NaN;
            },
            (JSNumber::Infinity(x), JSNumber::Integer(y)) => {
                *self = JSNumber::Infinity(x == (y >= 0));
            },
            (JSNumber::Infinity(_), JSNumber::NaN) => {
                *self = JSNumber::NaN;
            },
            (JSNumber::Integer(0), JSNumber::Integer(0)) => {
                *self = JSNumber::NaN;
            },
            (JSNumber::Integer(0), JSNumber::NaN) => {
                *self = JSNumber::NaN;
            },
            (JSNumber::Integer(0), _) => {},
            (JSNumber::Integer(x), JSNumber::Integer(0)) => {
                *self = JSNumber::Infinity(x >= 0);
            },
            (JSNumber::Integer(_), JSNumber::Infinity(_)) => {
                *self = JSNumber::Integer(0);
            },
            (JSNumber::Integer(x), JSNumber::Integer(y)) => {
                proof {
                    lemma_std_div(x as int, y as int);
                }
                *self = JSNumber::Integer(x.checked_div(y).unwrap());
            },
            (JSNumber::Integer(_), JSNumber::NaN) => {
                *self = JSNumber::NaN;
            },
        }
        self
    }

    /// The remainder of dividing by `other`, in place (see `mod_spec`); `i64::MIN % -1`
    /// has none.
    pub fn op_mod(&mut self, other: &Self) -> (r: &mut Self)
        requires
            !(*old(self) == JSNumber::Integer(i64::MIN) && *other == JSNumber::Integer(-1i64)),
        ensures
            *r == mod_spec(*old(self), *other),
            *final(self) == *final(r),
    {
        match (*self, *other) {
            (JSNumber::NaN, _) => {},
            (JSNumber::Infinity(_), _) => {
                *self = JSNumber::NaN;
            },
            (JSNumber::Integer(_), JSNumber::Infinity(_)) => {},
            (JSNumber::Integer(_), JSNumber::Integer(0)) => {
                *self = JSNumber::NaN;
            },
            (JSNumber::Integer(x), JSNumber::Integer(y)) => {
                proof {
                    lemma_std_div(x as int, y as int);
                }
                *self = JSNumber::Integer(x.checked_rem(y).unwrap());
            },
            (JSNumber::Integer(_), JSNumber::NaN) => {
                *self = JSNumber::NaN;
            },
        }
        self
    }

    /// The bitwise and of the low 32 bits of both, as an integer.
    pub fn op_bitand(&mut self, other: &Self) -> (r: &mut Self)
        ensures
            *r == JSNumber::Integer((int32_of(*old(self)) & int32_of(*other)) as i64),
            *final(self) == *final(r),
    {
        let v = self.to_int32() & other.to_int32();
        *self = JSNumber::Integer(v as i64);
        self
    }

    /// The bitwise or of the low 32 bits of both, as an integer.
    pub fn op_bitor(&mut self, other: &Self) -> (r: &mut Self)
        ensures
            *r == JSNumber::Integer((int32_of(*old(self)) | int32_of(*other)) as i64),
            *final(self) == *final(r),
    {
        let v = self.to_int32() | other.to_int32();
        *self = JSNumber::Integer(v as i64);
        self
    }

    /// The bitwise exclusive or of the low 32 bits of both, as an integer.
    pub fn op_bitxor(&mut self, other: &Self) -> (r: &mut Self)
        ensures
            *r == JSNumber::Integer((int32_of(*old(self)) ^ int32_of(*other)) as i64),
            *final(self) == *final(r),
    {
        let v = self.to_int32() ^ other.to_int32();
        *self = JSNumber::Integer(v as i64);
        self
    }

    /// The bitwise complement of the low 32 bits, as an integer.
    pub fn op_bitnot(&mut self) -> (r: &mut Self)
        ensures
            *r == JSNumber::Integer((!int32_of(*old(self))) as i64),
            *final(self) == *final(r),
    {
        let v = !self.to_int32();
        *self = JSNumber::Integer(v as i64);
        self
    }

    /// The low 32 bits shifted left by the other's low 32 bits, which must lie in `0..32`.
    pub fn op_lshift(&mut self, other: &Self) -> (r: &mut Self)
        requires
            0 <= int32_of(*other) < 32,
        ensures
            *r == JSNumber::Integer((int32_of(*old(self)) << (int32_of(*other) as u32)) as i64),
            *final(self) == *final(r),
    {
        let v = self.to_int32() << (other.to_int32() as u32);
        *self = JSNumber::Integer(v as i64);
        self
    }

    /// The low 32 bits shifted right, copying the sign bit, by the other's low 32 bits,
    /// which must lie in `0..32`.
    pub fn op_rshift(&mut self, other: &Self) -> (r: &mut Self)
        requires
            0 <= int32_of(*other) < 32,
        ensures
            *r == JSNumber::Integer((int32_of(*old(self)) >> (int32_of(*other) as u32)) as i64),
            *final(self) == *final(r),
    {
        let v = self.to_int32() >> (other.to_int32() as u32);
        *self = JSNumber::Integer(v as i64);
        self
    }

    pub fn op_lt(&self, other: &Self) -> (r: bool)
        ensures
            r == lt_spec(*self, *other),
    {
        match (self, other) {
            (JSNumber::Infinity(x), JSNumber::Infinity(y)) => !*x && *y,
            (JSNumber::Integer(x), JSNumber::Integer(y)) => *x < *y,
            _ => false,
        }
    }

    pub fn op_lte(&self, other: &Self) -> (r: bool)
        ensures
            r == le_spec(*self, *other),
    {
        match (self, other) {
            (JSNumber::Infinity(x), JSNumber::Infinity(y)) => !*x || *y,
            (JSNumber::Integer(x), JSNumber::Integer(y)) => *x <= *y,
            _ => false,
        }
    }

    pub fn op_gt(&self, other: &Self) -> (r: bool)
        ensures
            r == lt_spec(*other, *self),
    {
        other.op_lt(self)
    }

    pub fn op_gte(&self, other: &Self) -> (r: bool)
        ensures
            r == le_spec(*other, *self),
    {
        other.op_lte(self)
    }

    /// Negates in place; `i64::MIN` has no negation.
    pub fn op_neg(&mut self) -> (r: &mut Self)
        requires
            *old(self) != JSNumber::Integer(i64::MIN),
        ensures
            *r == (match *old(self) {
                JSNumber::NaN => JSNumber::NaN,
                JSNumber::Infinity(x) => JSNumber::Infinity(!x),
                JSNumber::Integer(x) => JSNumber::Integer((-x) as i64),
            }),
            *final(self) == *final(r),
    {
        match *self {
            JSNumber::NaN => {},
            JSNumber::Infinity(x) => {
                *self = JSNumber::Infinity(!x);
            },
            JSNumber::Integer(x) => {
                *self = JSNumber::Integer(-x);
            },
        }
        self
    }

    /// Adds one to an integer, held down to the largest safe integer; `i64::MAX` has no
    /// successor.
    pub fn op_inc(&mut self) -> (r: &mut Self)
        requires
            *old(self) != JSNumber::Integer(i64::MAX),
        ensures
            *r == (match *old(self) {
                JSNumber::Integer(x) => JSNumber::Integer(clamp_high(x + 1) as i64),
                other => other,
            }),
            *final(self) == *final(r),
    {
        match *self {
            JSNumber::Integer(x) => {
                *self = JSNumber::Integer(x + 1);
            },
            _ => {},
        }
        self.check_overflow()
    }

    /// Subtracts one from an integer, held up to the smallest safe integer; `i64::MIN` has
    /// no predecessor.
    pub fn op_dec(&mut self) -> (r: &mut Self)
        requires
            *old(self) != JSNumber::Integer(i64::MIN),
        ensures
            *r == (match *old(self) {
                JSNumber::Integer(x) => JSNumber::Integer(clamp_low(x - 1) as i64),
                other => other,
            }),
            *final(self) == *final(r),
    {
        match *self {
            JSNumber::Integer(x) => {
                *self = JSNumber::Integer(x - 1);
            },
            _ => {},
        }
        self.check_underflow()
    }
}

/// Subtraction undoes addition of integers, as long as the sum stays within the safe
/// integers (past them, addition holds the sum down).
pub proof fn law_sub_undoes_add(x: i64, y: i64)
    requires
        MIN_SAFE_INTEGER <= x,
        x + y <= MAX_SAFE_INTEGER,
        i64::MIN <= x + y,
    ensures
        sub_spec(add_spec(JSNumber::Integer(x), JSNumber::Integer(y)), JSNumber::Integer(y))
            == JSNumber::Integer(x),
{
}

/// Integer addition is commutative, and an integer plus an infinity is that infinity.
pub proof fn law_add_commutes(x: i64, y: i64, positive: bool)
    requires
        i64::MIN <= x + y <= i64::MAX,
    ensures
        add_spec(JSNumber::Integer(x), JSNumber::Integer(y)) == add_spec(
            JSNumber::Integer(y),
            JSNumber::Integer(x),
        ),
        add_spec(JSNumber::Integer(x), JSNumber::Infinity(positive)) == JSNumber::Infinity(
            positive,
        ),
{
}

/// The order is strict and agrees with itself: `a < b` exactly when `b > a` fails to be
/// `<=` the other way, for integers and infinities.
pub proof fn law_order_consistent(a: JSNumber, b: JSNumber)
    requires
        a !is NaN,
        b !is NaN,
        (a is Integer) == (b is Integer),
    ensures
        lt_spec(a, b) == !le_spec(b, a),
        !(lt_spec(a, b) && lt_spec(b, a)),
{
}

/// Multiplication is commutative, for every pair of numbers whose integer product fits.
pub proof fn law_mul_commutes(a: JSNumber, b: JSNumber)
    requires
        (a, b) matches (JSNumber::Integer(x), JSNumber::Integer(y)) ==> i64::MIN <= x * y
            <= i64::MAX,
    ensures
        mul_spec(a, b) == mul_spec(b, a),
{
    if let (JSNumber::Integer(x), JSNumber::Integer(y)) = (a, b) {
        assert(x * y == y * x) by (nonlinear_arith);
        assert(x * 0 == 0 && 0 * y == 0 && y * 0 == 0 && 0 * x == 0);
    }
}

/// The sign rule of multiplication: an infinity times a positive integer keeps its sign,
/// times a negative integer flips it, and times zero is not-a-number, in either order; two
/// integers multiply as integers; not-a-number absorbs everything.
pub proof fn law_mul_signs(x: bool, y: i64, z: i64, c: JSNumber)
    requires
        i64::MIN <= y * z <= i64::MAX,
    ensures
        y > 0 ==> mul_spec(JSNumber::Infinity(x), JSNumber::Integer(y)) == JSNumber::Infinity(x),
        y > 0 ==> mul_spec(JSNumber::Integer(y), JSNumber::Infinity(x)) == JSNumber::Infinity(x),
        y < 0 ==> mul_spec(JSNumber::Infinity(x), JSNumber::Integer(y)) == JSNumber::Infinity(!x),
        y < 0 ==> mul_spec(JSNumber::Integer(y), JSNumber::Infinity(x)) == JSNumber::Infinity(!x),
        mul_spec(JSNumber::Infinity(x), JSNumber::Integer(0)) is NaN,
        mul_spec(JSNumber::Integer(0), JSNumber::Infinity(x)) is NaN,
        mul_spec(JSNumber::Infinity(x), JSNumber::Infinity(x)) == JSNumber::Infinity(true),
        mul_spec(JSNumber::Infinity(x), JSNumber::Infinity(!x)) == JSNumber::Infinity(false),
        mul_spec(JSNumber::Integer(y), JSNumber::Integer(z)) == JSNumber::Integer((y * z) as i64),
        (y * z) as i64 == y * z,
        mul_spec(JSNumber::NaN, c) is NaN,
        mul_spec(c, JSNumber::NaN) is NaN,
{
    assert(0 * z == 0);
}

/// The sign rule of division: an infinity divided by a positive integer keeps its sign and by
/// a negative one flips it; an integer other than zero divided by zero is the infinity of its
/// sign; an integer divided by an infinity is zero; zero divided by zero is not-a-number.
pub proof fn law_div_signs(x: bool, y: i64)
    ensures
        y > 0 ==> div_spec(JSNumber::Infinity(x), JSNumber::Integer(y)) == JSNumber::Infinity(x),
        y < 0 ==> div_spec(JSNumber::Infinity(x), JSNumber::Integer(y)) == JSNumber::Infinity(!x),
        y > 0 ==> div_spec(JSNumber::Integer(y), JSNumber::Integer(0)) == JSNumber::Infinity(true),
        y < 0 ==> div_spec(JSNumber::Integer(y), JSNumber::Integer(0)) == JSNumber::Infinity(false),
        div_spec(JSNumber::Integer(y), JSNumber::Infinity(x)) == JSNumber::Integer(0),
        div_spec(JSNumber::Integer(0), JSNumber::Integer(0)) is NaN,
{
}

/// Adding infinities: the same infinity twice is that infinity, opposite infinities give
/// not-a-number, and an integer plus an infinity is that infinity.
pub proof fn law_add_infinities(x: bool, y: i64)
    ensures
        add_spec(JSNumber::Infinity(x), JSNumber::Infinity(x)) == JSNumber::Infinity(x),
        add_spec(JSNumber::Infinity(x), JSNumber::Infinity(!x)) is NaN,
        add_spec(JSNumber::Integer(y), JSNumber::Infinity(x)) == JSNumber::Infinity(x),
        add_spec(JSNumber::Infinity(x), JSNumber::Integer(y)) == JSNumber::Infinity(x),
{
}

} // verus!
