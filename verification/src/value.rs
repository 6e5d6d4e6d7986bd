use vstd::prelude::*;
use crate::arith::{abs, trunc_div, trunc_rem, lemma_std_div};
use crate::text::push_str;

verus! {

/// A boolean value.
#[derive(Debug, Clone, Copy, PartialEq, Eq, Structural)]
pub struct JSBoolean(pub bool);

/// A string value.
#[derive(Debug, Clone, PartialEq, Eq)]
pub struct JSString(pub String);

impl View for JSString {
    type V = Seq<char>;

    open spec fn view(&self) -> Seq<char> {
        self.0@
    }
}

impl JSString {
    /// Appends `other` to this string.
    pub fn concat(&mut self, other: &Self) -> (r: &mut Self)
        ensures
            r@ == old(self)@ + other@,
            *final(self) == *final(r),
    {
        push_str(&mut self.0, other.0.as_str());
        self
    }
}

/// A number value: a small integer.
#[derive(Debug, Clone, Copy, PartialEq, Eq, Structural)]
pub enum JSNumber {
    SMI(i32),
}

/// `b` to the power `e`.
pub open spec fn ipow(b: int, e: nat) -> int
    decreases e,
{
    if e == 0 {
        1
    } else {
        b * ipow(b, (e - 1) as nat)
    }
}

proof fn lemma_pow_grows(b: int, i: nat, e: nat)
    requires
        abs(b) >= 1,
        i <= e,
    ensures
        abs(ipow(b, i)) <= abs(ipow(b, e)),
    decreases e,
{
    if i < e {
        lemma_pow_grows(b, i, (e - 1) as nat);
        let p = ipow(b, (e - 1) as nat);
        assert(abs(b * p) == abs(b) * abs(p)) by (nonlinear_arith);
        assert(abs(b) * abs(p) >= abs(p)) by (nonlinear_arith)
            requires
                abs(b) >= 1,
                abs(p) >= 0,
        ;
    }
}

proof fn lemma_pow_two_bound(b: int, e: nat)
    requires
        abs(b) >= 2,
    ensures
        abs(ipow(b, e)) >= e + 1,
    decreases e,
{
    if e > 0 {
        lemma_pow_two_bound(b, (e - 1) as nat);
        let p = ipow(b, (e - 1) as nat);
        assert(abs(b * p) == abs(b) * abs(p)) by (nonlinear_arith);
        assert(abs(b) * abs(p) >= 2 * abs(p)) by (nonlinear_arith)
            requires
                abs(b) >= 2,
                abs(p) >= 0,
        ;
    }
}

proof fn lemma_pow_small_bases(e: nat)
    ensures
        ipow(1, e) == 1,
        e > 0 ==> ipow(0, e) == 0,
        ipow(-1, e) == (if e % 2 == 0 { 1int } else { -1int }),
    decreases e,
{
    if e > 0 {
        lemma_pow_small_bases((e - 1) as nat);
    }
}

/// The exponent `b` becomes when cast to `u32`.
pub open spec fn exponent_of(b: i32) -> nat {
    (b as u32) as nat
}

impl JSNumber {
    /// The small integer held.
    pub open spec fn val(self) -> i32 {
        match self {
            JSNumber::SMI(a) => a,
        }
    }

    pub fn equal(&self, other: &Self) -> (r: bool)
        ensures
            r == (self.val() == other.val()),
    {
        match (self, other) {
            (JSNumber::SMI(a), JSNumber::SMI(b)) => *a == *b,
        }
    }

    /// Adds `other` in place; the sum must fit in 32 bits.
    pub fn add(&mut self, other: &mut Self)
        requires
            i32::MIN <= old(self).val() + old(other).val() <= i32::MAX,
        ensures
            final(self).val() == old(self).val() + old(other).val(),
            *final(other) == *old(other),
    {
        match (self, other) {
            (JSNumber::SMI(a), JSNumber::SMI(b)) => *a = *a + *b,
        }
    }

    /// Subtracts `other` in place; the difference must fit in 32 bits.
    pub fn sub(&mut self, other: &mut Self)
        requires
            i32::MIN <= old(self).val() - old(other).val() <= i32::MAX,
        ensures
            final(self).val() == old(self).val() - old(other).val(),
            *final(other) == *old(other),
    {
        match (self, other) {
            (JSNumber::SMI(a), JSNumber::SMI(b)) => *a = *a - *b,
        }
    }

    /// Multiplies by `other` in place; the product must fit in 32 bits.
    pub fn mul(&mut self, other: &mut Self)
        requires
            i32::MIN <= old(self).val() * old(other).val() <= i32::MAX,
        ensures
            final(self).val() == old(self).val() * old(other).val(),
            *final(other) == *old(other),
    {
        match (self, other) {
            (JSNumber::SMI(a), JSNumber::SMI(b)) => *a = *a * *b,
        }
    }

    /// Divides by `other` in place, rounding toward zero; the divisor must not be zero and
    /// the quotient must fit in 32 bits.
    pub fn div(&mut self, other: &mut Self)
        requires
            old(other).val() != 0,
            !(old(self).val() == i32::MIN && old(other).val() == -1),
        ensures
            final(self).val() == trunc_div(old(self).val() as int, old(other).val() as int),
            *final(other) == *old(other),
    {
        match (self, other) {
            (JSNumber::SMI(a), JSNumber::SMI(b)) => {
                proof {
                    lemma_std_div(*a as int, *b as int);
                }
                *a = a.checked_div(*b).unwrap();
            },
        }
    }

    /// Raises to the power of `other`, taken as a `u32`, in place; the power must fit in 32
    /// bits.
    pub fn pow(&mut self, other: &mut Self)
        requires
            i32::MIN <= ipow(old(self).val() as int, exponent_of(old(other).val())) <= i32::MAX,
        ensures
            final(self).val() == ipow(old(self).val() as int, exponent_of(old(other).val())),
            *final(other) == *old(other),
    {
        match (self, other) {
            (JSNumber::SMI(a), JSNumber::SMI(b)) => {
                let base = *a;
                let e = *b as u32;
                proof {
                    lemma_pow_small_bases(e as nat);
                }
                if base == 1 {
                    *a = 1;
                } else if base == 0 {
                    *a = if e == 0 {
                        1
                    } else {
                        0
                    };
                } else if base == -1 {
                    *a = if e % 2 == 0 {
                        1
                    } else {
                        -1
                    };
                } else {
                    proof {
                        lemma_pow_two_bound(base as int, e as nat);
                    }
                    let mut acc: i64 = 1;
                    let mut i: u32 = 0;
                    while i < e
                        invariant
                            0 <= i <= e,
                            abs(base as int) >= 2,
                            acc == ipow(base as int, i as nat),
                            i32::MIN <= ipow(base as int, e as nat) <= i32::MAX,
                        decreases e - i,
                    {
                        let ghost next = ipow(base as int, (i + 1) as nat);
                        proof {
                            lemma_pow_grows(base as int, (i + 1) as nat, e as nat);
                            assert(next == base * ipow(base as int, i as nat));
                            assert(next == acc * base) by (nonlinear_arith)
                                requires
                                    next == base * acc,
                            ;
                            assert(-0x8000_0000 <= next <= 0x8000_0000);
                        }
                        acc = acc * base as i64;
                        assert(acc == next);
                        i = i + 1;
                    }
                    *a = acc as i32;
                }
            },
        }
    }

    /// The remainder of dividing by `other`, in place, with the sign of the dividend; the
    /// divisor must not be zero, and not `i32::MIN % -1`.
    pub fn modulo(&mut self, other: &mut Self)
        requires
            old(other).val() != 0,
            !(old(self).val() == i32::MIN && old(other).val() == -1),
        ensures
            final(self).val() == trunc_rem(old(self).val() as int, old(other).val() as int),
            *final(other) == *old(other),
    {
        match (self, other) {
            (JSNumber::SMI(a), JSNumber::SMI(b)) => {
                proof {
                    lemma_std_div(*a as int, *b as int);
                }
                *a = a.checked_rem(*b).unwrap();
            },
        }
    }

    pub fn bit_and(&mut self, other: &mut Self)
        ensures
            final(self).val() == old(self).val() & old(other).val(),
            *final(other) == *old(other),
    {
        match (self, other) {
            (JSNumber::SMI(a), JSNumber::SMI(b)) => *a = *a & *b,
        }
    }

    pub fn bit_or(&mut self, other: &mut Self)
        ensures
            final(self).val() == old(self).val() | old(other).val(),
            *final(other) == *old(other),
    {
        match (self, other) {
            (JSNumber::SMI(a), JSNumber::SMI(b)) => *a = *a | *b,
        }
    }

    /// Shifts right, filling with zeros, by `other`, which must lie in `0..32`.
    pub fn unsigned_right_shift(&mut self, other: &mut Self)
        requires
            0 <= old(other).val() < 32,
        ensures
            final(self).val() == ((old(self).val() as u32) >> (old(other).val() as u32)) as i32,
            *final(other) == *old(other),
    {
        match (self, other) {
            (JSNumber::SMI(a), JSNumber::SMI(b)) => *a = ((*a as u32) >> (*b as u32)) as i32,
        }
    }

    pub fn strict_equal(&self, other: &Self) -> (r: bool)
        ensures
            r == (self.val() == other.val()),
    {
        match (self, other) {
            (JSNumber::SMI(a), JSNumber::SMI(b)) => *a == *b,
        }
    }

    pub fn greater_than(&self, other: &Self) -> (r: bool)
        ensures
            r == (self.val() > other.val()),
    {
        match (self, other) {
            (JSNumber::SMI(a), JSNumber::SMI(b)) => *a > *b,
        }
    }

    pub fn greater_than_equal(&self, other: &Self) -> (r: bool)
        ensures
            r == (self.val() >= other.val()),
    {
        match (self, other) {
            (JSNumber::SMI(a), JSNumber::SMI(b)) => *a >= *b,
        }
    }

    pub fn less_than(&self, other: &Self) -> (r: bool)
        ensures
            r == (self.val() < other.val()),
    {
        match (self, other) {
            (JSNumber::SMI(a), JSNumber::SMI(b)) => *a < *b,
        }
    }

    pub fn less_than_equal(&self, other: &Self) -> (r: bool)
        ensures
            r == (self.val() <= other.val()),
    {
        match (self, other) {
            (JSNumber::SMI(a), JSNumber::SMI(b)) => *a <= *b,
        }
    }
}

/// A reference to an object: its index in the interpreter's object store. Objects are
/// shared and mutable, so a value holds a reference, and every copy of it reaches the same
/// object.
#[derive(Debug, Clone, Copy, PartialEq, Eq, Structural)]
pub struct ObjectRef(pub usize);

/// An object: its properties, each a name and a value; a later entry of a name overrides an
/// earlier one.
#[derive(Debug)]
pub struct JSObject {
    pub properties: Vec<(String, JSValue)>,
}

/// A value of the interpreter: `undefined`, a boolean, a number, a string, or a reference to
/// an object.
#[derive(Debug, Clone, PartialEq, Eq)]
pub enum JSValue {
    Undefined,
    Boolean(JSBoolean),
    Number(JSNumber),
    String(JSString),
    Object(ObjectRef),
}

/// Equality of values of the same kind (for objects: the same object); values of different
/// kinds are never equal.
pub open spec fn value_equal(a: JSValue, b: JSValue) -> bool {
    match (a, b) {
        (JSValue::Undefined, JSValue::Undefined) => true,
        (JSValue::Boolean(x), JSValue::Boolean(y)) => x == y,
        (JSValue::Number(x), JSValue::Number(y)) => x.val() == y.val(),
        (JSValue::String(x), JSValue::String(y)) => x@ == y@,
        (JSValue::Object(x), JSValue::Object(y)) => x == y,
        _ => false,
    }
}

/// Whether both values are objects, which the interpreter cannot compare yet.
pub open spec fn both_objects(a: JSValue, b: JSValue) -> bool {
    a is Object && b is Object
}

/// Truthiness: `undefined`, `false`, zero and the empty string are falsy.
pub open spec fn truthy(v: JSValue) -> bool {
    match v {
        JSValue::Undefined => false,
        JSValue::Boolean(b) => b.0,
        JSValue::Number(n) => n.val() != 0,
        JSValue::String(s) => s@.len() > 0,
        JSValue::Object(_) => true,
    }
}

impl JSValue {
    pub fn undefined() -> (r: Self)
        ensures
            r is Undefined,
    {
        JSValue::Undefined
    }

    pub fn is_undefined(&self) -> (r: bool)
        ensures
            r == (*self is Undefined),
    {
        match self {
            JSValue::Undefined => true,
            _ => false,
        }
    }

    pub fn boolean(b: bool) -> (r: Self)
        ensures
            r == JSValue::Boolean(JSBoolean(b)),
    {
        JSValue::Boolean(JSBoolean(b))
    }

    pub fn as_boolean(&self) -> (r: Option<&JSBoolean>)
        ensures
            r == (match *self {
                JSValue::Boolean(b) => Some(&b),
                _ => None,
            }),
    {
        match self {
            JSValue::Boolean(b) => Some(b),
            _ => None,
        }
    }

    pub fn number(n: i32) -> (r: Self)
        ensures
            r == JSValue::Number(JSNumber::SMI(n)),
    {
        JSValue::Number(JSNumber::SMI(n))
    }

    pub fn as_number(&self) -> (r: Option<&JSNumber>)
        ensures
            r == (match *self {
                JSValue::Number(n) => Some(&n),
                _ => None,
            }),
    {
        match self {
            JSValue::Number(n) => Some(n),
            _ => None,
        }
    }

    pub fn string(s: String) -> (r: Self)
        ensures
            r is String && r->String_0@ == s@,
    {
        JSValue::String(JSString(s))
    }

    pub fn as_string(&self) -> (r: Option<&JSString>)
        ensures
            r == (match *self {
                JSValue::String(s) => Some(&s),
                _ => None,
            }),
    {
        match self {
            JSValue::String(s) => Some(s),
            _ => None,
        }
    }

    /// Equality of values of the same kind (see `value_equal`); two objects cannot be
    /// compared yet.
    pub fn equal(&self, other: &Self) -> (r: bool)
        requires
            !both_objects(*self, *other),
        ensures
            r == value_equal(*self, *other),
    {
        match (self, other) {
            (JSValue::Undefined, JSValue::Undefined) => true,
            (JSValue::Boolean(a), JSValue::Boolean(b)) => a.0 == b.0,
            (JSValue::Number(a), JSValue::Number(b)) => a.equal(b),
            (JSValue::String(a), JSValue::String(b)) => a.0 == b.0,
            _ => false,
        }
    }

    /// Whether the value counts as true (see `truthy`).
    pub fn is_truthy(&self) -> (r: bool)
        ensures
            r == truthy(*self),
    {
        match self {
            JSValue::Undefined => false,
            JSValue::Boolean(b) => b.0,
            JSValue::Number(JSNumber::SMI(n)) => *n != 0,
            JSValue::String(s) => !s.0.as_str().is_empty(),
            JSValue::Object(_) => true,
        }
    }
}

/// Exactly these values are falsy: `undefined`, `false`, the number zero and the empty
/// string; every object is truthy.
pub proof fn law_falsy_values(v: JSValue)
    ensures
        !truthy(v) <==> (v == JSValue::Undefined || v == JSValue::Boolean(JSBoolean(false))
            || (v matches JSValue::Number(JSNumber::SMI(n)) && n == 0) || (v matches JSValue::String(s)
            && s.0@.len() == 0)),
{
}

} // verus!
