use vstd::prelude::*;
use crate::pointer::np32;

verus! {

/// The value used for positive infinity.
pub const POSITIVE_INFINITY: i128 = 0x7FFF_FFFF_FFFF_FFFF_FFFF_FFFF_FFFF_FFFFi128;
/// The value used for negative infinity.
pub const NEGATIVE_INFINITY: i128 = -0x8000_0000_0000_0000_0000_0000_0000_0000i128;

/// A number slot: a 32-bit value held inline, or, when the pointer is not null, a 128-bit
/// value on the heap.
#[derive(Debug)]
pub struct NumberSlot {
    value: i32,
    pointer: np32<i128>,
}

/// 2 to the 64th.
pub open spec fn two64() -> int {
    0x1_0000_0000_0000_0000int
}

/// The low 64 bits of `a`, as a non-negative integer.
pub open spec fn lo64(a: int) -> int {
    a % two64()
}

/// `a` shifted right by 64 bits, keeping its sign.
pub open spec fn hi64(a: int) -> int {
    a / two64()
}

/// Whether `x` fits in an `i128`.
pub open spec fn fits_i128(x: int) -> bool {
    i128::MIN <= x <= i128::MAX
}

/// The `i128` that `x` wraps to.
pub open spec fn wrap128(x: int) -> int {
    if x > i128::MAX {
        x - 0x1_0000_0000_0000_0000_0000_0000_0000_0000int
    } else if x < i128::MIN {
        x + 0x1_0000_0000_0000_0000_0000_0000_0000_0000int
    } else {
        x
    }
}

/// `x`, held to the range of an `i128`: past the top it is positive infinity, past the bottom
/// negative infinity.
pub open spec fn saturate128(x: int) -> int {
    if x > i128::MAX {
        POSITIVE_INFINITY as int
    } else if x < i128::MIN {
        NEGATIVE_INFINITY as int
    } else {
        x
    }
}

/// The middle 128 bits of the product of two heap numbers, taken as 64.64 fixed point:
/// `hi(a)*lo(b) + lo(a)*hi(b) + (lo(a)*lo(b) >> 64)`, each of the two sums wrapping.
pub open spec fn mul_mid(a: int, b: int) -> int {
    let first = wrap128(hi64(a) * lo64(b) + lo64(a) * hi64(b));
    wrap128(first + lo64(a) * lo64(b) / two64())
}

/// Whether the fixed-point product of two heap numbers can be taken: the low product fits an
/// `i128`, the high product lies in `[0, 2^64)`, and each carry out of the middle sums keeps
/// it there.
pub open spec fn mul_mid_ok(a: int, b: int) -> bool {
    let hh = hi64(a) * hi64(b);
    let s1 = hi64(a) * lo64(b) + lo64(a) * hi64(b);
    let c1: int = if fits_i128(s1) { 0 } else { 1 };
    let s2 = wrap128(s1) + lo64(a) * lo64(b) / two64();
    let c2: int = if fits_i128(s2) { 0 } else { 1 };
    &&& lo64(a) * lo64(b) <= i128::MAX
    &&& 0 <= hh < two64()
    &&& hh + c1 < two64()
    &&& hh + c1 + c2 < two64()
}

proof fn lemma_split_bits(a: i128)
    by (bit_vector)
    ensures
        a == (a >> 64u32) * 0x1_0000_0000_0000_0000i128 + (a & 0xFFFF_FFFF_FFFF_FFFFi128),
        0 <= (a & 0xFFFF_FFFF_FFFF_FFFFi128) < 0x1_0000_0000_0000_0000i128,
        -0x8000_0000_0000_0000i128 <= (a >> 64u32) < 0x8000_0000_0000_0000i128,
{
}

proof fn lemma_split(a: i128)
    ensures
        (a & 0xFFFF_FFFF_FFFF_FFFFi128) == lo64(a as int),
        (a >> 64u32) == hi64(a as int),
        -0x8000_0000_0000_0000 <= hi64(a as int) < 0x8000_0000_0000_0000,
        0 <= lo64(a as int) < two64(),
{
    lemma_split_bits(a);
    let lo = (a & 0xFFFF_FFFF_FFFF_FFFFi128) as int;
    let hi = (a >> 64u32) as int;
    vstd::arithmetic::div_mod::lemma_fundamental_div_mod_converse(a as int, two64(), hi, lo);
}

proof fn lemma_cross_bounds(hi: int, lo: int)
    by (nonlinear_arith)
    requires
        -0x8000_0000_0000_0000 <= hi < 0x8000_0000_0000_0000,
        0 <= lo < 0x1_0000_0000_0000_0000,
    ensures
        -0x8000_0000_0000_0000_0000_0000_0000_0000 < hi * lo < 0x8000_0000_0000_0000_0000_0000_0000_0000,
{
}

proof fn lemma_hihi_bounds(x: int, y: int)
    by (nonlinear_arith)
    requires
        -0x8000_0000_0000_0000 <= x < 0x8000_0000_0000_0000,
        -0x8000_0000_0000_0000 <= y < 0x8000_0000_0000_0000,
    ensures
        -0x8000_0000_0000_0000_0000_0000_0000_0000 < x * y <= 0x4000_0000_0000_0000_0000_0000_0000_0000,
{
}

impl View for NumberSlot {
    type V = int;

    /// The number this slot stands for.
    closed spec fn view(&self) -> int {
        match self.pointer@ {
            Some(v) => v as int,
            None => self.value as int,
        }
    }
}

/// The `i128` wrapping sum of two values, with whether it wrapped.
fn add_wrapping(a: i128, b: i128) -> (r: (i128, bool))
    ensures
        r.0 == wrap128(a + b),
        r.1 == !fits_i128(a + b),
{
    match a.checked_add(b) {
        Some(s) => (s, false),
        None => (a.wrapping_add(b), true),
    }
}

impl NumberSlot {
    /// Whether the number is held inline rather than on the heap.
    pub closed spec fn is_inline(&self) -> bool {
        self.pointer@ is None
    }

    /// A number held on the heap.
    pub fn new(value: i128) -> (r: Self)
        ensures
            r@ == value,
            !r.is_inline(),
    {
        NumberSlot { value: 0, pointer: np32::new(value) }
    }

    /// A number held inline.
    pub fn new_inline(value: i32) -> (r: Self)
        ensures
            r@ == value,
            r.is_inline(),
    {
        NumberSlot { value, pointer: np32::null() }
    }

    pub fn new_positive_infinity() -> (r: Self)
        ensures
            r@ == POSITIVE_INFINITY,
            !r.is_inline(),
    {
        NumberSlot { value: 0, pointer: np32::new(i128::MAX) }
    }

    pub fn new_negative_infinity() -> (r: Self)
        ensures
            r@ == NEGATIVE_INFINITY,
            !r.is_inline(),
    {
        NumberSlot { value: 0, pointer: np32::new(i128::MIN) }
    }

    /// Whether the number is held inline rather than on the heap.
    pub fn inline(&self) -> (r: bool)
        ensures
            r == self.is_inline(),
    {
        self.pointer.is_null()
    }

    /// The number this slot stands for.
    pub fn deref(&self) -> (r: i128)
        ensures
            r == self@,
    {
        if self.pointer.is_null() {
            self.value as i128
        } else {
            *self.pointer.deref()
        }
    }

    /// The sum. Two inline numbers give an inline sum when it fits in 32 bits; when it does
    /// not, the heap number holds the sum wrapped to 32 bits. Otherwise the sum goes to the
    /// heap, held to the `i128` range by the infinities.
    pub fn add(self, rhs: Self) -> (r: Self)
        ensures
            self.is_inline() && rhs.is_inline() ==> {
                let s = self@ + rhs@;
                if i32::MIN <= s <= i32::MAX {
                    r@ == s && r.is_inline()
                } else {
                    r@ == (s as i32) as int && !r.is_inline()
                }
            },
            !(self.is_inline() && rhs.is_inline()) ==> r@ == saturate128(self@ + rhs@)
                && !r.is_inline(),
    {
        if self.inline() && rhs.inline() {
            let s: i64 = self.value as i64 + rhs.value as i64;
            if s < i32::MIN as i64 || s > i32::MAX as i64 {
                return NumberSlot::new((s as i32) as i128);
            }
            return NumberSlot::new_inline(s as i32);
        }
        let a = self.deref();
        let b = rhs.deref();
        let (res, overflow) = add_wrapping(a, b);
        if overflow {
            if res < 0 {
                return NumberSlot::new_positive_infinity();
            } else {
                return NumberSlot::new_negative_infinity();
            }
        }
        NumberSlot::new(res)
    }

    /// The difference. Two inline numbers must have a difference that fits in 32 bits, and
    /// give it inline; otherwise the difference goes to the heap, held to the `i128` range.
    pub fn sub(self, rhs: Self) -> (r: Self)
        requires
            self.is_inline() && rhs.is_inline() ==> i32::MIN <= self@ - rhs@ <= i32::MAX,
        ensures
            self.is_inline() && rhs.is_inline() ==> r@ == self@ - rhs@ && r.is_inline(),
            !(self.is_inline() && rhs.is_inline()) ==> r@ == saturate128(self@ - rhs@)
                && !r.is_inline(),
    {
        if self.inline() && rhs.inline() {
            let s: i64 = self.value as i64 - rhs.value as i64;
            return NumberSlot::new_inline(s as i32);
        }
        let a = self.deref();
        let b = rhs.deref();
        let (res, overflow) = match a.checked_sub(b) {
            Some(d) => (d, false),
            None => (a.wrapping_sub(b), true),
        };
        if overflow {
            if res < 0 {
                return NumberSlot::new_positive_infinity();
            } else {
                return NumberSlot::new_negative_infinity();
            }
        }
        NumberSlot::new(res)
    }

    /// The product. Two inline numbers must have a product that fits in 32 bits, and give it
    /// inline; otherwise the two are taken as 64.64 fixed-point numbers and the product goes
    /// to the heap (see `mul_mid`), which must not overflow (see `mul_mid_ok`).
    pub fn mul(self, rhs: Self) -> (r: Self)
        requires
            self.is_inline() && rhs.is_inline() ==> i32::MIN <= self@ * rhs@ <= i32::MAX,
            !(self.is_inline() && rhs.is_inline()) ==> mul_mid_ok(self@, rhs@),
        ensures
            self.is_inline() && rhs.is_inline() ==> r@ == self@ * rhs@ && r.is_inline(),
            !(self.is_inline() && rhs.is_inline()) ==> r@ == mul_mid(self@, rhs@)
                && !r.is_inline(),
    {
        if self.inline() && rhs.inline() {
            let p: i64 = self.value as i64 * rhs.value as i64;
            return NumberSlot::new_inline(p as i32);
        }
        let a = self.deref();
        let b = rhs.deref();
        proof {
            lemma_split(a);
            lemma_split(b);
        }
        let a_lo = a & 0xFFFF_FFFF_FFFF_FFFFi128;
        let a_hi = a >> 64u32;
        let b_lo = b & 0xFFFF_FFFF_FFFF_FFFFi128;
        let b_hi = b >> 64u32;
        proof {
            lemma_hihi_bounds(a_hi as int, b_hi as int);
            lemma_cross_bounds(a_hi as int, b_lo as int);
            lemma_cross_bounds(b_hi as int, a_lo as int);
            assert(a_lo * b_hi == b_hi * a_lo) by (nonlinear_arith);
        }
        let lolo = a_lo * b_lo;
        let lohi = a_hi * b_lo;
        let hilo = a_lo * b_hi;
        let (mid, _carry) = add_wrapping(lohi, hilo);
        let (mid2, _carry2) = add_wrapping(mid, lolo >> 64u32);
        proof {
            assert((lolo >> 64u32) == lolo / 0x1_0000_0000_0000_0000i128) by (bit_vector)
                requires
                    lolo >= 0,
            ;
        }
        NumberSlot::new(mid2)
    }

    /// The quotient of two inline numbers: the divisor must not be zero, the division must be
    /// exact, and the quotient must fit in 32 bits. The quotient is held inline.
    pub fn div(self, rhs: Self) -> (r: Self)
        requires
            self.is_inline(),
            rhs.is_inline(),
            rhs@ != 0,
            self@ % rhs@ == 0,
            !(self@ == i32::MIN && rhs@ == -1),
        ensures
            r@ * rhs@ == self@,
            r.is_inline(),
    {
        let a = self.value;
        let b = rhs.value;
        proof {
            crate::arith::lemma_std_div(a as int, b as int);
            crate::arith::lemma_exact_div(a as int, b as int);
        }
        let q = a.checked_div(b).unwrap();
        NumberSlot::new_inline(q)
    }
}

} // verus!
