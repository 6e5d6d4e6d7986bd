use vstd::prelude::*;
use crate::arith::{trunc_div, trunc_rem, lemma_std_div};
use crate::text::{push_char, push_str};
use vstd::string::StringSliceAdditionalSpecFns;

verus! {

/// A number value of the machine: not-a-number, an infinity (`true` when positive), or an
/// integer.
#[derive(Debug, Clone, Copy, PartialEq, Eq, Structural)]
pub enum JSNumber {
    NaN,
    Infinity(bool),
    Integer(i64),
}

/// The kinds of error object.
#[derive(Debug, Clone, Copy, PartialEq, Eq, Structural)]
pub enum ErrorType {
    Error,
    RangeError,
    ReferenceError,
    SyntaxError,
    TypeError,
}

/// A native function, known by name.
#[derive(Debug, Clone)]
pub struct JSExternal {
    pub name: String,
}

/// The name of a property.
#[derive(Debug, Clone)]
pub struct JSPropName {
    name: String,
}

impl JSPropName {
    pub fn new(name: String) -> (r: Self)
        ensures
            r.name()@ == name@,
    {
        JSPropName { name }
    }

    pub closed spec fn name(&self) -> String {
        self.name
    }

    /// The name.
    pub fn as_str(&self) -> (r: &str)
        ensures
            r@ == self.name()@,
    {
        self.name.as_str()
    }
}

/// The low 32 bits of an integer, or zero for anything else.
pub open spec fn int32_of(x: JSNumber) -> i32 {
    match x {
        JSNumber::Integer(i) => i as i32,
        _ => 0,
    }
}

/// The sum. Not-a-number stays; an infinity stays unless the other is the opposite
/// infinity, which gives not-a-number; an integer plus an infinity is that infinity; two
/// integers add.
pub open spec fn add_spec(a: JSNumber, b: JSNumber) -> JSNumber {
    match (a, b) {
        (JSNumber::NaN, _) => JSNumber::NaN,
        (JSNumber::Infinity(x), JSNumber::Infinity(y)) => if x == y {
            a
        } else {
            JSNumber::NaN
        },
        (JSNumber::Infinity(_), _) => a,
        (JSNumber::Integer(_), JSNumber::Infinity(_)) => b,
        (JSNumber::Integer(x), JSNumber::Integer(y)) => JSNumber::Integer((x + y) as i64),
        (JSNumber::Integer(_), JSNumber::NaN) => JSNumber::NaN,
    }
}

/// The difference. Not-a-number stays; an infinity minus the same infinity gives
/// not-a-number, and otherwise stays; an integer minus an infinity is the opposite
/// infinity; two integers subtract.
pub open spec fn sub_spec(a: JSNumber, b: JSNumber) -> JSNumber {
    match (a, b) {
        (JSNumber::NaN, _) => JSNumber::NaN,
        (JSNumber::Infinity(x), JSNumber::Infinity(y)) => if x != y {
            a
        } else {
            JSNumber::NaN
        },
        (JSNumber::Infinity(_), _) => a,
        (JSNumber::Integer(_), JSNumber::Infinity(y)) => JSNumber::Infinity(!y),
        (JSNumber::Integer(x), JSNumber::Integer(y)) => JSNumber::Integer((x - y) as i64),
        (JSNumber::Integer(_), JSNumber::NaN) => JSNumber::NaN,
    }
}

/// Whether a product is refused as a type error: zero times an integer.
pub open spec fn mul_refused(a: JSNumber, b: JSNumber) -> bool {
    a == JSNumber::Integer(0) && b is Integer
}

/// The product, with the sign rules of infinities; zero or not-a-number times an infinity
/// is not-a-number.
pub open spec fn mul_spec(a: JSNumber, b: JSNumber) -> JSNumber {
    match (a, b) {
        (JSNumber::NaN, _) => JSNumber::NaN,
        (JSNumber::Infinity(x), JSNumber::Infinity(y)) => JSNumber::Infinity(x == y),
        (JSNumber::Infinity(_), JSNumber::Integer(0)) => JSNumber::NaN,
        (JSNumber::Infinity(x), JSNumber::Integer(y)) => JSNumber::Infinity(x == (y >= 0)),
        (JSNumber::Infinity(_), JSNumber::NaN) => JSNumber::NaN,
        (JSNumber::Integer(0), JSNumber::Infinity(_)) => JSNumber::NaN,
        (JSNumber::Integer(0), JSNumber::NaN) => JSNumber::NaN,
        (JSNumber::Integer(0), JSNumber::Integer(_)) => a,
        (JSNumber::Integer(x), JSNumber::Infinity(y)) => JSNumber::Infinity((x >= 0) == y),
        (JSNumber::Integer(x), JSNumber::Integer(y)) => JSNumber::Integer((x * y) as i64),
        (JSNumber::Integer(_), JSNumber::NaN) => JSNumber::NaN,
    }
}

/// The quotient, rounding toward zero for integers; an integer other than zero divided by
/// zero is the infinity of its sign, and zero divided by zero is not-a-number.
pub open spec fn div_spec(a: JSNumber, b: JSNumber) -> JSNumber {
    match (a, b) {
        (JSNumber::NaN, _) => JSNumber::NaN,
        (JSNumber::Infinity(_), JSNumber::Infinity(_)) => JSNumber::NaN,
        (JSNumber::Infinity(x), JSNumber::Integer(y)) => JSNumber::Infinity(x == (y >= 0)),
        (JSNumber::Infinity(_), JSNumber::NaN) => JSNumber::NaN,
        (JSNumber::Integer(0), JSNumber::Integer(0)) => JSNumber::NaN,
        (JSNumber::Integer(0), JSNumber::NaN) => JSNumber::NaN,
        (JSNumber::Integer(0), _) => a,
        (JSNumber::Integer(x), JSNumber::Integer(0)) => JSNumber::Infinity(x >= 0),
        (JSNumber::Integer(_), JSNumber::Infinity(_)) => JSNumber::Integer(0),
        (JSNumber::Integer(x), JSNumber::Integer(y)) => JSNumber::Integer(
            trunc_div(x as int, y as int) as i64,
        ),
        (JSNumber::Integer(_), JSNumber::NaN) => JSNumber::NaN,
    }
}

/// The remainder, with the sign of the dividend; an infinity has none, an integer modulo
/// an infinity stays, and modulo zero is not-a-number.
pub open spec fn mod_spec(a: JSNumber, b: JSNumber) -> JSNumber {
    match (a, b) {
        (JSNumber::NaN, _) => JSNumber::NaN,
        (JSNumber::Infinity(_), _) => JSNumber::NaN,
        (JSNumber::Integer(_), JSNumber::Infinity(_)) => a,
        (JSNumber::Integer(_), JSNumber::Integer(0)) => JSNumber::NaN,
        (JSNumber::Integer(x), JSNumber::Integer(y)) => JSNumber::Integer(
            trunc_rem(x as int, y as int) as i64,
        ),
        (JSNumber::Integer(_), JSNumber::NaN) => JSNumber::NaN,
    }
}

/// Equality: not-a-number equals itself, and integers and infinities equal their like.
pub open spec fn equal_spec(a: JSNumber, b: JSNumber) -> bool {
    a == b
}

/// Whether `a < b`: integers and infinities compare among themselves only.
pub open spec fn lt_spec(a: JSNumber, b: JSNumber) -> bool {
    match (a, b) {
        (JSNumber::Infinity(x), JSNumber::Infinity(y)) => !x && y,
        (JSNumber::Integer(x), JSNumber::Integer(y)) => x < y,
        _ => false,
    }
}

/// Whether `a <= b`: integers and infinities compare among themselves only.
pub open spec fn le_spec(a: JSNumber, b: JSNumber) -> bool {
    match (a, b) {
        (JSNumber::Infinity(x), JSNumber::Infinity(y)) => !x || y,
        (JSNumber::Integer(x), JSNumber::Integer(y)) => x <= y,
        _ => false,
    }
}

impl JSNumber {
    /// Succeeds, leaving the number as it is.
    fn ok(&mut self) -> (r: Result<&mut Self, String>)
        ensures
            r matches Ok(v) && *v == *old(self) && *final(self) == *final(v),
    {
        Ok(self)
    }

    /// Succeeds with `value` in place of the number.
    fn assign(&mut self, value: Self) -> (r: Result<&mut Self, String>)
        ensures
            r matches Ok(v) && *v == value && *final(self) == *final(v),
    {
        *self = value;
        Ok(self)
    }

    /// Fails with the message `Type error`, leaving the number as it is.
    fn type_error(&mut self) -> (r: Result<&mut Self, String>)
        ensures
            r matches Err(e) && e@ == "Type error"@,
            *final(self) == *old(self),
    {
        Err(String::from_str("Type error"))
    }

    /// The low 32 bits of an integer, or zero for anything else.
    pub fn to_int32(&self) -> (r: i32)
        ensures
            r == int32_of(*self),
    {
        match self {
            JSNumber::Integer(i) => *i as i32,
            _ => 0,
        }
    }

    /// Adds `other` in place (see `add_spec`); two integers must not overflow an `i64`.
    pub fn add(&mut self, other: &Self) -> (r: Result<&mut Self, String>)
        requires
            (*old(self), *other) matches (JSNumber::Integer(x), JSNumber::Integer(y))
                ==> i64::MIN <= x + y <= i64::MAX,
        ensures
            r matches Ok(v) && *v == add_spec(*old(self), *other) && *final(self) == *final(v),
    {
        match (*self, *other) {
            (JSNumber::NaN, _) => self.ok(),
            (JSNumber::Infinity(x), JSNumber::Infinity(y)) => {
                if x == y {
                    self.ok()
                } else {
                    self.assign(JSNumber::NaN)
                }
            },
            (JSNumber::Infinity(_), _) => self.ok(),
            (JSNumber::Integer(_), JSNumber::Infinity(_)) => self.assign(*other),
            (JSNumber::Integer(x), JSNumber::Integer(y)) => self.assign(JSNumber::Integer(x + y)),
            (JSNumber::Integer(_), JSNumber::NaN) => self.assign(JSNumber::NaN),
        }
    }

    /// Subtracts `other` in place (see `sub_spec`); two integers must not overflow an
    /// `i64`.
    pub fn sub(&mut self, other: &Self) -> (r: Result<&mut Self, String>)
        requires
            (*old(self), *other) matches (JSNumber::Integer(x), JSNumber::Integer(y))
                ==> i64::MIN <= x - y <= i64::MAX,
        ensures
            r matches Ok(v) && *v == sub_spec(*old(self), *other) && *final(self) == *final(v),
    {
        match (*self, *other) {
            (JSNumber::NaN, _) => self.ok(),
            (JSNumber::Infinity(x), JSNumber::Infinity(y)) => {
                if x != y {
                    self.ok()
                } else {
                    self.assign(JSNumber::NaN)
                }
            },
            (JSNumber::Infinity(_), _) => self.ok(),
            (JSNumber::Integer(_), JSNumber::Infinity(y)) => self.assign(JSNumber::Infinity(!y)),
            (JSNumber::Integer(x), JSNumber::Integer(y)) => self.assign(JSNumber::Integer(x - y)),
            (JSNumber::Integer(_), JSNumber::NaN) => self.assign(JSNumber::NaN),
        }
    }

    /// Multiplies by `other` in place (see `mul_spec`); zero times an integer fails with a
    /// type error (see `mul_refused`), and two other integers must not overflow an `i64`.
    pub fn mul(&mut self, other: &Self) -> (r: Result<&mut Self, String>)
        requires
            (*old(self), *other) matches (JSNumber::Integer(x), JSNumber::Integer(y))
                ==> i64::MIN <= x * y <= i64::MAX,
        ensures
            mul_refused(*old(self), *other) ==> r is Err && *final(self) == *old(self),
            !mul_refused(*old(self), *other) ==> (r matches Ok(v) && *v == mul_spec(
                *old(self),
                *other,
            ) && *final(self) == *final(v)),
    {
        match (*self, *other) {
            (JSNumber::NaN, _) => self.ok(),
            (JSNumber::Infinity(x), JSNumber::Infinity(y)) => self.assign(JSNumber::Infinity(x == y)),
            (JSNumber::Infinity(_), JSNumber::Integer(0)) => self.assign(JSNumber::NaN),
            (JSNumber::Infinity(x), JSNumber::Integer(y)) => self.assign(
                JSNumber::Infinity(x == (y >= 0)),
            ),
            (JSNumber::Infinity(_), JSNumber::NaN) => self.assign(JSNumber::NaN),
            (JSNumber::Integer(0), JSNumber::Infinity(_)) => self.assign(JSNumber::NaN),
            (JSNumber::Integer(0), JSNumber::NaN) => self.assign(JSNumber::NaN),
            (JSNumber::Integer(0), _) => self.type_error(),
            (JSNumber::Integer(x), JSNumber::Infinity(y)) => self.assign(
                JSNumber::Infinity((x >= 0) == y),
            ),
            (JSNumber::Integer(x), JSNumber::Integer(y)) => self.assign(JSNumber::Integer(x * y)),
            (JSNumber::Integer(_), JSNumber::NaN) => self.assign(JSNumber::NaN),
        }
    }

    /// Divides by `other` in place (see `div_spec`); `i64::MIN / -1` has no quotient.
    pub fn div(&mut self, other: &Self) -> (r: Result<&mut Self, String>)
        requires
            !(*old(self) == JSNumber::Integer(i64::MIN) && *other == JSNumber::Integer(-1i64)),
        ensures
            r matches Ok(v) && *v == div_spec(*old(self), *other) && *final(self) == *final(v),
    {
        match (*self, *other) {
            (JSNumber::NaN, _) => self.ok(),
            (JSNumber::Infinity(_), JSNumber::Infinity(_)) => self.assign(JSNumber::NaN),
            (JSNumber::Infinity(x), JSNumber::Integer(y)) => self.assign(
                JSNumber::Infinity(x == (y >= 0)),
            ),
            (JSNumber::Infinity(_), JSNumber::NaN) => self.assign(JSNumber::NaN),
            (JSNumber::Integer(0), JSNumber::Integer(0)) => self.assign(JSNumber::NaN),
            (JSNumber::Integer(0), JSNumber::NaN) => self.assign(JSNumber::NaN),
            (JSNumber::Integer(0), _) => self.ok(),
            (JSNumber::Integer(x), JSNumber::Integer(0)) => self.assign(JSNumber::Infinity(x >= 0)),
            (JSNumber::Integer(_), JSNumber::Infinity(_)) => self.assign(JSNumber::Integer(0)),
            (JSNumber::Integer(x), JSNumber::Integer(y)) => {
                proof {
                    lemma_std_div(x as int, y as int);
                }
                self.assign(JSNumber::Integer(x.checked_div(y).unwrap()))
            },
            (JSNumber::Integer(_), JSNumber::NaN) => self.assign(JSNumber::NaN),
        }
    }

    /// The remainder of dividing by `other`, in place (see `mod_spec`); `i64::MIN % -1`
    /// has none.
    pub fn modulo(&mut self, other: &Self) -> (r: Result<&mut Self, String>)
        requires
            !(*old(self) == JSNumber::Integer(i64::MIN) && *other == JSNumber::Integer(-1i64)),
        ensures
            r matches Ok(v) && *v == mod_spec(*old(self), *other) && *final(self) == *final(v),
    {
        match (*self, *other) {
            (JSNumber::NaN, _) => self.ok(),
            (JSNumber::Infinity(_), _) => self.assign(JSNumber::NaN),
            (JSNumber::Integer(_), JSNumber::Infinity(_)) => self.ok(),
            (JSNumber::Integer(_), JSNumber::Integer(0)) => self.assign(JSNumber::NaN),
            (JSNumber::Integer(x), JSNumber::Integer(y)) => {
                proof {
                    lemma_std_div(x as int, y as int);
                }
                self.assign(JSNumber::Integer(x.checked_rem(y).unwrap()))
            },
            (JSNumber::Integer(_), JSNumber::NaN) => self.assign(JSNumber::NaN),
        }
    }

    /// The bitwise and of the low 32 bits of both, as an integer.
    pub fn bitand(&mut self, other: &Self) -> (r: Result<&mut Self, String>)
        ensures
            r matches Ok(v) && *v == JSNumber::Integer(
                (int32_of(*old(self)) & int32_of(*other)) as i64,
            ) && *final(self) == *final(v),
    {
        let v = self.to_int32() & other.to_int32();
        self.assign(JSNumber::Integer(v as i64))
    }

    /// The bitwise or of the low 32 bits of both, as an integer.
    pub fn bitor(&mut self, other: &Self) -> (r: Result<&mut Self, String>)
        ensures
            r matches Ok(v) && *v == JSNumber::Integer(
                (int32_of(*old(self)) | int32_of(*other)) as i64,
            ) && *final(self) == *final(v),
    {
        let v = self.to_int32() | other.to_int32();
        self.assign(JSNumber::Integer(v as i64))
    }

    /// The bitwise exclusive or of the low 32 bits of both, as an integer.
    pub fn bitxor(&mut self, other: &Self) -> (r: Result<&mut Self, String>)
        ensures
            r matches Ok(v) && *v == JSNumber::Integer(
                (int32_of(*old(self)) ^ int32_of(*other)) as i64,
            ) && *final(self) == *final(v),
    {
        let v = self.to_int32() ^ other.to_int32();
        self.assign(JSNumber::Integer(v as i64))
    }

    /// The bitwise complement of the low 32 bits, as an integer.
    pub fn bitnot(&mut self) -> (r: Result<&mut Self, String>)
        ensures
            r matches Ok(v) && *v == JSNumber::Integer((!int32_of(*old(self))) as i64)
                && *final(self) == *final(v),
    {
        let v = !self.to_int32();
        self.assign(JSNumber::Integer(v as i64))
    }

    /// The low 32 bits shifted left by the other's low 32 bits, which must lie in `0..32`.
    pub fn lshift(&mut self, other: &Self) -> (r: Result<&mut Self, String>)
        requires
            0 <= int32_of(*other) < 32,
        ensures
            r matches Ok(v) && *v == JSNumber::Integer(
                (int32_of(*old(self)) << (int32_of(*other) as u32)) as i64,
            ) && *final(self) == *final(v),
    {
        let v = self.to_int32() << (other.to_int32() as u32);
        self.assign(JSNumber::Integer(v as i64))
    }

    /// The low 32 bits shifted right, copying the sign bit, by the other's low 32 bits,
    /// which must lie in `0..32`.
    pub fn rshift(&mut self, other: &Self) -> (r: Result<&mut Self, String>)
        requires
            0 <= int32_of(*other) < 32,
        ensures
            r matches Ok(v) && *v == JSNumber::Integer(
                (int32_of(*old(self)) >> (int32_of(*other) as u32)) as i64,
            ) && *final(self) == *final(v),
    {
        let v = self.to_int32() >> (other.to_int32() as u32);
        self.assign(JSNumber::Integer(v as i64))
    }

    pub fn equal(&self, other: &Self) -> (r: bool)
        ensures
            r == equal_spec(*self, *other),
    {
        match (self, other) {
            (JSNumber::NaN, JSNumber::NaN) => true,
            (JSNumber::Infinity(x), JSNumber::Infinity(y)) => *x == *y,
            (JSNumber::Integer(x), JSNumber::Integer(y)) => *x == *y,
            _ => false,
        }
    }

    pub fn not_equal(&self, other: &Self) -> (r: bool)
        ensures
            r == !equal_spec(*self, *other),
    {
        !self.equal(other)
    }

    pub fn lt(&self, other: &Self) -> (r: bool)
        ensures
            r == lt_spec(*self, *other),
    {
        match (self, other) {
            (JSNumber::Infinity(x), JSNumber::Infinity(y)) => !*x && *y,
            (JSNumber::Integer(x), JSNumber::Integer(y)) => *x < *y,
            _ => false,
        }
    }

    pub fn le(&self, other: &Self) -> (r: bool)
        ensures
            r == le_spec(*self, *other),
    {
        match (self, other) {
            (JSNumber::Infinity(x), JSNumber::Infinity(y)) => !*x || *y,
            (JSNumber::Integer(x), JSNumber::Integer(y)) => *x <= *y,
            _ => false,
        }
    }

    pub fn gt(&self, other: &Self) -> (r: bool)
        ensures
            r == lt_spec(*other, *self),
    {
        other.lt(self)
    }

    pub fn ge(&self, other: &Self) -> (r: bool)
        ensures
            r == le_spec(*other, *self),
    {
        other.le(self)
    }
}

/// A string value of the machine: eight ASCII bytes packed big-endian into a word, or any
/// text on the heap.
#[derive(Debug, Clone, PartialEq, Eq)]
pub enum JSString {
    Short(u64),
    Normal(String),
}

/// 256 to the power `k`.
pub open spec fn pow256(k: nat) -> int
    decreases k,
{
    if k == 0 {
        1
    } else {
        256 * pow256((k - 1) as nat)
    }
}

/// The number that `bytes` spell in big-endian order.
pub open spec fn be_value(bytes: Seq<u8>) -> int
    decreases bytes.len(),
{
    if bytes.len() == 0 {
        0
    } else {
        be_value(bytes.drop_last()) * 256 + bytes.last()
    }
}

/// Byte `i` (0 is the most significant) of a word.
pub open spec fn be_byte(x: u64, i: int) -> u8 {
    ((x as int / pow256((7 - i) as nat)) % 256) as u8
}

/// The eight bytes of a word, most significant first, each read as an ASCII character.
pub open spec fn short_chars(x: u64) -> Seq<char> {
    Seq::new(8, |i: int| be_byte(x, i) as char)
}

/// Whether all eight bytes of a word are ASCII.
pub open spec fn short_is_ascii(x: u64) -> bool {
    forall|i: int| 0 <= i < 8 ==> #[trigger] be_byte(x, i) < 0x80
}

/// The text of a string.
pub open spec fn text_of(s: JSString) -> Seq<char> {
    match s {
        JSString::Short(x) => short_chars(x),
        JSString::Normal(t) => t@,
    }
}

/// Whether the text of a string can be read: a packed string must be ASCII.
pub open spec fn readable(s: JSString) -> bool {
    s matches JSString::Short(x) ==> short_is_ascii(x)
}

proof fn lemma_be_value_bound(bytes: Seq<u8>)
    ensures
        0 <= be_value(bytes) < pow256(bytes.len()),
    decreases bytes.len(),
{
    if bytes.len() > 0 {
        lemma_be_value_bound(bytes.drop_last());
    }
}

proof fn lemma_pow256_facts(k: nat)
    ensures
        pow256(k) >= 1,
    decreases k,
{
    if k > 0 {
        lemma_pow256_facts((k - 1) as nat);
    }
}

/// The text of a packed string: its eight bytes as characters.
fn short_text(x: u64) -> (r: String)
    requires
        short_is_ascii(x),
    ensures
        r@ == short_chars(x),
{
    let mut out = String::new();
    let mut divisor: u64 = 0x0100_0000_0000_0000u64;
    let mut i: usize = 0;
    proof {
        assert(pow256(7) == 0x0100_0000_0000_0000) by {
                    reveal_with_fuel(pow256, 9);
                }
    }
    while i < 8
        invariant
            0 <= i <= 8,
            i < 8 ==> divisor == pow256((7 - i) as nat),
            short_is_ascii(x),
            out@ == short_chars(x).subrange(0, i as int),
        decreases 8 - i,
    {
        proof {
            lemma_pow256_facts((7 - i) as nat);
        }
        let b = ((x / divisor) % 256) as u8;
        proof {
            assert(b == be_byte(x, i as int));
            assert(b < 0x80);
        }
        push_char(&mut out, b as char);
        proof {
            assert(out@ =~= short_chars(x).subrange(0, i + 1));
        }
        if i < 7 {
            proof {
                assert(pow256((7 - i) as nat) == 256 * pow256((7 - (i + 1)) as nat));
            }
            divisor = divisor / 256;
        }
        i = i + 1;
    }
    proof {
        assert(short_chars(x).subrange(0, 8) =~= short_chars(x));
    }
    out
}

impl JSString {
    /// A string on the heap.
    pub fn new(s: String) -> (r: Self)
        ensures
            r == JSString::Normal(s),
    {
        JSString::Normal(s)
    }

    /// A packed string of exactly eight bytes, most significant first.
    pub fn new_short(s: &str) -> (r: Self)
        requires
            s.spec_bytes().len() == 8,
        ensures
            r == JSString::Short(be_value(s.spec_bytes()) as u64),
    {
        let bytes = s.as_bytes();
        let mut acc: u64 = 0;
        let mut i: usize = 0;
        while i < 8
            invariant
                0 <= i <= 8,
                bytes@ == s.spec_bytes(),
                bytes@.len() == 8,
                acc == be_value(bytes@.subrange(0, i as int)),
            decreases 8 - i,
        {
            proof {
                let pre = bytes@.subrange(0, i as int);
                lemma_be_value_bound(pre);
                lemma_pow256_facts(i as nat);
                lemma_pow256_facts(7);
                assert(pow256(8) == 0x1_0000_0000_0000_0000) by {
                    reveal_with_fuel(pow256, 9);
                }
                assert(pow256(i as nat) <= pow256(7)) by {
                    lemma_pow256_mono(i as nat, 7);
                }
                assert(pow256(7) == 0x0100_0000_0000_0000) by {
                    reveal_with_fuel(pow256, 9);
                }
                assert(bytes@.subrange(0, i + 1).drop_last() =~= pre);
            }
            acc = acc * 256 + bytes[i] as u64;
            i = i + 1;
        }
        proof {
            assert(bytes@.subrange(0, 8) =~= bytes@);
        }
        JSString::Short(acc)
    }

    /// Moves a packed string to the heap; its bytes must be ASCII.
    pub fn to_normal(&mut self) -> (r: &mut Self)
        requires
            readable(*old(self)),
        ensures
            *r matches JSString::Normal(t) && t@ == text_of(*old(self)),
            *final(self) == *final(r),
    {
        match self {
            JSString::Short(x) => {
                let t = short_text(*x);
                *self = JSString::Normal(t);
            },
            JSString::Normal(_) => {},
        }
        self
    }

    /// The string on the heap: a packed string's text moved there (its bytes must be
    /// ASCII), or a copy of a heap string.
    pub fn as_normal(&self) -> (r: Self)
        requires
            readable(*self),
        ensures
            r matches JSString::Normal(t) && t@ == text_of(*self),
    {
        JSString::Normal(self.to_string())
    }

    /// Whether the string is empty: a packed string whose word is zero, or empty text.
    pub fn is_empty(&self) -> (r: bool)
        ensures
            r == (match *self {
                JSString::Short(x) => x == 0,
                JSString::Normal(t) => t@.len() == 0,
            }),
    {
        match self {
            JSString::Short(x) => *x == 0,
            JSString::Normal(t) => t.as_str().is_empty(),
        }
    }

    /// The text; a packed string's bytes must be ASCII.
    pub fn to_string(&self) -> (r: String)
        requires
            readable(*self),
        ensures
            r@ == text_of(*self),
    {
        match self {
            JSString::Short(x) => short_text(*x),
            JSString::Normal(t) => t.clone(),
        }
    }

    /// Appends the text of `other`, moving this string to the heap; the bytes of packed
    /// strings must be ASCII.
    pub fn concat(&mut self, other: &Self) -> (r: &mut Self)
        requires
            readable(*old(self)),
            readable(*other),
        ensures
            *r matches JSString::Normal(t) && t@ == text_of(*old(self)) + text_of(*other),
            *final(self) == *final(r),
    {
        let tail = other.to_string();
        let head = match self {
            JSString::Short(x) => short_text(*x),
            JSString::Normal(t) => t.clone(),
        };
        let mut joined = head;
        push_str(&mut joined, tail.as_str());
        *self = JSString::Normal(joined);
        self
    }
}

proof fn lemma_pow256_mono(a: nat, b: nat)
    requires
        a <= b,
    ensures
        pow256(a) <= pow256(b),
    decreases b,
{
    if a < b {
        lemma_pow256_mono(a, (b - 1) as nat);
        lemma_pow256_facts((b - 1) as nat);
    }
}

/// Addition is commutative away from not-a-number (for integers whose sum fits).
pub proof fn law_number_add_commutes(a: JSNumber, b: JSNumber)
    requires
        a !is NaN,
        b !is NaN,
        (a, b) matches (JSNumber::Integer(x), JSNumber::Integer(y)) ==> i64::MIN <= x + y
            <= i64::MAX,
    ensures
        add_spec(a, b) == add_spec(b, a),
{
}

/// Subtraction undoes addition of integers; an integer minus an infinity is the opposite
/// infinity.
pub proof fn law_number_sub_undoes_add(x: i64, y: i64, positive: bool)
    requires
        i64::MIN <= x + y <= i64::MAX,
    ensures
        sub_spec(add_spec(JSNumber::Integer(x), JSNumber::Integer(y)), JSNumber::Integer(y))
            == JSNumber::Integer(x),
        sub_spec(JSNumber::Integer(x), JSNumber::Infinity(positive)) == JSNumber::Infinity(
            !positive,
        ),
{
}

/// Multiplication is commutative where neither order is refused (for integers whose product
/// fits), and follows the sign rule: an infinity times a positive integer keeps its sign and
/// times a negative one flips it, in either order.
pub proof fn law_number_mul_signs(a: JSNumber, b: JSNumber, x: bool, y: i64)
    requires
        !mul_refused(a, b),
        !mul_refused(b, a),
        (a, b) matches (JSNumber::Integer(p), JSNumber::Integer(q)) ==> i64::MIN <= p * q
            <= i64::MAX,
    ensures
        mul_spec(a, b) == mul_spec(b, a),
        y > 0 ==> mul_spec(JSNumber::Infinity(x), JSNumber::Integer(y)) == JSNumber::Infinity(x),
        y > 0 ==> mul_spec(JSNumber::Integer(y), JSNumber::Infinity(x)) == JSNumber::Infinity(x),
        y < 0 ==> mul_spec(JSNumber::Infinity(x), JSNumber::Integer(y)) == JSNumber::Infinity(!x),
        y < 0 ==> mul_spec(JSNumber::Integer(y), JSNumber::Infinity(x)) == JSNumber::Infinity(!x),
{
    if let (JSNumber::Integer(p), JSNumber::Integer(q)) = (a, b) {
        assert(p * q == q * p) by (nonlinear_arith);
    }
}

/// The order is strict and consistent: `a < b` exactly when not `b <= a`, for integers and
/// infinities of the same kind.
pub proof fn law_number_order(a: JSNumber, b: JSNumber)
    requires
        a !is NaN,
        b !is NaN,
        (a is Integer) == (b is Integer),
    ensures
        lt_spec(a, b) == !le_spec(b, a),
        !(lt_spec(a, b) && lt_spec(b, a)),
        le_spec(a, a),
{
}

} // verus!
