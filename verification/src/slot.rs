use vstd::prelude::*;
use crate::constant::{UNINITIALIZED, UNDEFINED};

verus! {

/// The low three bits of a slot word carry its tag.
pub const SLOT_TAG_MASK: u64 = 7u64;

/// What a slot word holds, as told by its low three bits.
#[derive(Debug, Clone, Copy, PartialEq, Eq, Structural)]
pub enum SlotTag {
    /// A value that may live on the heap: the word is an 8-aligned address (code `0b000`).
    Reference,
    /// A number (code `0b001`).
    Number,
    /// A string (code `0b011`).
    String,
    /// A big integer (code `0b101`).
    Bigint,
    /// A constant: `undefined`, `true`, `false`, ... (code `0b111`).
    Constant,
}

/// The three-bit code of a tag.
pub open spec fn tag_code(tag: SlotTag) -> u64 {
    match tag {
        SlotTag::Reference => 0,
        SlotTag::Number => 1,
        SlotTag::String => 3,
        SlotTag::Bigint => 5,
        SlotTag::Constant => 7,
    }
}

/// The tag whose code is `code`, if any.
pub open spec fn tag_of_code(code: u64) -> Option<SlotTag> {
    if code == 0 {
        Some(SlotTag::Reference)
    } else if code == 1 {
        Some(SlotTag::Number)
    } else if code == 3 {
        Some(SlotTag::String)
    } else if code == 5 {
        Some(SlotTag::Bigint)
    } else if code == 7 {
        Some(SlotTag::Constant)
    } else {
        None
    }
}

/// `value` with its low three bits replaced by `code`.
pub open spec fn attach_spec(code: u64, value: u64) -> u64 {
    (value & !SLOT_TAG_MASK) | code
}

/// A 32-bit payload placed in the upper half of a word, above a tag code.
pub open spec fn with_tag_spec(code: u64, value: i32) -> i64 {
    ((value as i64) << 32u64) | (code as i64)
}

/// The upper half of a word, read as a signed 32-bit integer.
pub open spec fn upper_i32(w: i64) -> i32 {
    (w >> 32u64) as i32
}

/// The upper half of a word, read as an unsigned 32-bit integer.
pub open spec fn upper_u32(w: i64) -> u32 {
    (w >> 32u64) as u32
}

proof fn lemma_tag_mask(code: u64, value: u64)
    by (bit_vector)
    requires
        code <= 7,
    ensures
        ((value & !7u64) | code) & 7u64 == code,
        ((value & !7u64) | code) & !7u64 == value & !7u64,
{
}

proof fn lemma_with_tag(code: u64, value: i32)
    by (bit_vector)
    requires
        code <= 7,
    ensures
        ((((value as i64) << 32u64) | (code as i64)) >> 32u64) as i32 == value,
        ((((value as i64) << 32u64) | (code as i64)) >> 32u64) as u32 == value as u32,
        (((((value as i64) << 32u64) | (code as i64)) as u64) & 7u64) == code,
{
}

proof fn lemma_code_small(tag: SlotTag)
    ensures
        tag_code(tag) <= 7,
        tag_code(tag) & 7u64 == tag_code(tag),
        tag_of_code(tag_code(tag)) == Some(tag),
{
    lemma_small_mask(tag_code(tag));
}

proof fn lemma_small_mask(c: u64)
    by (bit_vector)
    requires
        c <= 7,
    ensures
        c & 7u64 == c,
{
}

impl SlotTag {
    /// The three-bit code of this tag.
    pub fn code(&self) -> (r: u64)
        ensures
            r == tag_code(*self),
    {
        match self {
            SlotTag::Reference => 0,
            SlotTag::Number => 1,
            SlotTag::String => 3,
            SlotTag::Bigint => 5,
            SlotTag::Constant => 7,
        }
    }

    /// The tag whose code is `code`; `None` for the codes no tag uses.
    pub fn from_code(code: u64) -> (r: Option<SlotTag>)
        ensures
            r == tag_of_code(code),
    {
        if code == 0 {
            Some(SlotTag::Reference)
        } else if code == 1 {
            Some(SlotTag::Number)
        } else if code == 3 {
            Some(SlotTag::String)
        } else if code == 5 {
            Some(SlotTag::Bigint)
        } else if code == 7 {
            Some(SlotTag::Constant)
        } else {
            None
        }
    }

    /// `value` with its tag bits replaced by this tag.
    pub fn attach(self, value: u64) -> (r: u64)
        ensures
            r == attach_spec(tag_code(self), value),
            r & SLOT_TAG_MASK == tag_code(self),
            r & !SLOT_TAG_MASK == value & !SLOT_TAG_MASK,
    {
        proof {
            lemma_code_small(self);
            lemma_tag_mask(tag_code(self), value);
        }
        value & !SLOT_TAG_MASK | self.code()
    }

    /// The tag bits of `value`.
    pub fn detach(value: u64) -> (r: u64)
        ensures
            r == value & SLOT_TAG_MASK,
    {
        value & SLOT_TAG_MASK
    }
}

/// A slot word read as a signed integer, with a 32-bit payload in its upper half.
#[derive(Debug, Clone, Copy)]
pub struct SlotValue(pub i64);

impl SlotValue {
    /// A word with `value` in its upper half and `tag` in its low bits.
    pub fn with_tag(tag: SlotTag, value: i32) -> (r: Self)
        ensures
            r.0 == with_tag_spec(tag_code(tag), value),
            upper_i32(r.0) == value,
            (r.0 as u64) & SLOT_TAG_MASK == tag_code(tag),
    {
        proof {
            lemma_code_small(tag);
            lemma_with_tag(tag_code(tag), value);
        }
        let c = tag.code();
        SlotValue(((value as i64) << 32u64) | (c as i64))
    }

    /// The inline number held in the upper half.
    pub fn as_number_value(&self) -> (r: i32)
        ensures
            r == upper_i32(self.0),
    {
        (self.0 >> 32u64) as i32
    }

    /// The inline big integer held in the upper half.
    pub fn as_bigint_value(&self) -> (r: i32)
        ensures
            r == upper_i32(self.0),
    {
        (self.0 >> 32u64) as i32
    }

    /// The sign and length of a heap big integer, held in the upper half.
    pub fn as_bigint_sign_length(&self) -> (r: i32)
        ensures
            r == upper_i32(self.0),
    {
        (self.0 >> 32u64) as i32
    }

    /// The constant's value, held in the upper half.
    pub fn as_constant_value(&self) -> (r: u32)
        ensures
            r == upper_u32(self.0),
    {
        (self.0 >> 32u64) as u32
    }

    /// The length of a string, held in the upper half.
    pub fn as_string_length(&self) -> (r: u32)
        ensures
            r == upper_u32(self.0),
    {
        (self.0 >> 32u64) as u32
    }

    /// The metadata of a reference, held in the upper half.
    pub fn as_reference_metadata(&self) -> (r: u32)
        ensures
            r == upper_u32(self.0),
    {
        (self.0 >> 32u64) as u32
    }
}


/// A slot word read as an unsigned integer; for heap values, an address ORed with a tag.
#[derive(Debug, Clone, Copy)]
pub struct SlotPointer(pub u64);

proof fn lemma_narrow(addr: u64, code: u64)
    by (bit_vector)
    requires
        code <= 7,
        addr & 7u64 == 0,
    ensures
        (addr | code) & 7u64 == code,
        (addr | code) & !7u64 == addr,
{
}

proof fn lemma_composed(addr: u64, code: u64, value: i32)
    by (bit_vector)
    requires
        code <= 7,
        addr & 7u64 == 0,
        addr < 0x1_0000_0000u64,
    ensures
        ((((value as i64) << 32u64) as u64) | addr | code) & 7u64 == code,
        ((((value as i64) << 32u64) as u64) | addr | code) & 0xFFFF_FFF8u64 == addr,
        (((((value as i64) << 32u64) as u64) | addr | code) >> 32u64) as i32 == value,
{
}

impl SlotPointer {
    /// An aligned address tagged with `tag`.
    pub fn narrow_pointer(tag: SlotTag, addr: u64) -> (r: Self)
        ensures
            r.0 == addr | tag_code(tag),
            addr & 7u64 == 0 ==> r.0 & SLOT_TAG_MASK == tag_code(tag) && r.0 & !SLOT_TAG_MASK
                == addr,
    {
        proof {
            lemma_code_small(tag);
            if addr & 7u64 == 0 {
                lemma_narrow(addr, tag_code(tag));
            }
        }
        SlotPointer(addr | tag.code())
    }

    /// A 32-bit aligned address tagged with `tag`, with `value` in the upper half.
    pub fn composed_pointer(tag: SlotTag, addr: u64, value: i32) -> (r: Self)
        ensures
            r.0 == (((value as i64) << 32u64) as u64) | addr | tag_code(tag),
            addr & 7u64 == 0 && addr < 0x1_0000_0000u64 ==> {
                &&& r.0 & SLOT_TAG_MASK == tag_code(tag)
                &&& r.0 & 0xFFFF_FFF8u64 == addr
                &&& (r.0 >> 32u64) as i32 == value
            },
    {
        proof {
            lemma_code_small(tag);
            if addr & 7u64 == 0 && addr < 0x1_0000_0000u64 {
                lemma_composed(addr, tag_code(tag), value);
            }
        }
        SlotPointer((((value as i64) << 32u64) as u64) | addr | tag.code())
    }

    /// The tag in the low bits; `None` for the codes no tag uses.
    pub fn tag(&self) -> (r: Option<SlotTag>)
        ensures
            r == tag_of_code(self.0 & SLOT_TAG_MASK),
    {
        SlotTag::from_code(self.0 & SLOT_TAG_MASK)
    }

    /// The word with its tag bits cleared.
    pub fn untag(&self) -> (r: Self)
        ensures
            r.0 == self.0 & !SLOT_TAG_MASK,
    {
        SlotPointer(self.0 & !SLOT_TAG_MASK)
    }
}

/// A slot, told apart by its tag, with the tag bits cleared from its word.
#[derive(Debug, Clone, Copy)]
pub enum TypedSlot {
    Reference(SlotPointer),
    Number(SlotPointer),
    Bigint(SlotPointer),
    String(SlotPointer),
    Constant(SlotPointer),
}

/// One 64-bit cell of the value stack: a tagged word.
#[derive(Debug, Clone, Copy, PartialEq, Eq, Structural)]
pub struct Slot(pub u64);

/// The 64-bit word that `x` wraps to.
pub open spec fn wrap64(x: int) -> u64 {
    (x % 0x1_0000_0000_0000_0000int) as u64
}

/// `x` read as a signed integer.
pub open spec fn signed(x: u64) -> i64 {
    x as i64
}

/// Signed division as a 64-bit machine does it: by zero gives all ones, and the one quotient
/// that does not fit gives the dividend back.
pub open spec fn word_div(a: u64, b: u64) -> u64 {
    if b == 0 {
        u64::MAX
    } else {
        match (a as i64).checked_div(b as i64) {
            Some(q) => q as u64,
            None => a,
        }
    }
}

/// Signed remainder as a 64-bit machine does it: by zero gives the dividend, and the one
/// case whose quotient does not fit gives zero.
pub open spec fn word_rem(a: u64, b: u64) -> u64 {
    if b == 0 {
        a
    } else {
        match (a as i64).checked_rem(b as i64) {
            Some(q) => q as u64,
            None => 0,
        }
    }
}

proof fn lemma_word_casts(x: i64, y: u64)
    by (bit_vector)
    ensures
        (x as u64) as i64 == x,
        y & 63u64 < 64,
{
}

proof fn lemma_wrap_add(a: u64, b: u64)
    ensures
        vstd::wrapping::u64_specs::wrapping_add(a, b) == wrap64(a + b),
        vstd::wrapping::u64_specs::wrapping_sub(a, b) == wrap64(a - b),
{
    let m = 0x1_0000_0000_0000_0000int;
    if a + b > u64::MAX {
        assert((a + b) % m == a + b - m) by {
            vstd::arithmetic::div_mod::lemma_fundamental_div_mod_converse(a + b, m, 1, a + b - m);
        }
    } else {
        assert((a + b) % m == a + b) by {
            vstd::arithmetic::div_mod::lemma_small_mod((a + b) as nat, m as nat);
        }
    }
    if a - b < 0 {
        assert((a - b) % m == a - b + m) by {
            vstd::arithmetic::div_mod::lemma_fundamental_div_mod_converse(a - b, m, -1, a - b + m);
        }
    } else {
        assert((a - b) % m == a - b) by {
            vstd::arithmetic::div_mod::lemma_small_mod((a - b) as nat, m as nat);
        }
    }
}

impl Slot {
    /// The word read as a signed payload word.
    pub fn value(&self) -> (r: SlotValue)
        ensures
            r.0 == self.0 as i64,
    {
        SlotValue(self.0 as i64)
    }

    /// The word read as a tagged address.
    pub fn pointer(&self) -> (r: SlotPointer)
        ensures
            r.0 == self.0,
    {
        SlotPointer(self.0)
    }

    pub fn new_uninitalized() -> (r: Self)
        ensures
            r.0 == UNINITIALIZED,
    {
        Slot(UNINITIALIZED)
    }

    /// The all-zero word: a null reference.
    pub fn new_null() -> (r: Self)
        ensures
            r.0 == 0,
    {
        Slot(0)
    }

    pub fn new_undefined() -> (r: Self)
        ensures
            r.0 == UNDEFINED,
    {
        Slot(UNDEFINED)
    }

    pub fn new_false() -> (r: Self)
        ensures
            r.0 == with_tag_spec(7, 0) as u64,
            r.0 == crate::constant::FALSE,
    {
        let v = SlotValue::with_tag(SlotTag::Constant, 0);
        assert(with_tag_spec(7, 0) as u64 == 7u64) by (bit_vector);
        Slot(v.0 as u64)
    }

    pub fn new_true() -> (r: Self)
        ensures
            r.0 == with_tag_spec(7, 1) as u64,
            r.0 == crate::constant::TRUE,
    {
        let v = SlotValue::with_tag(SlotTag::Constant, 1);
        assert(with_tag_spec(7, 1) as u64 == 0x0000_0001_0000_0007u64) by (bit_vector);
        Slot(v.0 as u64)
    }

    /// A number small enough to sit in the slot itself.
    pub fn new_number_inline(value: i32) -> (r: Self)
        ensures
            r.0 == with_tag_spec(1, value) as u64,
            r.0 & SLOT_TAG_MASK == 1,
            upper_i32(r.0 as i64) == value,
    {
        let v = SlotValue::with_tag(SlotTag::Number, value);
        proof {
            lemma_word_casts(v.0, 0);
        }
        Slot(v.0 as u64)
    }

    /// A big integer small enough to sit in the slot itself.
    pub fn new_bigint_inline(value: i32) -> (r: Self)
        ensures
            r.0 == with_tag_spec(5, value) as u64,
            r.0 & SLOT_TAG_MASK == 5,
            upper_i32(r.0 as i64) == value,
    {
        let v = SlotValue::with_tag(SlotTag::Bigint, value);
        proof {
            lemma_word_casts(v.0, 0);
        }
        Slot(v.0 as u64)
    }

    /// A number stored on the heap at `addr`.
    pub fn new_number(addr: u64) -> (r: Self)
        ensures
            r.0 == addr | 1,
    {
        Slot(SlotPointer::narrow_pointer(SlotTag::Number, addr).0)
    }

    /// A big integer stored on the heap at `addr`, with its sign and length.
    pub fn new_bigint(addr: u64, sign_len: i32) -> (r: Self)
        ensures
            r.0 == (((sign_len as i64) << 32u64) as u64) | addr | 5,
    {
        Slot(SlotPointer::composed_pointer(SlotTag::Bigint, addr, sign_len).0)
    }

    /// A string stored on the heap at `addr`; the word does not hold the length.
    pub fn new_string(addr: u64, len: u32) -> (r: Self)
        ensures
            r.0 == addr | 3,
    {
        Slot(SlotPointer::narrow_pointer(SlotTag::String, addr).0)
    }

    /// A reference to a heap object at `addr`.
    pub fn new_reference(addr: u64) -> (r: Self)
        ensures
            r.0 == addr | 0,
    {
        Slot(SlotPointer::narrow_pointer(SlotTag::Reference, addr).0)
    }

    /// The slot told apart by its tag; its tag bits must be one of the five tags.
    pub fn into_typed(&self) -> (r: TypedSlot)
        requires
            tag_of_code(self.0 & SLOT_TAG_MASK) is Some,
        ensures
            ({
                let u = SlotPointer(self.0 & !SLOT_TAG_MASK);
                match tag_of_code(self.0 & SLOT_TAG_MASK).unwrap() {
                    SlotTag::Reference => r == TypedSlot::Reference(u),
                    SlotTag::Number => r == TypedSlot::Number(u),
                    SlotTag::String => r == TypedSlot::String(u),
                    SlotTag::Bigint => r == TypedSlot::Bigint(u),
                    SlotTag::Constant => r == TypedSlot::Constant(u),
                }
            }),
    {
        let p = self.pointer();
        let u = p.untag();
        match p.tag() {
            Some(SlotTag::Reference) => TypedSlot::Reference(u),
            Some(SlotTag::Number) => TypedSlot::Number(u),
            Some(SlotTag::String) => TypedSlot::String(u),
            Some(SlotTag::Bigint) => TypedSlot::Bigint(u),
            Some(SlotTag::Constant) => TypedSlot::Constant(u),
            None => TypedSlot::Constant(u),
        }
    }

    /// Whether the word is zero once its tag bits are cleared.
    pub fn is_falsy(&self) -> (r: bool)
        ensures
            r == (self.0 & !SLOT_TAG_MASK == 0),
    {
        self.pointer().untag().0 == 0
    }

    /// Whether the word is not zero once its tag bits are cleared.
    pub fn is_truthy(&self) -> (r: bool)
        ensures
            r == (self.0 & !SLOT_TAG_MASK != 0),
    {
        self.pointer().untag().0 != 0
    }

    /// The sum of the two words, wrapping.
    pub fn add(self, rhs: Slot) -> (r: Slot)
        ensures
            r.0 == wrap64(self.0 + rhs.0),
    {
        proof {
            lemma_wrap_add(self.0, rhs.0);
        }
        Slot(self.0.wrapping_add(rhs.0))
    }

    /// The difference of the two words, wrapping.
    pub fn sub(self, rhs: Slot) -> (r: Slot)
        ensures
            r.0 == wrap64(self.0 - rhs.0),
    {
        proof {
            lemma_wrap_add(self.0, rhs.0);
        }
        Slot(self.0.wrapping_sub(rhs.0))
    }

    /// The product of the two words, wrapping.
    pub fn mul(self, rhs: Slot) -> (r: Slot)
        ensures
            r.0 == wrap64(self.0 * rhs.0),
    {
        Slot(self.0.wrapping_mul(rhs.0))
    }

    /// The signed quotient of the two words (see `word_div`).
    pub fn div(self, rhs: Slot) -> (r: Slot)
        ensures
            r.0 == word_div(self.0, rhs.0),
    {
        if rhs.0 == 0 {
            Slot(u64::MAX)
        } else {
            match (self.0 as i64).checked_div(rhs.0 as i64) {
                Some(q) => Slot(q as u64),
                None => self,
            }
        }
    }

    /// The signed remainder of the two words (see `word_rem`).
    pub fn rem(self, rhs: Slot) -> (r: Slot)
        ensures
            r.0 == word_rem(self.0, rhs.0),
    {
        if rhs.0 == 0 {
            self
        } else {
            match (self.0 as i64).checked_rem(rhs.0 as i64) {
                Some(q) => Slot(q as u64),
                None => Slot(0),
            }
        }
    }

    /// 1 if the first word is less than the second as signed integers, else 0.
    pub fn slt(self, rhs: Slot) -> (r: Slot)
        ensures
            r.0 == (if signed(self.0) < signed(rhs.0) { 1u64 } else { 0u64 }),
    {
        if (self.0 as i64) < (rhs.0 as i64) {
            Slot(1)
        } else {
            Slot(0)
        }
    }

    /// 1 if the first word is less than the second as unsigned integers, else 0.
    pub fn sltu(self, rhs: Slot) -> (r: Slot)
        ensures
            r.0 == (if self.0 < rhs.0 { 1u64 } else { 0u64 }),
    {
        if self.0 < rhs.0 {
            Slot(1)
        } else {
            Slot(0)
        }
    }

    pub fn bit_and(self, rhs: Slot) -> (r: Slot)
        ensures
            r.0 == self.0 & rhs.0,
    {
        Slot(self.0 & rhs.0)
    }

    pub fn bit_or(self, rhs: Slot) -> (r: Slot)
        ensures
            r.0 == self.0 | rhs.0,
    {
        Slot(self.0 | rhs.0)
    }

    pub fn bit_xor(self, rhs: Slot) -> (r: Slot)
        ensures
            r.0 == self.0 ^ rhs.0,
    {
        Slot(self.0 ^ rhs.0)
    }

    /// The first word shifted left by the low six bits of the second.
    pub fn shl(self, rhs: Slot) -> (r: Slot)
        ensures
            r.0 == self.0 << (rhs.0 & 63u64),
    {
        proof {
            lemma_word_casts(0, rhs.0);
        }
        Slot(self.0 << (rhs.0 & 63u64))
    }

    /// The first word shifted right, filling with zeros, by the low six bits of the second.
    pub fn shr(self, rhs: Slot) -> (r: Slot)
        ensures
            r.0 == self.0 >> (rhs.0 & 63u64),
    {
        proof {
            lemma_word_casts(0, rhs.0);
        }
        Slot(self.0 >> (rhs.0 & 63u64))
    }

    /// The first word shifted right, copying its sign bit, by the low six bits of the second.
    pub fn sar(self, rhs: Slot) -> (r: Slot)
        ensures
            r.0 == ((self.0 as i64) >> (rhs.0 & 63u64)) as u64,
    {
        proof {
            lemma_word_casts(0, rhs.0);
        }
        Slot(((self.0 as i64) >> (rhs.0 & 63u64)) as u64)
    }
}

/// Tagging a word and reading its tag back gives the tag; tagging twice is tagging once.
pub proof fn law_attach_detach(tag: SlotTag, other: SlotTag, value: u64)
    ensures
        attach_spec(tag_code(tag), value) & SLOT_TAG_MASK == tag_code(tag),
        tag_of_code(attach_spec(tag_code(tag), value) & SLOT_TAG_MASK) == Some(tag),
        attach_spec(tag_code(tag), attach_spec(tag_code(other), value)) == attach_spec(
            tag_code(tag),
            value,
        ),
{
    lemma_code_small(tag);
    lemma_code_small(other);
    lemma_tag_mask(tag_code(tag), value);
    lemma_tag_mask(tag_code(other), value);
    lemma_reattach(tag_code(tag), tag_code(other), value);
}

proof fn lemma_reattach(c: u64, d: u64, value: u64)
    by (bit_vector)
    requires
        c <= 7,
        d <= 7,
    ensures
        ((((value & !7u64) | d) & !7u64) | c) == ((value & !7u64) | c),
{
}

/// A payload stored with a tag reads back unchanged, whatever the tag, and the tag reads back
/// from the low bits.
pub proof fn law_with_tag_roundtrip(tag: SlotTag, value: i32)
    ensures
        upper_i32(with_tag_spec(tag_code(tag), value)) == value,
        upper_u32(with_tag_spec(tag_code(tag), value)) == value as u32,
        tag_of_code((with_tag_spec(tag_code(tag), value) as u64) & SLOT_TAG_MASK) == Some(tag),
{
    lemma_code_small(tag);
    lemma_with_tag(tag_code(tag), value);
}

} // verus!
