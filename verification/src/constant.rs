use vstd::prelude::*;
use crate::pointer::{full32, null32};

verus! {

/// The word of a slot that was never written.
pub const UNINITIALIZED: u64 = 0xFFFF_FFFF_FFFF_FFFFu64;
/// The word of `undefined`.
pub const UNDEFINED: u64 = 0x0000_0000_FFFF_FFFFu64;
/// The word of `false`: payload 0 under the constant tag.
pub const FALSE: u64 = 0x0000_0000_0000_0007u64;
/// The word of `true`: payload 1 under the constant tag.
pub const TRUE: u64 = 0x0000_0001_0000_0007u64;

/// The two halves of an uninitialized slot, both all ones.
pub struct UninitializedSlot {
    pub value: full32,
    pub pointer: full32,
}

/// The two halves of `undefined`: a zero upper half above an all-ones lower half.
pub struct UndefinedSlot {
    pub value: null32,
    pub pointer: full32,
}

/// The two halves of a boolean: its value and a zero half.
pub struct BooleanSlot {
    pub value: u32,
    pub pointer: null32,
}

/// A slot holding one of the constants: uninitialized, `undefined`, `false` or `true`.
#[derive(Debug, Clone, Copy)]
pub struct ConstantSlot {
    word: u64,
}

impl View for ConstantSlot {
    type V = u64;

    closed spec fn view(&self) -> u64 {
        self.word
    }
}

impl ConstantSlot {
    pub fn new_uninitialized() -> (r: Self)
        ensures
            r@ == UNINITIALIZED,
    {
        ConstantSlot { word: UNINITIALIZED }
    }

    pub fn new_undefined() -> (r: Self)
        ensures
            r@ == UNDEFINED,
    {
        ConstantSlot { word: UNDEFINED }
    }

    pub fn new_false() -> (r: Self)
        ensures
            r@ == FALSE,
    {
        ConstantSlot { word: FALSE }
    }

    pub fn new_true() -> (r: Self)
        ensures
            r@ == TRUE,
    {
        ConstantSlot { word: TRUE }
    }

    pub fn is_uninitialized(&self) -> (r: bool)
        ensures
            r == (self@ == UNINITIALIZED),
    {
        self.word == UNINITIALIZED
    }

    pub fn is_undefined(&self) -> (r: bool)
        ensures
            r == (self@ == UNDEFINED),
    {
        self.word == UNDEFINED
    }

    /// Whether the lower half of the word is zero.
    pub fn is_constant(&self) -> (r: bool)
        ensures
            r == (self@ & 0x0000_0000_FFFF_FFFFu64 == 0),
    {
        self.word & 0x0000_0000_FFFF_FFFFu64 == 0
    }

    /// Whether the upper half of the word is zero.
    pub fn is_falsy(&self) -> (r: bool)
        ensures
            r == (self@ & 0xFFFF_FFFF_0000_0000u64 == 0),
    {
        self.word & 0xFFFF_FFFF_0000_0000u64 == 0
    }

    /// Whether the upper half of the word is not zero.
    pub fn is_truthy(&self) -> (r: bool)
        ensures
            r == (self@ & 0xFFFF_FFFF_0000_0000u64 != 0),
    {
        self.word & 0xFFFF_FFFF_0000_0000u64 != 0
    }

    /// The raw word of this constant.
    pub fn word(&self) -> (r: u64)
        ensures
            r == self@,
    {
        self.word
    }
}

/// Exactly `false` and `undefined` are falsy; `true` and an uninitialized slot are truthy.
pub proof fn law_constant_truthiness()
    by (bit_vector)
    ensures
        FALSE & 0xFFFF_FFFF_0000_0000u64 == 0,
        UNDEFINED & 0xFFFF_FFFF_0000_0000u64 == 0,
        TRUE & 0xFFFF_FFFF_0000_0000u64 != 0,
        UNINITIALIZED & 0xFFFF_FFFF_0000_0000u64 != 0,
{
}

} // verus!
