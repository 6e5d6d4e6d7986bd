use vstd::prelude::*;

verus! {

/// The number type of the mock runtime; it behaves as the machine's number value.
pub type Number = crate::vm_value::JSNumber;

/// A big integer of up to 128 bits: a sign (`true` when negative) and four 32-bit limbs,
/// least significant first.
#[derive(Debug, Clone, Copy)]
pub enum Bigint {
    V128(bool, [u32; 4]),
}

/// A reference to a value on the heap; it holds nothing yet.
#[derive(Debug, Clone, Copy, PartialEq, Eq, Structural)]
pub struct Reference {}

} // verus!
