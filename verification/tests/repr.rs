use kala::constant::{ConstantSlot, FALSE, TRUE, UNDEFINED, UNINITIALIZED};
use kala::number_slot::NumberSlot;
use kala::pointer::{np32, wp64};
use kala::reference::{ref32, ReferenceHeader, ReferenceSlot};
use kala::slot::{Slot, SlotPointer, SlotTag, SlotValue, TypedSlot};
use kala::string_slot::StringSlot;
use kala::types::SharedString;

#[test]
fn slot_tag_attach_detach() {
    assert_eq!(SlotTag::Number.attach(0xFF), 0xF9);
    assert_eq!(SlotTag::Reference.attach(0xFF), 0xF8);
    assert_eq!(SlotTag::detach(0xF9), 1);
    assert_eq!(SlotTag::detach(SlotTag::Constant.attach(0x1234_5678)), 7);
    assert_eq!(SlotTag::from_code(5), Some(SlotTag::Bigint));
    assert_eq!(SlotTag::from_code(2), None);
}

#[test]
fn slot_value_roundtrip() {
    let v = SlotValue::with_tag(SlotTag::Number, 5);
    assert_eq!(v.0, 0x5_0000_0001);
    assert_eq!(v.as_number_value(), 5);
    let w = SlotValue::with_tag(SlotTag::Number, -1);
    assert_eq!(w.0, -4294967295);
    assert_eq!(w.as_number_value(), -1);
    assert_eq!(w.as_bigint_value(), -1);
    assert_eq!(w.as_bigint_sign_length(), -1);
    let c = SlotValue::with_tag(SlotTag::Constant, -1);
    assert_eq!(c.as_constant_value(), 0xFFFF_FFFF);
    assert_eq!(c.as_string_length(), 0xFFFF_FFFF);
    assert_eq!(c.as_reference_metadata(), 0xFFFF_FFFF);
}

#[test]
fn slot_constructors() {
    assert_eq!(Slot::new_false().0, FALSE);
    assert_eq!(Slot::new_false().0, 7);
    assert_eq!(Slot::new_true().0, TRUE);
    assert_eq!(Slot::new_true().0, 0x1_0000_0007);
    assert_eq!(Slot::new_undefined().0, UNDEFINED);
    assert_eq!(Slot::new_uninitalized().0, UNINITIALIZED);
    assert_eq!(Slot::new_null().0, 0);
    assert_eq!(Slot::new_number_inline(3).0, 0x3_0000_0001);
    assert_eq!(Slot::new_bigint_inline(-1).0, 0xFFFF_FFFF_0000_0005);
    assert_eq!(Slot::new_number(0x1000).0, 0x1001);
    assert_eq!(Slot::new_string(0x1000, 4).0, 0x1003);
    assert_eq!(Slot::new_reference(0x1000).0, 0x1000);
    assert_eq!(Slot::new_bigint(0x1000, -2).0, 0xFFFF_FFFE_0000_1005);
}

#[test]
fn slot_truthiness() {
    assert!(Slot::new_false().is_falsy());
    assert!(Slot::new_true().is_truthy());
    assert!(Slot::new_null().is_falsy());
    assert!(Slot::new_number_inline(0).is_falsy());
    assert!(Slot::new_number_inline(3).is_truthy());
    // the tag bits of `undefined` leave a non-zero word behind
    assert!(Slot::new_undefined().is_truthy());
}

#[test]
fn slot_pointer_tags() {
    let p = SlotPointer::narrow_pointer(SlotTag::String, 0x2000);
    assert_eq!(p.0, 0x2003);
    assert_eq!(p.tag(), Some(SlotTag::String));
    assert_eq!(p.untag().0, 0x2000);
    let q = SlotPointer::composed_pointer(SlotTag::Bigint, 0x1000, 7);
    assert_eq!(q.0, 0x7_0000_1005);
    assert_eq!(SlotPointer(6).tag(), None);
}

#[test]
fn slot_into_typed() {
    match Slot::new_number_inline(7).into_typed() {
        TypedSlot::Number(p) => assert_eq!(p.0, 0x7_0000_0000),
        _ => panic!("expected a number"),
    }
    match Slot::new_true().into_typed() {
        TypedSlot::Constant(p) => assert_eq!(p.0, 0x1_0000_0000),
        _ => panic!("expected a constant"),
    }
    match Slot::new_reference(0x40).into_typed() {
        TypedSlot::Reference(p) => assert_eq!(p.0, 0x40),
        _ => panic!("expected a reference"),
    }
}

#[test]
fn slot_word_arithmetic() {
    assert_eq!(Slot(u64::MAX).add(Slot(1)), Slot(0));
    assert_eq!(Slot(0).sub(Slot(1)), Slot(u64::MAX));
    assert_eq!(Slot(1 << 63).mul(Slot(2)), Slot(0));
    assert_eq!(Slot(6).mul(Slot(7)), Slot(42));
    assert_eq!(Slot(7).div(Slot(0)), Slot(u64::MAX));
    assert_eq!(Slot((-7i64) as u64).div(Slot(2)), Slot((-3i64) as u64));
    assert_eq!(Slot(i64::MIN as u64).div(Slot(u64::MAX)), Slot(i64::MIN as u64));
    assert_eq!(Slot((-7i64) as u64).rem(Slot(2)), Slot((-1i64) as u64));
    assert_eq!(Slot(7).rem(Slot(0)), Slot(7));
    assert_eq!(Slot(i64::MIN as u64).rem(Slot(u64::MAX)), Slot(0));
    assert_eq!(Slot((-1i64) as u64).slt(Slot(0)), Slot(1));
    assert_eq!(Slot((-1i64) as u64).sltu(Slot(0)), Slot(0));
    assert_eq!(Slot(0b1100).bit_and(Slot(0b1010)), Slot(0b1000));
    assert_eq!(Slot(0b1100).bit_or(Slot(0b1010)), Slot(0b1110));
    assert_eq!(Slot(0b1100).bit_xor(Slot(0b1010)), Slot(0b0110));
    assert_eq!(Slot(1).shl(Slot(65)), Slot(2));
    assert_eq!(Slot(1 << 63).shr(Slot(63)), Slot(1));
    assert_eq!(Slot((-8i64) as u64).sar(Slot(1)), Slot((-4i64) as u64));
}

#[test]
fn constant_slot_predicates() {
    let u = ConstantSlot::new_uninitialized();
    assert!(u.is_uninitialized());
    assert!(!u.is_undefined());
    assert!(u.is_truthy());
    let d = ConstantSlot::new_undefined();
    assert!(d.is_undefined());
    assert!(d.is_falsy());
    assert!(!d.is_constant());
    let f = ConstantSlot::new_false();
    assert!(f.is_falsy());
    assert_eq!(f.word(), FALSE);
    let t = ConstantSlot::new_true();
    assert!(t.is_truthy());
    assert_eq!(t.word(), TRUE);
    assert!(!t.is_constant());
}

#[test]
fn pointers() {
    let p = np32::new(5);
    assert!(!p.is_null());
    assert_eq!(*p.deref(), 5);
    assert!(np32::<i32>::null().is_null());
    let w = wp64::new(&[1u8, 2, 3]);
    assert_eq!(w.len(), 3);
    assert_eq!(w.deref(), &[1u8, 2, 3]);
}

#[test]
fn number_slot_add() {
    let s = NumberSlot::new_inline(2).add(NumberSlot::new_inline(3));
    assert_eq!(s.deref(), 5);
    assert!(s.inline());
    // an inline sum past 32 bits goes to the heap wrapped to 32 bits
    let w = NumberSlot::new_inline(i32::MAX).add(NumberSlot::new_inline(1));
    assert_eq!(w.deref(), i32::MIN as i128);
    assert!(!w.inline());
    let b = NumberSlot::new(10).add(NumberSlot::new_inline(5));
    assert_eq!(b.deref(), 15);
    assert!(!b.inline());
    assert_eq!(NumberSlot::new(i128::MAX).add(NumberSlot::new_inline(1)).deref(), i128::MAX);
    assert_eq!(NumberSlot::new(i128::MIN).add(NumberSlot::new(-1)).deref(), i128::MIN);
    assert_eq!(NumberSlot::new_positive_infinity().deref(), i128::MAX);
    assert_eq!(NumberSlot::new_negative_infinity().deref(), i128::MIN);
}

#[test]
fn number_slot_sub_mul_div() {
    let d = NumberSlot::new_inline(5).sub(NumberSlot::new_inline(7));
    assert_eq!(d.deref(), -2);
    assert!(d.inline());
    assert_eq!(NumberSlot::new(i128::MIN).sub(NumberSlot::new_inline(1)).deref(), i128::MIN);
    assert_eq!(NumberSlot::new(i128::MAX).sub(NumberSlot::new_inline(-1)).deref(), i128::MAX);
    let p = NumberSlot::new_inline(6).mul(NumberSlot::new_inline(7));
    assert_eq!(p.deref(), 42);
    assert!(p.inline());
    // heap numbers multiply as 64.64 fixed point: 0.5 * 0.5 = 0.25, 1.5 * 0.5 = 0.75
    assert_eq!(NumberSlot::new(1 << 63).mul(NumberSlot::new(1 << 63)).deref(), 1 << 62);
    assert_eq!(NumberSlot::new(3 << 63).mul(NumberSlot::new(1 << 63)).deref(), 3 << 62);
    assert_eq!(NumberSlot::new_inline(2).mul(NumberSlot::new(1 << 63)).deref(), 1);
    let q = NumberSlot::new_inline(12).div(NumberSlot::new_inline(-3));
    assert_eq!(q.deref(), -4);
    assert!(q.inline());
}

#[test]
fn reference_objects() {
    let header = ReferenceHeader { reference_count: 1, len: 3 };
    assert_eq!(header.len(), 3);
    let r = ref32::new(header, &[Slot(1), Slot(2)]);
    assert!(!r.is_null());
    let (h, body) = r.deref();
    assert_eq!(*h, header);
    assert_eq!(body, &[Slot(1), Slot(2)]);
    assert!(ref32::<Slot>::null().is_null());
    let slot = ReferenceSlot { value: 0, pointer: ref32::new(header, &[Slot(9)]) };
    assert_eq!(slot.deref().1, &[Slot(9)]);
}

#[test]
fn string_slot_utf8() {
    let text = "a\u{e9}\u{20ac}\u{1F600}";
    let s = StringSlot::new(SharedString::from_str(text));
    assert_eq!(s.deref(), text.as_bytes());
    assert_eq!(s.deref().len(), 1 + 2 + 3 + 4);
    let t = StringSlot::new(SharedString::from_str("a\u{e9}\u{20ac}\u{1F600}"));
    assert!(s.eq(&t));
    assert!(!s.eq(&StringSlot::new(SharedString::from_str("a"))));
    assert_eq!(StringSlot::new(SharedString::from_str("")).deref().len(), 0);
}
