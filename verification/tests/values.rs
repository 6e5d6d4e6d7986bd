use kala::runtime::{JSNumber as RtNumber, JSString as RtString, MAX_SAFE_INTEGER, MIN_SAFE_INTEGER};
use kala::value::{JSNumber as SmiNumber, JSString as SmiString};
use kala::vm_value::{JSNumber as VmNumber, JSPropName, JSString as VmString};
use kala::common::DeclarationKind;
use kala::lexical::Identifier;

enum Operator {
    Add,
    Sub,
    Mul,
    Div,
    Mod,
}

#[test]
fn runtime_simple_test() {
    let test_arithmetic = |mut ix: i64, iy: i64, op: Operator| {
        let mut jsx = RtNumber::Integer(ix);
        let jsy = RtNumber::Integer(iy);
        assert_eq!(jsx.to_i64().unwrap(), ix);
        assert_eq!(jsy.to_i64().unwrap(), iy);
        match op {
            Operator::Add => {
                ix += iy;
                jsx.op_add(&jsy)
            }
            Operator::Sub => {
                ix -= iy;
                jsx.op_sub(&jsy)
            }
            Operator::Mul => {
                ix *= iy;
                jsx.op_mul(&jsy)
            }
            Operator::Div => {
                ix /= iy;
                jsx.op_div(&jsy)
            }
            Operator::Mod => {
                ix %= iy;
                jsx.op_mod(&jsy)
            }
        };

        assert_eq!(jsx.to_i64().unwrap(), ix);
    };

    test_arithmetic(1, 2, Operator::Add);
    test_arithmetic(1, 2, Operator::Sub);
    test_arithmetic(1, 2, Operator::Mul);
    test_arithmetic(1, 2, Operator::Div);
    test_arithmetic(1, 2, Operator::Mod);

    test_arithmetic(1, -2, Operator::Add);
    test_arithmetic(1, -2, Operator::Sub);
    test_arithmetic(1, -2, Operator::Mul);
    test_arithmetic(1, -2, Operator::Div);
    test_arithmetic(1, -2, Operator::Mod);

    test_arithmetic(-1, 2, Operator::Add);
    test_arithmetic(-1, 2, Operator::Sub);
    test_arithmetic(-1, 2, Operator::Mul);
    test_arithmetic(-1, 2, Operator::Div);
    test_arithmetic(-1, 2, Operator::Mod);

    test_arithmetic(-1, -2, Operator::Add);
    test_arithmetic(-1, -2, Operator::Sub);
    test_arithmetic(-1, -2, Operator::Mul);
    test_arithmetic(-1, -2, Operator::Div);
    test_arithmetic(-1, -2, Operator::Mod);

    test_arithmetic(0, 2, Operator::Add);
    test_arithmetic(0, 2, Operator::Sub);
    test_arithmetic(0, 2, Operator::Mul);
    test_arithmetic(0, 2, Operator::Div);
    test_arithmetic(0, 2, Operator::Mod);
}

#[test]
fn runtime_number_limits() {
    let mut a = RtNumber::Integer(MAX_SAFE_INTEGER);
    a.op_add(&RtNumber::Integer(10));
    assert_eq!(a, RtNumber::Integer(MAX_SAFE_INTEGER));
    let mut b = RtNumber::Integer(MIN_SAFE_INTEGER);
    b.op_sub(&RtNumber::Integer(10));
    assert_eq!(b, RtNumber::Integer(MIN_SAFE_INTEGER));
    let mut c = RtNumber::Integer(MAX_SAFE_INTEGER);
    c.op_inc();
    assert_eq!(c, RtNumber::Integer(MAX_SAFE_INTEGER));
    let mut d = RtNumber::Integer(MIN_SAFE_INTEGER);
    d.op_dec();
    assert_eq!(d, RtNumber::Integer(MIN_SAFE_INTEGER));
    let mut e = RtNumber::Integer(4);
    e.op_inc();
    e.op_neg();
    assert_eq!(e, RtNumber::Integer(-5));
}

#[test]
fn runtime_number_specials() {
    let mut a = RtNumber::Infinity(true);
    a.op_add(&RtNumber::Infinity(false));
    assert_eq!(a, RtNumber::NaN);
    let mut b = RtNumber::Integer(3);
    b.op_sub(&RtNumber::Infinity(true));
    assert_eq!(b, RtNumber::Infinity(false));
    let mut c = RtNumber::Integer(-3);
    c.op_mul(&RtNumber::Infinity(true));
    assert_eq!(c, RtNumber::Infinity(false));
    let mut d = RtNumber::Integer(0);
    d.op_mul(&RtNumber::Infinity(true));
    assert_eq!(d, RtNumber::NaN);
    let mut e = RtNumber::Integer(5);
    e.op_div(&RtNumber::Integer(0));
    assert_eq!(e, RtNumber::Infinity(true));
    let mut f = RtNumber::Integer(0);
    f.op_div(&RtNumber::Integer(0));
    assert_eq!(f, RtNumber::NaN);
    let mut g = RtNumber::Integer(5);
    g.op_mod(&RtNumber::Integer(0));
    assert_eq!(g, RtNumber::NaN);
    let mut h = RtNumber::Integer(5);
    h.op_div(&RtNumber::Infinity(false));
    assert_eq!(h, RtNumber::Integer(0));
    assert!(RtNumber::Infinity(false).op_lt(&RtNumber::Infinity(true)));
    assert!(!RtNumber::Integer(1).op_lt(&RtNumber::Infinity(true)));
    assert!(RtNumber::Integer(1).op_lte(&RtNumber::Integer(1)));
    assert!(RtNumber::Integer(2).op_gt(&RtNumber::Integer(1)));
    assert!(!RtNumber::NaN.op_gte(&RtNumber::NaN));
}

#[test]
fn runtime_number_bits() {
    let mut a = RtNumber::Integer(0x1_0000_0003);
    a.op_bitand(&RtNumber::Integer(1));
    assert_eq!(a, RtNumber::Integer(1));
    let mut b = RtNumber::NaN;
    b.op_bitor(&RtNumber::Integer(6));
    assert_eq!(b, RtNumber::Integer(6));
    let mut c = RtNumber::Integer(5);
    c.op_bitxor(&RtNumber::Integer(3));
    assert_eq!(c, RtNumber::Integer(6));
    let mut d = RtNumber::Integer(0);
    d.op_bitnot();
    assert_eq!(d, RtNumber::Integer(-1));
    let mut e = RtNumber::Integer(1);
    e.op_lshift(&RtNumber::Integer(31));
    assert_eq!(e, RtNumber::Integer(i32::MIN as i64));
    let mut f = RtNumber::Integer(-8);
    f.op_rshift(&RtNumber::Integer(2));
    assert_eq!(f, RtNumber::Integer(-2));
    assert_eq!(RtNumber::Infinity(true).to_int32(), 0);
    let mut g = RtNumber::Integer(MAX_SAFE_INTEGER + 5);
    g.check_overflow();
    assert_eq!(g, RtNumber::Integer(MAX_SAFE_INTEGER));
    let mut h = RtNumber::Integer(MIN_SAFE_INTEGER - 5);
    h.check_underflow();
    assert_eq!(h, RtNumber::Integer(MIN_SAFE_INTEGER));
}

#[test]
fn runtime_string_concat() {
    let mut s = RtString("foo".to_string());
    s.op_concat(&RtString("bar".to_string()));
    assert_eq!(s.0, "foobar");
}

#[test]
fn smi_number_ops() {
    let mut a = SmiNumber::SMI(7);
    a.add(&mut SmiNumber::SMI(5));
    assert_eq!(a, SmiNumber::SMI(12));
    a.sub(&mut SmiNumber::SMI(2));
    assert_eq!(a, SmiNumber::SMI(10));
    a.mul(&mut SmiNumber::SMI(-3));
    assert_eq!(a, SmiNumber::SMI(-30));
    a.div(&mut SmiNumber::SMI(4));
    assert_eq!(a, SmiNumber::SMI(-7));
    a.modulo(&mut SmiNumber::SMI(4));
    assert_eq!(a, SmiNumber::SMI(-3));
    let mut p = SmiNumber::SMI(3);
    p.pow(&mut SmiNumber::SMI(4));
    assert_eq!(p, SmiNumber::SMI(81));
    let mut q = SmiNumber::SMI(-2);
    q.pow(&mut SmiNumber::SMI(3));
    assert_eq!(q, SmiNumber::SMI(-8));
    let mut r = SmiNumber::SMI(1);
    r.pow(&mut SmiNumber::SMI(-1));
    assert_eq!(r, SmiNumber::SMI(1));
    let mut s = SmiNumber::SMI(-1);
    s.pow(&mut SmiNumber::SMI(-1));
    assert_eq!(s, SmiNumber::SMI(-1));
    let mut t = SmiNumber::SMI(0);
    t.pow(&mut SmiNumber::SMI(0));
    assert_eq!(t, SmiNumber::SMI(1));
}

#[test]
fn smi_number_bits_and_order() {
    let mut a = SmiNumber::SMI(0b1100);
    a.bit_and(&mut SmiNumber::SMI(0b1010));
    assert_eq!(a, SmiNumber::SMI(0b1000));
    a.bit_or(&mut SmiNumber::SMI(0b0011));
    assert_eq!(a, SmiNumber::SMI(0b1011));
    let mut d = SmiNumber::SMI(-1);
    d.unsigned_right_shift(&mut SmiNumber::SMI(28));
    assert_eq!(d, SmiNumber::SMI(15));
    assert!(SmiNumber::SMI(1).equal(&SmiNumber::SMI(1)));
    assert!(SmiNumber::SMI(1).strict_equal(&SmiNumber::SMI(1)));
    assert!(SmiNumber::SMI(2).greater_than(&SmiNumber::SMI(1)));
    assert!(SmiNumber::SMI(2).greater_than_equal(&SmiNumber::SMI(2)));
    assert!(SmiNumber::SMI(1).less_than(&SmiNumber::SMI(2)));
    assert!(!SmiNumber::SMI(3).less_than_equal(&SmiNumber::SMI(2)));
}

#[test]
fn smi_string_concat() {
    let mut s = SmiString("x".to_string());
    s.concat(&SmiString("yz".to_string()));
    assert_eq!(s.0, "xyz");
}

#[test]
fn vm_number_ops() {
    let mut a = VmNumber::Integer(7);
    assert_eq!(*a.add(&VmNumber::Integer(5)).unwrap(), VmNumber::Integer(12));
    assert_eq!(*a.sub(&VmNumber::Infinity(true)).unwrap(), VmNumber::Infinity(false));
    let mut b = VmNumber::Integer(0);
    assert!(b.mul(&VmNumber::Integer(5)).is_err());
    assert_eq!(b, VmNumber::Integer(0));
    let mut c = VmNumber::Integer(-7);
    assert_eq!(*c.div(&VmNumber::Integer(2)).unwrap(), VmNumber::Integer(-3));
    assert_eq!(*c.modulo(&VmNumber::Integer(2)).unwrap(), VmNumber::Integer(-1));
    let mut d = VmNumber::Integer(6);
    assert_eq!(*d.mul(&VmNumber::Integer(7)).unwrap(), VmNumber::Integer(42));
    let mut e = VmNumber::Infinity(true);
    assert_eq!(*e.add(&VmNumber::Infinity(false)).unwrap(), VmNumber::NaN);
    let mut f = VmNumber::Integer(3);
    assert_eq!(*f.div(&VmNumber::Integer(0)).unwrap(), VmNumber::Infinity(true));
    let mut g = VmNumber::Integer(0b1100);
    assert_eq!(*g.bitand(&VmNumber::Integer(0b1010)).unwrap(), VmNumber::Integer(0b1000));
    assert_eq!(*g.bitor(&VmNumber::Integer(0b0001)).unwrap(), VmNumber::Integer(0b1001));
    assert_eq!(*g.bitxor(&VmNumber::Integer(0b1111)).unwrap(), VmNumber::Integer(0b0110));
    assert_eq!(*g.bitnot().unwrap(), VmNumber::Integer(-7));
    let mut h = VmNumber::Integer(3);
    assert_eq!(*h.lshift(&VmNumber::Integer(2)).unwrap(), VmNumber::Integer(12));
    assert_eq!(*h.rshift(&VmNumber::Integer(3)).unwrap(), VmNumber::Integer(1));
    assert!(VmNumber::NaN.equal(&VmNumber::NaN));
    assert!(VmNumber::Integer(1).not_equal(&VmNumber::Integer(2)));
    assert!(VmNumber::Integer(1).lt(&VmNumber::Integer(2)));
    assert!(VmNumber::Infinity(true).gt(&VmNumber::Infinity(false)));
    assert!(VmNumber::Integer(2).le(&VmNumber::Integer(2)));
    assert!(!VmNumber::Integer(2).ge(&VmNumber::Infinity(true)));
    assert_eq!(VmNumber::Integer(0x1_0000_0005).to_int32(), 5);
}

#[test]
fn vm_strings() {
    let mut s = VmString::new_short("abcdefgh");
    assert_eq!(s, VmString::Short(0x6162636465666768));
    assert!(!s.is_empty());
    assert_eq!(s.to_string(), "abcdefgh");
    s.concat(&VmString::new("!".to_string()));
    assert_eq!(s, VmString::Normal("abcdefgh!".to_string()));
    assert_eq!(VmString::new_short("abcdefgh").as_normal(), VmString::Normal("abcdefgh".to_string()));
    let mut t = VmString::new_short("12345678");
    t.to_normal();
    assert_eq!(t, VmString::Normal("12345678".to_string()));
    assert!(VmString::Short(0).is_empty());
    assert!(VmString::new(String::new()).is_empty());
    let name = JSPropName::new("length".to_string());
    assert_eq!(name.as_str(), "length");
}

#[test]
fn declarations_and_identifiers() {
    assert!(DeclarationKind::Let.is_mutable());
    assert!(!DeclarationKind::Const.is_mutable());
    let id = Identifier::new("x".to_string());
    assert_eq!(id.id, "x");
    assert!(id.opt.is_none());
}
