use kala::decimal::{Decimal, JSString as DataString};
use kala::sminumber::SMINumber;
use std::cmp::Ordering;

const P: i128 = 1_000_000_000_000_000_000;

#[test]
fn decimal_add() {
    assert_eq!(Decimal::from_i32(3), Decimal::Number(3 * P));
    assert_eq!(Decimal::number(2).add(Decimal::number(3)), Decimal::Number(5));
    assert_eq!(Decimal::number(i128::MAX).add(Decimal::number(1)), Decimal::positive_infinity());
    assert_eq!(Decimal::number(i128::MIN).add(Decimal::number(-1)), Decimal::negative_infinity());
    assert_eq!(Decimal::Infinity(false).add(Decimal::Infinity(true)), Decimal::NaN);
    assert_eq!(Decimal::Infinity(true).add(Decimal::Infinity(true)), Decimal::Infinity(true));
    assert_eq!(Decimal::number(5).add(Decimal::Infinity(true)), Decimal::Infinity(true));
    assert_eq!(Decimal::NaN.add(Decimal::number(1)), Decimal::NaN);
}

#[test]
fn decimal_sub_neg() {
    assert_eq!(Decimal::number(5).neg(), Decimal::Number(-5));
    assert_eq!(Decimal::Infinity(false).neg(), Decimal::Infinity(true));
    assert_eq!(Decimal::NaN.neg(), Decimal::NaN);
    assert_eq!(Decimal::number(5).sub(Decimal::number(7)), Decimal::Number(-2));
    assert_eq!(Decimal::number(i128::MIN).sub(Decimal::number(1)), Decimal::Infinity(true));
}

#[test]
fn decimal_mul() {
    assert_eq!(Decimal::from_i32(3).mul(Decimal::number(15 * P / 10)), Decimal::Number(45 * P / 10));
    assert_eq!(Decimal::from_i32(-2).mul(Decimal::from_i32(3)), Decimal::from_i32(-6));
    assert_eq!(Decimal::from_i32(-2).mul(Decimal::from_i32(-3)), Decimal::from_i32(6));
    assert_eq!(Decimal::number(1).mul(Decimal::number(1)), Decimal::Number(0));
    assert_eq!(Decimal::number(i128::MAX).mul(Decimal::number(i128::MAX)), Decimal::Infinity(false));
    assert_eq!(Decimal::number(i128::MAX).mul(Decimal::number(-i128::MAX)), Decimal::Infinity(true));
    // an infinity times a positive number takes the sign the rule `n != is_positive(m)` gives
    assert_eq!(Decimal::Infinity(false).mul(Decimal::number(5)), Decimal::Infinity(true));
    assert_eq!(Decimal::Infinity(true).mul(Decimal::Infinity(true)), Decimal::Infinity(false));
    assert_eq!(Decimal::NaN.mul(Decimal::Infinity(true)), Decimal::NaN);
    assert!(Decimal::number(0).is_positive());
    assert!(!Decimal::NaN.is_positive());
}

#[test]
fn decimal_div_rem_order() {
    assert_eq!(Decimal::number(P).div(Decimal::number(4 * P)), Decimal::Number(P / 4));
    assert_eq!(Decimal::number(-7).div(Decimal::number(2)), Decimal::Number(-7 * P / 2));
    assert_eq!(Decimal::number(7).rem(Decimal::number(-2)), Decimal::Number(1));
    assert_eq!(Decimal::number(-7).rem(Decimal::number(2)), Decimal::Number(-1));
    assert!(Decimal::number(1).lt(&Decimal::number(2)));
    assert!(Decimal::Infinity(true).lt(&Decimal::number(i128::MIN)));
    assert!(Decimal::number(i128::MAX).lt(&Decimal::Infinity(false)));
    assert!(!Decimal::NaN.lt(&Decimal::number(0)));
    assert!(Decimal::number(2).le(&Decimal::number(2)));
    assert!(!Decimal::NaN.le(&Decimal::NaN));
}

#[test]
fn data_string_concat() {
    let mut s = DataString("ab".to_string());
    s.concat(&DataString("cd".to_string()));
    assert_eq!(s.0, "abcd");
}

#[test]
fn sminumber_arithmetic() {
    assert_eq!(SMINumber::SMI(2).add(SMINumber::SMI(3)), SMINumber::SMI(5));
    assert_eq!(
        SMINumber::SMI(1).add(SMINumber::Float(Decimal::Number(P / 2))),
        SMINumber::Float(Decimal::Number(3 * P / 2))
    );
    assert_eq!(SMINumber::SMI(2).sub(SMINumber::SMI(3)), SMINumber::SMI(-1));
    assert_eq!(
        SMINumber::Float(Decimal::Number(P)).sub(SMINumber::SMI(3)),
        SMINumber::Float(Decimal::Number(-2 * P))
    );
    assert_eq!(SMINumber::SMI(6).mul(SMINumber::SMI(7)), SMINumber::SMI(42));
    assert_eq!(
        SMINumber::SMI(3).mul(SMINumber::Float(Decimal::Number(P / 2))),
        SMINumber::Float(Decimal::Number(3 * P / 2))
    );
    assert_eq!(SMINumber::SMI(7).div(SMINumber::SMI(2)), SMINumber::Float(Decimal::from_i32(3)));
    assert_eq!(
        SMINumber::Float(Decimal::Number(P)).div(SMINumber::SMI(4)),
        SMINumber::Float(Decimal::Number(P / 4))
    );
    assert_eq!(SMINumber::SMI(7).rem(SMINumber::SMI(-2)), SMINumber::SMI(1));
    assert_eq!(
        SMINumber::Float(Decimal::Number(7)).rem(SMINumber::Float(Decimal::Number(2))),
        SMINumber::Float(Decimal::Number(1))
    );
    let mut x = SMINumber::SMI(10);
    x.add_assign(SMINumber::SMI(5));
    x.sub_assign(SMINumber::SMI(3));
    x.mul_assign(SMINumber::SMI(2));
    x.rem_assign(SMINumber::SMI(7));
    assert_eq!(x, SMINumber::SMI(3));
    x.div_assign(SMINumber::SMI(2));
    assert_eq!(x, SMINumber::Float(Decimal::from_i32(1)));
}

#[test]
fn sminumber_order() {
    assert!(SMINumber::SMI(1).lt(&SMINumber::Float(Decimal::Number(2 * P))));
    assert!(SMINumber::SMI(2).le(&SMINumber::SMI(2)));
    assert!(SMINumber::SMI(3).gt(&SMINumber::SMI(2)));
    assert!(SMINumber::SMI(2).ge(&SMINumber::Float(Decimal::Number(2 * P))));
    assert!(SMINumber::SMI(1).eq(&SMINumber::Float(Decimal::Number(P))));
    assert!(!SMINumber::SMI(1).eq(&SMINumber::SMI(2)));
    assert_eq!(SMINumber::SMI(2).partial_cmp(&SMINumber::SMI(2)), Some(Ordering::Equal));
    assert_eq!(SMINumber::SMI(1).partial_cmp(&SMINumber::SMI(2)), Some(Ordering::Less));
    assert_eq!(
        SMINumber::Float(Decimal::Infinity(false)).partial_cmp(&SMINumber::SMI(2)),
        Some(Ordering::Greater)
    );
    assert_eq!(SMINumber::Float(Decimal::NaN).partial_cmp(&SMINumber::SMI(2)), None);
    assert_eq!(SMINumber::SMI(-4).to_int32(), -4);
    assert_eq!(SMINumber::Float(Decimal::Number(P)).to_int32(), 0);
    assert_eq!(SMINumber::SMI(4).to_i64(), Some(4));
    assert_eq!(SMINumber::Float(Decimal::NaN).to_i64(), None);
}
