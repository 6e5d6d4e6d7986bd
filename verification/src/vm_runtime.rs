use vstd::prelude::*;

verus! {

/// A boolean value as the machine sees it.
pub trait JSBoolean {
    fn to_bool(&self) -> bool;
}

/// The arithmetic every numeric value offers. Each operation works in place and hands back
/// the value, or an error message.
pub trait JSNumeric: Sized {
    fn add(&mut self, other: &Self) -> Result<&mut Self, String>;

    fn sub(&mut self, other: &Self) -> Result<&mut Self, String>;

    fn mul(&mut self, other: &Self) -> Result<&mut Self, String>;

    fn div(&mut self, other: &Self) -> Result<&mut Self, String>;

    fn modulo(&mut self, other: &Self) -> Result<&mut Self, String>;

    fn pow(&mut self, other: &Self) -> Result<&mut Self, String>;

    fn bitand(&mut self, other: &Self) -> Result<&mut Self, String>;

    fn bitor(&mut self, other: &Self) -> Result<&mut Self, String>;

    fn bitxor(&mut self, other: &Self) -> Result<&mut Self, String>;

    fn bitnot(&mut self) -> Result<&mut Self, String>;

    fn lshift(&mut self, other: &Self) -> Result<&mut Self, String>;

    fn rshift(&mut self, other: &Self) -> Result<&mut Self, String>;

    fn urshift(&mut self, other: &Self) -> Result<&mut Self, String>;

    fn equal(&self, other: &Self) -> bool;

    fn not_equal(&self, other: &Self) -> bool;

    fn lt(&self, other: &Self) -> bool;

    fn gt(&self, other: &Self) -> bool;

    fn le(&self, other: &Self) -> bool;

    fn ge(&self, other: &Self) -> bool;
}

/// A number value.
pub trait JSNumber: JSNumeric {}

/// A big integer value.
pub trait JSBigint: JSNumeric {}

/// A string value.
pub trait JSString {
    fn concat(&mut self, other: &Self) -> &mut Self;
}

/// The name of a property.
pub trait JSPropName: Sized {
    fn new(name: String) -> Self;

    fn to_string(&self) -> String;
}

} // verus!
