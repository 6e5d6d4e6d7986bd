use vstd::prelude::*;

verus! {

/// A value of an evaluation, with the kind of variable that holds it.
pub trait JSValue: Sized {
    type Variable: JSVariable<Self>;

    /// Whether the value refers to a shared heap object.
    fn is_reference(&self) -> bool;
}

/// A variable holding a value: it can be read, assigned, and captured by a closure.
pub trait JSVariable<V>: Sized {
    fn new(value: V, mutable: bool) -> Self;

    fn capture(&mut self);

    fn get(&self) -> V;

    fn set(&mut self, value: V);

    fn is_mutable(&self) -> bool;
}

/// An error that can be thrown as a value.
pub trait JSError<V: JSValue> {
    fn wrap(self) -> V;
}

} // verus!
