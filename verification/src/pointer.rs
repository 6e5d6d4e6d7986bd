use vstd::prelude::*;

verus! {

/// A 32-bit half of a slot that is all zeros.
#[allow(non_camel_case_types)]
#[derive(Clone, Copy, Debug)]
pub struct null32 {
    inner: u32,
}

/// A 32-bit half of a slot that is all ones.
#[allow(non_camel_case_types)]
#[derive(Clone, Copy, Debug)]
pub struct full32 {
    inner: u32,
}

impl View for null32 {
    type V = u32;

    closed spec fn view(&self) -> u32 {
        self.inner
    }
}

impl View for full32 {
    type V = u32;

    closed spec fn view(&self) -> u32 {
        self.inner
    }
}

impl null32 {
    pub fn new() -> (r: Self)
        ensures
            r@ == 0,
    {
        null32 { inner: 0 }
    }
}

impl full32 {
    pub fn new() -> (r: Self)
        ensures
            r@ == 0xFFFF_FFFFu32,
    {
        full32 { inner: 0xFFFF_FFFFu32 }
    }
}

/// A nullable owning pointer to one value.
#[allow(non_camel_case_types)]
#[derive(Debug)]
pub struct np32<T> {
    inner: Option<Box<T>>,
}

impl<T> View for np32<T> {
    type V = Option<T>;

    closed spec fn view(&self) -> Option<T> {
        match self.inner {
            Some(b) => Some(*b),
            None => None,
        }
    }
}

impl<T> np32<T> {
    /// A pointer to a new heap cell holding `value`.
    pub fn new(value: T) -> (r: Self)
        ensures
            r@ == Some(value),
    {
        np32 { inner: Some(Box::new(value)) }
    }

    /// The null pointer.
    pub fn null() -> (r: Self)
        ensures
            r@ == None::<T>,
    {
        np32 { inner: None }
    }

    pub fn is_null(&self) -> (r: bool)
        ensures
            r == (self@ is None),
    {
        self.inner.is_none()
    }

    /// The value pointed to; the pointer must not be null.
    pub fn deref(&self) -> (r: &T)
        requires
            self@ is Some,
        ensures
            Some(*r) == self@,
    {
        let b = self.inner.as_ref().unwrap();
        &**b
    }
}

/// A wide pointer: an owned run of items together with its length.
#[allow(non_camel_case_types)]
#[derive(Debug)]
pub struct wp64<T> {
    items: Vec<T>,
}

impl<T> View for wp64<T> {
    type V = Seq<T>;

    closed spec fn view(&self) -> Seq<T> {
        self.items@
    }
}

impl<T: Clone> wp64<T> {
    /// A pointer to a fresh copy of `value`, whose length must fit in 32 bits.
    pub fn new(value: &[T]) -> (r: Self)
        requires
            value@.len() <= u32::MAX,
        ensures
            r@.len() == value@.len(),
            forall|i: int| 0 <= i < value@.len() ==> cloned::<T>(value@[i], #[trigger] r@[i]),
    {
        let mut v: Vec<T> = Vec::new();
        let n = value.len();
        for i in 0..n
            invariant
                n == value@.len(),
                v@.len() == i,
                forall|j: int| 0 <= j < i ==> cloned::<T>(value@[j], #[trigger] v@[j]),
        {
            v.push(value[i].clone());
        }
        wp64 { items: v }
    }
}

impl<T> wp64<T> {
    /// The items pointed to.
    pub fn deref(&self) -> (r: &[T])
        ensures
            r@ == self@,
    {
        self.items.as_slice()
    }

    /// The number of items pointed to.
    pub fn len(&self) -> (r: usize)
        ensures
            r == self@.len(),
    {
        self.items.len()
    }
}

} // verus!
