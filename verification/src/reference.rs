use vstd::prelude::*;
use crate::slot::Slot;

verus! {

/// The header in front of every heap object: how many references it has and how many
/// slots it spans.
#[derive(Debug, Clone, Copy, PartialEq, Eq, Structural)]
pub struct ReferenceHeader {
    pub reference_count: u32,
    pub len: u32,
}

impl ReferenceHeader {
    pub fn len(&self) -> (r: usize)
        ensures
            r == self.len,
    {
        self.len as usize
    }
}

/// A nullable owning pointer to a heap object: a header followed by its body.
#[allow(non_camel_case_types)]
#[derive(Debug)]
pub struct ref32<Body> {
    inner: Option<Box<(ReferenceHeader, Vec<Body>)>>,
}

impl<Body> View for ref32<Body> {
    type V = Option<(ReferenceHeader, Seq<Body>)>;

    closed spec fn view(&self) -> Option<(ReferenceHeader, Seq<Body>)> {
        match self.inner {
            Some(b) => Some((b.0, b.1@)),
            None => None,
        }
    }
}

impl<Body> ref32<Body> {
    /// A pointer to a new heap object holding `header` and a copy of `body`.
    pub fn new(header: ReferenceHeader, body: &[Body]) -> (r: Self) where Body: Clone
        ensures
            r@ is Some,
            r@.unwrap().0 == header,
            r@.unwrap().1.len() == body@.len(),
            forall|i: int| 0 <= i < body@.len() ==> cloned::<Body>(body@[i], #[trigger] r@.unwrap().1[i]),
    {
        let mut v: Vec<Body> = Vec::new();
        let n = body.len();
        for i in 0..n
            invariant
                n == body@.len(),
                v@.len() == i,
                forall|j: int| 0 <= j < i ==> cloned::<Body>(body@[j], #[trigger] v@[j]),
        {
            v.push(body[i].clone());
        }
        ref32 { inner: Some(Box::new((header, v))) }
    }

    /// The null pointer.
    pub fn null() -> (r: Self)
        ensures
            r@ is None,
    {
        ref32 { inner: None }
    }

    pub fn is_null(&self) -> (r: bool)
        ensures
            r == (self@ is None),
    {
        self.inner.is_none()
    }

    /// The header and body of the object; the pointer must not be null.
    pub fn deref(&self) -> (r: (&ReferenceHeader, &[Body]))
        requires
            self@ is Some,
        ensures
            *r.0 == self@.unwrap().0,
            r.1@ == self@.unwrap().1,
    {
        let b = self.inner.as_ref().unwrap();
        (&b.0, b.1.as_slice())
    }
}

/// A slot referring to a heap object whose body is a run of slots.
#[derive(Debug)]
pub struct ReferenceSlot {
    pub value: u32,
    pub pointer: ref32<Slot>,
}

impl ReferenceSlot {
    /// The header and slots of the object referred to; the reference must not be null.
    pub fn deref(&self) -> (r: (&ReferenceHeader, &[Slot]))
        requires
            self.pointer@ is Some,
        ensures
            *r.0 == self.pointer@.unwrap().0,
            r.1@ == self.pointer@.unwrap().1,
    {
        self.pointer.deref()
    }
}

} // verus!
