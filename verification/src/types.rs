use vstd::prelude::*;

verus! {

/// An owned, fixed-length sequence of items.
#[derive(Debug, PartialEq, Clone)]
pub struct OwnedSlice<T>(pub Vec<T>);

impl<T> View for OwnedSlice<T> {
    type V = Seq<T>;

    open spec fn view(&self) -> Seq<T> {
        self.0@
    }
}

impl<T> OwnedSlice<T> {
    pub fn empty() -> (r: Self)
        ensures
            r@ == Seq::<T>::empty(),
    {
        OwnedSlice(Vec::new())
    }

    pub fn from_vec(vec: Vec<T>) -> (r: Self)
        ensures
            r@ == vec@,
    {
        OwnedSlice(vec)
    }

    pub fn from_slice(slice: &[T]) -> (r: Self) where T: Clone
        ensures
            r@.len() == slice@.len(),
            forall|i: int| 0 <= i < slice@.len() ==> cloned::<T>(slice@[i], #[trigger] r@[i]),
    {
        let mut v: Vec<T> = Vec::new();
        let n = slice.len();
        for i in 0..n
            invariant
                n == slice@.len(),
                v@.len() == i,
                forall|j: int| 0 <= j < i ==> cloned::<T>(slice@[j], #[trigger] v@[j]),
        {
            v.push(slice[i].clone());
        }
        OwnedSlice(v)
    }

    /// The items, in order.
    pub fn deref(&self) -> (r: &[T])
        ensures
            r@ == self@,
    {
        self.0.as_slice()
    }

    /// Consumes the slice into an iterator over its items, first to last.
    pub fn into_iter(self) -> (r: OwnedSliceIter<T>)
        ensures
            r@ == self@,
    {
        let mut items = self.0;
        let ghost orig = items@;
        let mut rest: Vec<T> = Vec::new();
        while items.len() > 0
            invariant
                orig == items@ + rest@.reverse(),
            decreases items.len(),
        {
            let ghost before = items@;
            let x = items.pop().unwrap();
            proof {
                assert(before == items@.push(x));
            }
            rest.push(x);
            assert(rest@.reverse() =~= seq![x] + (rest@.drop_last()).reverse()) by {
                assert forall|j: int| 0 <= j < rest@.len() implies rest@.reverse()[j] == (seq![x]
                    + rest@.drop_last().reverse())[j] by {}
            }
            assert(orig =~= items@ + rest@.reverse());
        }
        assert(orig =~= rest@.reverse());
        OwnedSliceIter { rest }
    }
}

/// Iterator over the items of an `OwnedSlice`.
/// The pending items are kept in reverse order so that the next one is at the end.
pub struct OwnedSliceIter<T> {
    rest: Vec<T>,
}

impl<T> View for OwnedSliceIter<T> {
    type V = Seq<T>;

    /// The items still to come, next one first.
    closed spec fn view(&self) -> Seq<T> {
        self.rest@.reverse()
    }
}

impl<T> OwnedSliceIter<T> {
    pub fn next(&mut self) -> (r: Option<T>)
        ensures
            old(self)@.len() == 0 ==> r is None && final(self)@ == old(self)@,
            old(self)@.len() > 0 ==> r == Some(old(self)@[0]) && final(self)@ == old(self)@.drop_first(),
    {
        let ghost before = self.rest@;
        let r = self.rest.pop();
        proof {
            if before.len() > 0 {
                assert(before == self.rest@.push(r->0));
                assert(before.reverse()[0] == r->0);
                assert(self.rest@.reverse() =~= before.reverse().drop_first());
            }
        }
        r
    }
}

/// A shared, immutable sequence of items.
#[derive(Debug, PartialEq, Clone)]
pub struct SharedSlice<T>(pub Vec<T>);

impl<T> View for SharedSlice<T> {
    type V = Seq<T>;

    open spec fn view(&self) -> Seq<T> {
        self.0@
    }
}

impl<T> SharedSlice<T> {
    pub fn from_vec(vec: Vec<T>) -> (r: Self)
        ensures
            r@ == vec@,
    {
        SharedSlice(vec)
    }

    pub fn deref(&self) -> (r: &[T])
        ensures
            r@ == self@,
    {
        self.0.as_slice()
    }
}

/// A shared immutable string, held as its sequence of characters.
#[derive(Debug, PartialEq, Clone, Eq, PartialOrd, Ord, Hash)]
pub struct SharedString(pub Vec<char>);

impl View for SharedString {
    type V = Seq<char>;

    open spec fn view(&self) -> Seq<char> {
        self.0@
    }
}

/// The characters of a string slice, in order.
pub fn chars_of(s: &str) -> (r: Vec<char>)
    ensures
        r@ == s@,
{
    let n = s.unicode_len();
    let mut v: Vec<char> = Vec::new();
    for i in 0..n
        invariant
            n == s@.len(),
            v@ == s@.take(i as int),
    {
        let c = s.get_char(i);
        v.push(c);
        assert(v@ =~= s@.take(i + 1));
    }
    assert(v@ =~= s@);
    v
}

impl SharedString {
    pub fn empty() -> (r: Self)
        ensures
            r@ == Seq::<char>::empty(),
    {
        SharedString(Vec::new())
    }

    pub fn from_string(string: String) -> (r: Self)
        ensures
            r@ == string@,
    {
        SharedString(chars_of(string.as_str()))
    }

    pub fn from_str(string: &str) -> (r: Self)
        ensures
            r@ == string@,
    {
        SharedString(chars_of(string))
    }

    /// The characters of the string.
    pub fn deref(&self) -> (r: &[char])
        ensures
            r@ == self@,
    {
        self.0.as_slice()
    }

    /// Number of characters.
    pub fn len(&self) -> (r: usize)
        ensures
            r == self@.len(),
    {
        self.0.len()
    }

    /// A copy holding the same characters.
    pub fn copy(&self) -> (r: Self)
        ensures
            r@ == self@,
    {
        let mut v: Vec<char> = Vec::new();
        let n = self.0.len();
        for i in 0..n
            invariant
                n == self@.len(),
                v@ == self@.take(i as int),
        {
            v.push(self.0[i]);
            assert(v@ =~= self@.take(i + 1));
        }
        assert(v@ =~= self@);
        SharedString(v)
    }
}

/// An owned immutable string.
#[derive(Debug, PartialEq, Clone, Eq, PartialOrd, Ord, Hash)]
pub struct OwnedString(pub String);

impl View for OwnedString {
    type V = Seq<char>;

    open spec fn view(&self) -> Seq<char> {
        self.0@
    }
}

impl OwnedString {
    pub fn empty() -> (r: Self)
        ensures
            r@ == Seq::<char>::empty(),
    {
        OwnedString(String::new())
    }

    pub fn from_string(string: String) -> (r: Self)
        ensures
            r@ == string@,
    {
        OwnedString(string)
    }

    pub fn from_str(string: &str) -> (r: Self)
        ensures
            r@ == string@,
    {
        OwnedString(String::from_str(string))
    }

    pub fn deref(&self) -> (r: &str)
        ensures
            r@ == self@,
    {
        self.0.as_str()
    }
}

} // verus!
