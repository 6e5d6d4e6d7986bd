use vstd::prelude::*;

verus! {

/// Appends `other` to `s`: std's `String::push_str`, whose documentation says that it
/// appends the given string slice onto the end of the string.
#[verifier::external_body]
pub(crate) fn push_str(s: &mut String, other: &str)
    ensures
        final(s)@ == old(s)@ + other@,
{
    s.push_str(other)
}

/// Appends `c` to `s`: std's `String::push`, whose documentation says that it appends the
/// given char to the end of the string.
#[verifier::external_body]
pub(crate) fn push_char(s: &mut String, c: char)
    ensures
        final(s)@ == old(s)@.push(c),
{
    s.push(c)
}

} // verus!
