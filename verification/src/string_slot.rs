use vstd::prelude::*;
use crate::types::SharedString;

verus! {

/// The UTF-8 encoding of one character.
pub open spec fn utf8_char(c: char) -> Seq<u8> {
    let cp = c as u32 as int;
    if cp < 0x80 {
        seq![cp as u8]
    } else if cp < 0x800 {
        seq![(0xC0 + cp / 64) as u8, (0x80 + cp % 64) as u8]
    } else if cp < 0x10000 {
        seq![
            (0xE0 + cp / 4096) as u8,
            (0x80 + (cp / 64) % 64) as u8,
            (0x80 + cp % 64) as u8,
        ]
    } else {
        seq![
            (0xF0 + cp / 262144) as u8,
            (0x80 + (cp / 4096) % 64) as u8,
            (0x80 + (cp / 64) % 64) as u8,
            (0x80 + cp % 64) as u8,
        ]
    }
}

/// The UTF-8 encoding of a run of characters.
pub open spec fn utf8(s: Seq<char>) -> Seq<u8>
    decreases s.len(),
{
    if s.len() == 0 {
        Seq::empty()
    } else {
        utf8(s.drop_last()) + utf8_char(s.last())
    }
}

/// A string slot: the text as UTF-8 bytes.
#[derive(Debug, Clone)]
pub struct StringSlot(pub Vec<u8>);

impl View for StringSlot {
    type V = Seq<u8>;

    open spec fn view(&self) -> Seq<u8> {
        self.0@
    }
}

/// Appends the UTF-8 encoding of `c` to `out`.
fn push_utf8(out: &mut Vec<u8>, c: char)
    ensures
        final(out)@ == old(out)@ + utf8_char(c),
{
    let cp = c as u32;
    proof {
        assert(cp <= 0x10FFFF);
    }
    if cp < 0x80 {
        out.push(cp as u8);
    } else if cp < 0x800 {
        out.push((0xC0 + cp / 64) as u8);
        out.push((0x80 + cp % 64) as u8);
    } else if cp < 0x10000 {
        out.push((0xE0 + cp / 4096) as u8);
        out.push((0x80 + (cp / 64) % 64) as u8);
        out.push((0x80 + cp % 64) as u8);
    } else {
        out.push((0xF0 + cp / 262144) as u8);
        out.push((0x80 + (cp / 4096) % 64) as u8);
        out.push((0x80 + (cp / 64) % 64) as u8);
        out.push((0x80 + cp % 64) as u8);
    }
    proof {
        assert(final(out)@ =~= old(out)@ + utf8_char(c));
    }
}

impl StringSlot {
    /// The slot holding the UTF-8 encoding of `s`.
    pub fn new(s: SharedString) -> (r: Self)
        ensures
            r@ == utf8(s@),
    {
        let mut out: Vec<u8> = Vec::new();
        let n = s.0.len();
        for i in 0..n
            invariant
                n == s@.len(),
                out@ == utf8(s@.subrange(0, i as int)),
        {
            let c = s.0[i];
            push_utf8(&mut out, c);
            proof {
                let t = s@.subrange(0, i + 1);
                assert(t.drop_last() =~= s@.subrange(0, i as int));
                assert(t.last() == c);
            }
        }
        proof {
            assert(s@.subrange(0, n as int) =~= s@);
        }
        StringSlot(out)
    }

    /// The UTF-8 bytes of the text.
    pub fn deref(&self) -> (r: &[u8])
        ensures
            r@ == self@,
    {
        self.0.as_slice()
    }

    /// Whether the two slots hold the same text.
    pub fn eq(&self, other: &StringSlot) -> (r: bool)
        ensures
            r == (self@ == other@),
    {
        let n = self.0.len();
        if n != other.0.len() {
            return false;
        }
        for i in 0..n
            invariant
                n == self@.len(),
                n == other@.len(),
                forall|j: int| 0 <= j < i ==> self@[j] == other@[j],
        {
            if self.0[i] != other.0[i] {
                return false;
            }
        }
        proof {
            assert(self@ =~= other@);
        }
        true
    }
}

} // verus!
