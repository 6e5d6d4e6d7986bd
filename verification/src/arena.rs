use vstd::prelude::*;

verus! {

pub const BLOCK_SIZE_BITS_1K: usize = 10usize;
/// Words in a 1 KiB block of 8-byte words.
pub const BLOCK_SIZE_1K: usize = 128usize;
pub const BLOCK_SIZE_BITS_32K: usize = 15usize;
/// Words in a 32 KiB block of 8-byte words.
pub const BLOCK_SIZE_32K: usize = 4096usize;

/// The bytes in a machine word.
pub open spec fn word_bytes() -> int {
    (usize::BITS / 8) as int
}

proof fn lemma_shift_div(x: usize)
    by (bit_vector)
    ensures
        x >> 2usize == x / 4,
        x >> 3usize == x / 8,
{
}

/// The number of machine words that hold `byte_size` bytes; `byte_size` must not be zero.
pub fn align_size(byte_size: usize) -> (r: usize)
    requires
        byte_size >= 1,
    ensures
        r == (byte_size + word_bytes() - 1) / word_bytes(),
{
    proof {
        lemma_shift_div((byte_size - 1) as usize);
        let x = byte_size as int;
        assert((x - 1) / 4 + 1 == (x + 3) / 4) by (nonlinear_arith)
            requires
                x >= 1,
        ;
        assert((x - 1) / 8 + 1 == (x + 7) / 8) by (nonlinear_arith)
            requires
                x >= 1,
        ;
        assert(usize::BITS == 32 || usize::BITS == 64);
    }
    if usize::BITS == 32 {
        ((byte_size - 1) >> 2usize) + 1
    } else {
        ((byte_size - 1) >> 3usize) + 1
    }
}

/// A block of memory handed out downward: `cursor` is the lowest address given out so far,
/// and `ptr` the start of the block.
#[derive(Debug, Clone, Copy, PartialEq, Eq, Structural)]
pub struct BumpBlock {
    pub cursor: usize,
    pub ptr: usize,
}

impl BumpBlock {
    /// A fresh block of `words` machine words whose memory starts at `base`; nothing is
    /// given out yet.
    pub fn new(base: usize, words: usize) -> (r: Self)
        requires
            base + words * word_bytes() <= usize::MAX,
        ensures
            r == fresh_block(base, words),
    {
        let w: usize = (usize::BITS / 8) as usize;
        assert(words * w <= usize::MAX - base) by (nonlinear_arith)
            requires
                base + words * w <= usize::MAX,
        ;
        BumpBlock { cursor: base + words * w, ptr: base }
    }

    /// Gives out `alloc_size` bytes below the cursor, or `None` when they would reach below
    /// the start of the block.
    pub fn inner_alloc(&mut self, alloc_size: usize) -> (r: Option<usize>)
        ensures
            old(self).cursor >= alloc_size && old(self).cursor - alloc_size >= old(self).ptr
                ==> r == Some((old(self).cursor - alloc_size) as usize) && final(self).cursor
                == old(self).cursor - alloc_size && final(self).ptr == old(self).ptr,
            !(old(self).cursor >= alloc_size && old(self).cursor - alloc_size >= old(self).ptr)
                ==> r is None && *final(self) == *old(self),
    {
        let next = match self.cursor.checked_sub(alloc_size) {
            Some(n) => n,
            None => {
                return None;
            },
        };
        if next < self.ptr {
            None
        } else {
            self.cursor = next;
            Some(next)
        }
    }
}

/// A bump allocator over a growing list of blocks of `block_words` machine words each; the
/// last block is the one in use.
#[derive(Debug)]
pub struct Arena {
    block_words: usize,
    blocks: Vec<BumpBlock>,
}

impl View for Arena {
    type V = Seq<BumpBlock>;

    closed spec fn view(&self) -> Seq<BumpBlock> {
        self.blocks@
    }
}

/// A block of `words` machine words as it is when fresh at `base`.
pub open spec fn fresh_block(base: usize, words: usize) -> BumpBlock {
    BumpBlock { cursor: (base + words * word_bytes()) as usize, ptr: base }
}

/// Whether a block's cursor lies within its `words` machine words.
pub open spec fn block_wf(b: BumpBlock, words: usize) -> bool {
    b.ptr <= b.cursor <= b.ptr + words * word_bytes()
}

/// The bytes of the room for `byte_size` bytes: whole machine words.
pub open spec fn room_bytes(byte_size: usize) -> int {
    ((byte_size + word_bytes() - 1) / word_bytes()) * word_bytes()
}

/// What `allocate` gives: the address of the room for `byte_size` bytes, taken in whole
/// words below the cursor of the last block when it has room, else below the top of a
/// fresh block at `fresh_base`; and the blocks afterwards.
pub open spec fn alloc_outcome(blocks: Seq<BumpBlock>, words: usize, byte_size: usize, fresh_base: usize) -> (
    usize,
    Seq<BumpBlock>,
) {
    let n = room_bytes(byte_size);
    let front = blocks.last();
    if front.cursor >= n && front.cursor - n >= front.ptr {
        let r = (front.cursor - n) as usize;
        (r, blocks.update(blocks.len() - 1, BumpBlock { cursor: r, ptr: front.ptr }))
    } else {
        let r = (fresh_block(fresh_base, words).cursor - n) as usize;
        (r, blocks.push(BumpBlock { cursor: r, ptr: fresh_base }))
    }
}

impl Arena {
    /// The number of machine words in each block.
    pub closed spec fn words(&self) -> usize {
        self.block_words
    }

    /// An arena of blocks of `words` machine words, with one fresh block at `base`.
    pub fn new(base: usize, words: usize) -> (r: Self)
        requires
            base + words * word_bytes() <= usize::MAX,
        ensures
            r@ == seq![fresh_block(base, words)],
            r.words() == words,
    {
        let mut blocks: Vec<BumpBlock> = Vec::new();
        blocks.push(BumpBlock::new(base, words));
        Arena { block_words: words, blocks }
    }

    /// Gives out room for `byte_size` bytes, in whole words, from the block in use; when
    /// that block is full, a fresh block whose memory starts at `fresh_base` takes its
    /// place and gives the room. Returns the address of the room.
    pub fn allocate(&mut self, byte_size: usize, fresh_base: usize) -> (r: usize)
        requires
            old(self)@.len() > 0,
            byte_size >= 1,
            fresh_base + old(self).words() * word_bytes() <= usize::MAX,
            (byte_size + word_bytes() - 1) / word_bytes() <= old(self).words(),
        ensures
            final(self).words() == old(self).words(),
            (r, final(self)@) == alloc_outcome(old(self)@, old(self).words(), byte_size, fresh_base),
    {
        let w: usize = (usize::BITS / 8) as usize;
        let words = align_size(byte_size);
        assert(words * w <= self.block_words * w) by (nonlinear_arith)
            requires
                words <= self.block_words,
                w >= 4,
        ;
        assert(self.block_words * w <= usize::MAX) by (nonlinear_arith)
            requires
                fresh_base + self.block_words * w <= usize::MAX,
        ;
        let n = words * w;
        let last = self.blocks.len() - 1;
        let mut front = self.blocks[last];
        match front.inner_alloc(n) {
            Some(p) => {
                self.blocks.set(last, front);
                p
            },
            None => {
                let mut block: BumpBlock = BumpBlock::new(fresh_base, self.block_words);
                let p = block.inner_alloc(n);
                let addr = p.unwrap();
                self.blocks.push(block);
                addr
            },
        }
    }
}

/// Allocations from one block never overlap: each room given out ends where the cursor
/// stood, and the next room lies wholly below it.
pub proof fn law_bump_rooms_disjoint(block: BumpBlock, n1: usize, n2: usize)
    requires
        block.cursor >= n1,
        block.cursor - n1 >= block.ptr,
        block.cursor - n1 >= n2,
        block.cursor - n1 - n2 >= block.ptr,
    ensures
        ({
            let a1 = block.cursor - n1;
            let a2 = a1 - n2;
            &&& block.ptr <= a2
            &&& a2 + n2 <= a1
            &&& a1 + n1 == block.cursor
        }),
{
}

/// Allocation keeps every block well formed, and the room it gives (its bytes rounded up
/// to whole words) lies inside the block that gives it, ending where that block's cursor
/// stood.
pub proof fn law_allocate_keeps_blocks(
    blocks: Seq<BumpBlock>,
    words: usize,
    byte_size: usize,
    fresh_base: usize,
)
    requires
        blocks.len() > 0,
        byte_size >= 1,
        fresh_base + words * word_bytes() <= usize::MAX,
        (byte_size + word_bytes() - 1) / word_bytes() <= words,
        forall|i: int| 0 <= i < blocks.len() ==> block_wf(#[trigger] blocks[i], words),
    ensures
        ({
            let (r, after) = alloc_outcome(blocks, words, byte_size, fresh_base);
            let n = room_bytes(byte_size);
            &&& forall|i: int| 0 <= i < after.len() ==> block_wf(#[trigger] after[i], words)
            &&& after.last().cursor == r
            &&& after.last().ptr <= r
            &&& after.len() == blocks.len() ==> r + n == blocks.last().cursor
            &&& after.len() == blocks.len() + 1 ==> r + n == fresh_base + words * word_bytes()
        }),
{
    let k = (byte_size + word_bytes() - 1) / word_bytes();
    let n = room_bytes(byte_size);
    assert(word_bytes() == 4 || word_bytes() == 8);
    assert(0 <= k) by (nonlinear_arith)
        requires
            byte_size >= 1,
            word_bytes() >= 4,
            k == (byte_size + word_bytes() - 1) / word_bytes(),
    ;
    assert(0 <= n <= words * word_bytes()) by (nonlinear_arith)
        requires
            0 <= k <= words,
            word_bytes() >= 4,
            n == k * word_bytes(),
    ;
    assert(blocks[blocks.len() - 1] == blocks.last());
}

} // verus!
