use kala::arena::{align_size, Arena, BumpBlock};

#[test]
fn align_to_words() {
    let w = std::mem::size_of::<usize>();
    assert_eq!(align_size(1), 1);
    assert_eq!(align_size(w), 1);
    assert_eq!(align_size(w + 1), 2);
    assert_eq!(align_size(3 * w), 3);
}

#[test]
fn bump_block_alloc() {
    let w = std::mem::size_of::<usize>();
    let mut b = BumpBlock::new(100, 2);
    assert_eq!(b.ptr, 100);
    assert_eq!(b.cursor, 100 + 2 * w);
    assert_eq!(b.inner_alloc(2 * w + 1), None);
    assert_eq!(b.cursor, 100 + 2 * w);
    assert_eq!(b.inner_alloc(w), Some(100 + w));
    assert_eq!(b.inner_alloc(w), Some(100));
    assert_eq!(b.inner_alloc(1), None);
    assert_eq!(b.inner_alloc(0), Some(100));
}

#[test]
fn arena_allocate() {
    let w = std::mem::size_of::<usize>();
    let mut a = Arena::new(0x1000, 4);
    let top = 0x1000 + 4 * w;
    // a request of one byte takes one whole word, counted down from the cursor
    assert_eq!(a.allocate(1, 0x2000), top - w);
    assert_eq!(a.allocate(2 * w, 0x2000), top - 3 * w);
    // a request the block cannot hold starts a fresh block at the given base
    let fresh_top = 0x2000 + 4 * w;
    assert_eq!(a.allocate(2 * w, 0x2000), fresh_top - 2 * w);
    assert_eq!(a.allocate(2 * w - 1, 0x2000), fresh_top - 4 * w);
}
