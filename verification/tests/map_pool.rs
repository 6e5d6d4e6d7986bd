use std::rc::Rc;

use kala::map_pool::MapPool;

#[test]
fn map_pool_hands_out_empty_maps() {
    let mut pool: MapPool<i32> = MapPool::new();
    let map = pool.get();
    assert!(map.is_empty());
}

#[test]
fn map_pool_drain_returns_every_entry() {
    let mut pool: MapPool<i32> = MapPool::new();
    let mut map = pool.get();
    map.insert(Rc::from("b"), 2);
    map.insert(Rc::from("a"), 1);
    map.insert(Rc::from("c"), 3);
    let mut entries = pool.drain(map);
    entries.sort();
    let expected: Vec<(Rc<str>, i32)> =
        vec![(Rc::from("a"), 1), (Rc::from("b"), 2), (Rc::from("c"), 3)];
    assert_eq!(entries, expected);
}

#[test]
fn map_pool_reuses_drained_maps_empty() {
    let mut pool: MapPool<i32> = MapPool::new();
    let mut map = pool.get();
    for i in 0..100 {
        map.insert(Rc::from(format!("key{}", i).as_str()), i);
    }
    let entries = pool.drain(map);
    assert_eq!(entries.len(), 100);
    let again = pool.get();
    assert!(again.is_empty());
    assert!(again.capacity() >= 100);
}

#[test]
fn map_pool_drain_of_empty_map() {
    let mut pool: MapPool<String> = MapPool::new();
    let map = pool.get();
    let entries = pool.drain(map);
    assert!(entries.is_empty());
    assert!(pool.get().is_empty());
}
