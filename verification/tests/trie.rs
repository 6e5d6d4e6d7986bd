use kala::trie::{Trie, TrieNode};
use kala::types::SharedString;

#[test]
fn test_trie() {
    let mut trie = Trie {
        root: TrieNode {
            extension: vec![],
            value: None,
            branch: vec![],
        },
    };

    trie.insert(&SharedString::from_str(&"hello"), 1);
    trie.insert(&SharedString::from_str(&"hell"), 2);
    trie.insert(&SharedString::from_str(&"he"), 3);
    trie.insert(&SharedString::from_str(&"h"), 4);
    trie.insert(&SharedString::from_str(&"world"), 5);
    trie.insert(&SharedString::from_str(&"wor"), 6);
    trie.insert(&SharedString::from_str(&"wo"), 7);
    trie.insert(&SharedString::from_str(&"w"), 8);

    assert_eq!(trie.get(&SharedString::from_str(&"hello")), Some(1));
    assert_eq!(trie.get(&SharedString::from_str(&"hell")), Some(2));
    assert_eq!(trie.get(&SharedString::from_str(&"he")), Some(3));
    assert_eq!(trie.get(&SharedString::from_str(&"h")), Some(4));
    assert_eq!(trie.get(&SharedString::from_str(&"world")), Some(5));
    assert_eq!(trie.get(&SharedString::from_str(&"wor")), Some(6));
    assert_eq!(trie.get(&SharedString::from_str(&"wo")), Some(7));
    assert_eq!(trie.get(&SharedString::from_str(&"w")), Some(8));

    assert_eq!(trie.get(&SharedString::from_str(&"helloo")), None);
}

#[test]
fn complex_test_trie() {
}

fn key(s: &str) -> SharedString {
    SharedString::from_str(s)
}

#[test]
fn trie_insert_returns_previous_value() {
    let mut trie: Trie<i32> = Trie::empty();
    assert_eq!(trie.insert(&key("abc"), 1), None);
    assert_eq!(trie.insert(&key("abc"), 2), Some(1));
    assert_eq!(trie.get(&key("abc")), Some(2));
}

#[test]
fn trie_diverging_keys() {
    // keys that split an extension in the middle, in both branch orders
    let mut trie: Trie<i32> = Trie::empty();
    trie.insert(&key("ab"), 1);
    trie.insert(&key("ac"), 2);
    trie.insert(&key("aa"), 3);
    trie.insert(&key("abcd"), 4);
    trie.insert(&key("abxy"), 5);
    trie.insert(&key(""), 6);
    assert_eq!(trie.get(&key("ab")), Some(1));
    assert_eq!(trie.get(&key("ac")), Some(2));
    assert_eq!(trie.get(&key("aa")), Some(3));
    assert_eq!(trie.get(&key("abcd")), Some(4));
    assert_eq!(trie.get(&key("abxy")), Some(5));
    assert_eq!(trie.get(&key("")), Some(6));
    assert_eq!(trie.get(&key("a")), None);
    assert_eq!(trie.get(&key("abc")), None);
    assert!(trie.has(&key("abxy")));
    assert!(!trie.has(&key("abx")));
}

#[test]
fn trie_iterate_lists_every_key_in_order() {
    let mut trie: Trie<i32> = Trie::empty();
    trie.insert(&key("b"), 2);
    trie.insert(&key("a"), 1);
    trie.insert(&key("ab"), 3);
    let all = trie.iterate();
    let listed: Vec<(String, i32)> = all
        .deref()
        .iter()
        .map(|(k, v)| (k.0.iter().collect::<String>(), *v))
        .collect();
    assert_eq!(
        listed,
        vec![("a".to_string(), 1), ("ab".to_string(), 3), ("b".to_string(), 2)]
    );
}

#[test]
fn trie_get_mut_updates_value() {
    let mut trie: Trie<i32> = Trie::empty();
    trie.insert(&key("x"), 10);
    if let Some(v) = trie.get_mut(&key("x")) {
        *v = 11;
    }
    assert_eq!(trie.get(&key("x")), Some(11));
    assert!(trie.get_mut(&key("y")).is_none());
}

#[test]
fn trie_unicode_keys() {
    let mut trie: Trie<i32> = Trie::empty();
    trie.insert(&key("héllo"), 1);
    trie.insert(&key("hé"), 2);
    assert_eq!(trie.get(&key("héllo")), Some(1));
    assert_eq!(trie.get(&key("hé")), Some(2));
    assert_eq!(trie.get(&key("h")), None);
}
