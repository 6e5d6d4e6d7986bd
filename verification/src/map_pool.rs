use std::hash::BuildHasherDefault;
use std::rc::Rc;
use fxhash::{FxHashMap, FxHasher};
use vstd::prelude::*;

verus! {

/// The hasher that the pooled maps are built with.
#[verifier::external_type_specification]
#[verifier::external_body]
pub struct ExFxHasher(FxHasher);

/// The builder of that hasher.
#[verifier::external_type_specification]
#[verifier::external_body]
#[verifier::reject_recursive_types(H)]
pub struct ExBuildHasherDefault<H>(BuildHasherDefault<H>);

/// The keys of the pooled maps: shared strings.
pub type Key = Rc<str>;

/// Whether a list of key-value pairs holds exactly the entries of a map, each once.
pub open spec fn lists_entries<V>(pairs: Seq<(Key, V)>, m: Map<Key, V>) -> bool {
    &&& forall|i: int|
        0 <= i < pairs.len() ==> m.contains_key(#[trigger] pairs[i].0) && m[pairs[i].0]
            == pairs[i].1
    &&& forall|k: Key|
        m.contains_key(k) ==> exists|i: int| 0 <= i < pairs.len() && #[trigger] pairs[i].0 == k
    &&& forall|i: int, j: int| 0 <= i < j < pairs.len() ==> pairs[i].0 != pairs[j].0
}

/// No entries.
pub open spec fn no_entries<V>() -> Map<Key, V> {
    Map::empty()
}

/// `HashMap::drain`, run to its end: the map is cleared and every entry it held comes out
/// once, in an order that the hash table decides.
#[verifier::external_body]
fn drain_entries<V>(m: &mut FxHashMap<Key, V>) -> (r: Vec<(Key, V)>)
    ensures
        final(m)@ == no_entries::<V>(),
        lists_entries(r@, old(m)@),
{
    m.drain().collect()
}

/// A pool of cleared hash maps, kept so that their storage is used again.
pub struct MapPool<V>(Vec<FxHashMap<Key, V>>);

impl<V> View for MapPool<V> {
    type V = Seq<Map<Key, V>>;

    /// The contents of the pooled maps; the last one is handed out first.
    closed spec fn view(&self) -> Seq<Map<Key, V>> {
        self.0@.map_values(|m: FxHashMap<Key, V>| m@)
    }
}

impl<V> MapPool<V> {
    /// Every pooled map is empty.
    pub open spec fn wf(&self) -> bool {
        forall|i: int| 0 <= i < self@.len() ==> #[trigger] self@[i] == no_entries::<V>()
    }

    pub fn new() -> (r: Self)
        ensures
            r@ == Seq::<Map<Key, V>>::empty(),
            r.wf(),
    {
        MapPool(Vec::new())
    }

    /// Hands out a map: the one returned last, or a fresh one when the pool is empty. It
    /// is empty either way.
    pub fn get(&mut self) -> (r: FxHashMap<Key, V>)
        requires
            old(self).wf(),
        ensures
            r@ == no_entries::<V>(),
            final(self).wf(),
            old(self)@.len() == 0 ==> final(self)@ == old(self)@,
            old(self)@.len() > 0 ==> final(self)@ == old(self)@.drop_last(),
    {
        if self.0.len() == 0 {
            FxHashMap::default()
        } else {
            let ghost before = self@;
            let m = self.0.pop().unwrap();
            proof {
                assert(self@ =~= before.drop_last());
                assert(m@ == before[before.len() - 1]);
            }
            m
        }
    }

    /// Empties a map into a list of its entries, and keeps the emptied map for the next
    /// `get`.
    pub fn drain(&mut self, map: FxHashMap<Key, V>) -> (r: Vec<(Key, V)>)
        requires
            old(self).wf(),
        ensures
            lists_entries(r@, map@),
            final(self).wf(),
            final(self)@ == old(self)@.push(no_entries::<V>()),
    {
        let mut map = map;
        let res = drain_entries(&mut map);
        let ghost before = self@;
        self.0.push(map);
        proof {
            assert(self@ =~= before.push(no_entries::<V>()));
        }
        res
    }
}

} // verus!
