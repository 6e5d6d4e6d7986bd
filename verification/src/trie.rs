// A compressed prefix tree (radix trie) mapping character strings to values.
use vstd::prelude::*;

use crate::types::{SharedString, OwnedSlice};

verus! {

/// A map from strings to values, stored as a radix trie.
#[derive(Debug, PartialEq)]
pub struct Trie<V> {
    pub root: TrieNode<V>,
}

/// A node of the trie: the characters shared by every key below it (`extension`),
/// the value of the key that ends right after them, and the sub-tries that
/// continue with one more character, ordered by that character.
#[derive(Debug, PartialEq)]
pub struct TrieNode<V> {
    pub extension: Vec<char>,
    pub value: Option<V>,
    pub branch: Vec<(char, Box<TrieNode<V>>)>,
}

/// The code point of a character, by which branches are ordered.
pub open spec fn code(c: char) -> int {
    c as u32 as int
}

proof fn lemma_code_injective(a: char, b: char)
    ensures
        code(a) == code(b) <==> a == b,
{
}

/// The branch characters are strictly increasing.
pub open spec fn sorted_branch<V>(branch: Seq<(char, Box<TrieNode<V>>)>) -> bool {
    forall|i: int, j: int| 0 <= i < j < branch.len() ==> code(#[trigger] branch[i].0) < code(
        #[trigger] branch[j].0,
    )
}

/// The value that the node made of `ext`, `value` and `branch` holds for `key`.
pub open spec fn lookup_parts<V>(
    ext: Seq<char>,
    value: Option<V>,
    branch: Seq<(char, Box<TrieNode<V>>)>,
    key: Seq<char>,
) -> Option<V>
    decreases branch,
{
    if key.len() < ext.len() || key.take(ext.len() as int) != ext {
        None
    } else if key.len() == ext.len() {
        value
    } else if exists|i: int| 0 <= i < branch.len() && #[trigger] branch[i].0 == key[ext.len() as int] {
        let i = choose|i: int| 0 <= i < branch.len() && #[trigger] branch[i].0 == key[ext.len() as int];
        let child = *branch[i].1;
        proof {
            assert(decreases_to!(branch => branch[i]));
            assert(decreases_to!(branch[i] => branch[i].1));
        }
        lookup_parts(
            child.extension@,
            child.value,
            child.branch@,
            key.skip(ext.len() as int + 1),
        )
    } else {
        None
    }
}

/// The value that the sub-trie rooted at `n` holds for `key`.
pub open spec fn lookup<V>(n: TrieNode<V>, key: Seq<char>) -> Option<V> {
    lookup_parts(n.extension@, n.value, n.branch@, key)
}

/// Well-formedness: at every node the branches are ordered by character.
pub open spec fn wf_node<V>(n: TrieNode<V>) -> bool
    decreases n,
{
    &&& sorted_branch(n.branch@)
    &&& forall|i: int|
        0 <= i < n.branch@.len() ==> {
            proof {
                assert(decreases_to!(n => n.branch));
                assert(decreases_to!(n.branch => n.branch@));
                assert(decreases_to!(n.branch@ => n.branch@[i]));
            }
            wf_node(*(#[trigger] n.branch@[i]).1)
        }
}


/// A key that does not start with the extension finds nothing.
proof fn lemma_lookup_mismatch<V>(
    ext: Seq<char>,
    value: Option<V>,
    branch: Seq<(char, Box<TrieNode<V>>)>,
    key: Seq<char>,
)
    requires
        !(key.len() >= ext.len() && key.take(ext.len() as int) == ext),
    ensures
        lookup_parts(ext, value, branch, key) is None,
{
}

/// The key equal to the extension finds the node's own value.
proof fn lemma_lookup_here<V>(
    ext: Seq<char>,
    value: Option<V>,
    branch: Seq<(char, Box<TrieNode<V>>)>,
    key: Seq<char>,
)
    requires
        key == ext,
    ensures
        lookup_parts(ext, value, branch, key) == value,
{
    assert(key.take(ext.len() as int) =~= ext);
}

/// A longer key continues in the branch whose character follows the extension.
proof fn lemma_lookup_branch<V>(
    ext: Seq<char>,
    value: Option<V>,
    branch: Seq<(char, Box<TrieNode<V>>)>,
    key: Seq<char>,
    i: int,
)
    requires
        sorted_branch(branch),
        key.len() > ext.len(),
        key.take(ext.len() as int) == ext,
        0 <= i < branch.len(),
        branch[i].0 == key[ext.len() as int],
    ensures
        lookup_parts(ext, value, branch, key) == lookup(*branch[i].1, key.skip(ext.len() as int + 1)),
{
    let j = choose|j: int| 0 <= j < branch.len() && #[trigger] branch[j].0 == key[ext.len() as int];
    if j < i {
        assert(code(branch[j].0) < code(branch[i].0));
    } else if i < j {
        assert(code(branch[i].0) < code(branch[j].0));
    }
}

/// A longer key whose next character starts no branch finds nothing.
proof fn lemma_lookup_nobranch<V>(
    ext: Seq<char>,
    value: Option<V>,
    branch: Seq<(char, Box<TrieNode<V>>)>,
    key: Seq<char>,
)
    requires
        key.len() > ext.len(),
        forall|i: int| 0 <= i < branch.len() ==> #[trigger] branch[i].0 != key[ext.len() as int],
    ensures
        lookup_parts(ext, value, branch, key) is None,
{
}

/// Splitting the extension: the first part must match, then the rest of the key is
/// looked up under the second part.
proof fn lemma_ext_split<V>(
    e1: Seq<char>,
    e2: Seq<char>,
    value: Option<V>,
    branch: Seq<(char, Box<TrieNode<V>>)>,
    key: Seq<char>,
)
    ensures
        lookup_parts(e1 + e2, value, branch, key) == if key.len() >= e1.len() && key.take(
            e1.len() as int,
        ) == e1 {
            lookup_parts(e2, value, branch, key.skip(e1.len() as int))
        } else {
            None::<V>
        },
{
    let e = e1 + e2;
    if key.len() >= e1.len() && key.take(e1.len() as int) == e1 {
        let k2 = key.skip(e1.len() as int);
        if key.len() >= e.len() {
            assert(key.take(e.len() as int) == e <==> k2.take(e2.len() as int) == e2) by {
                if key.take(e.len() as int) == e {
                    assert(k2.take(e2.len() as int) =~= e2) by {
                        assert forall|j: int| 0 <= j < e2.len() implies k2.take(
                            e2.len() as int,
                        )[j] == e2[j] by {
                            assert(key.take(e.len() as int)[e1.len() + j] == e[e1.len() + j]);
                        }
                    }
                }
                if k2.take(e2.len() as int) == e2 {
                    assert(key.take(e.len() as int) =~= e) by {
                        assert forall|j: int| 0 <= j < e.len() implies key.take(e.len() as int)[j]
                            == e[j] by {
                            if j < e1.len() {
                                assert(key.take(e1.len() as int)[j] == e1[j]);
                            } else {
                                assert(k2.take(e2.len() as int)[j - e1.len()] == e2[j - e1.len()]);
                            }
                        }
                    }
                }
            }
            if key.len() > e.len() {
                assert(key[e.len() as int] == k2[e2.len() as int]);
                assert(key.skip(e.len() as int + 1) =~= k2.skip(e2.len() as int + 1));
            }
        }
    } else {
        if key.len() >= e.len() && key.take(e.len() as int) == e {
            assert(key.take(e1.len() as int) =~= e1) by {
                assert forall|j: int| 0 <= j < e1.len() implies key.take(e1.len() as int)[j]
                    == e1[j] by {
                    assert(key.take(e.len() as int)[j] == e[j]);
                }
            }
        }
    }
}

/// Finds the branch that starts with `c`, or where such a branch would be inserted.
fn search_branch<V>(branch: &Vec<(char, Box<TrieNode<V>>)>, c: char) -> (r: Result<usize, usize>)
    requires
        sorted_branch(branch@),
    ensures
        match r {
            Ok(i) => i < branch@.len() && branch@[i as int].0 == c,
            Err(i) => i <= branch@.len() && (forall|j: int|
                0 <= j < i ==> code(#[trigger] branch@[j].0) < code(c)) && (forall|j: int|
                i <= j < branch@.len() ==> code(c) < code(#[trigger] branch@[j].0)),
        },
{
    let mut lo: usize = 0;
    let mut hi: usize = branch.len();
    while lo < hi
        invariant
            lo <= hi <= branch@.len(),
            sorted_branch(branch@),
            forall|j: int| 0 <= j < lo ==> code(#[trigger] branch@[j].0) < code(c),
            forall|j: int| hi <= j < branch@.len() ==> code(c) < code(#[trigger] branch@[j].0),
        decreases hi - lo,
    {
        let mid = lo + (hi - lo) / 2;
        let k = branch[mid].0;
        if k == c {
            return Ok(mid);
        } else if (k as u32) < (c as u32) {
            assert forall|j: int| 0 <= j < mid + 1 implies code(#[trigger] branch@[j].0) < code(c) by {
                if j < mid {
                    assert(code(branch@[j].0) < code(branch@[mid as int].0));
                }
            }
            lo = mid + 1;
        } else {
            proof {
                lemma_code_injective(k, c);
            }
            assert forall|j: int| mid <= j < branch@.len() implies code(c) < code(
                #[trigger] branch@[j].0,
            ) by {
                if mid < j {
                    assert(code(branch@[mid as int].0) < code(branch@[j].0));
                }
            }
            hi = mid;
        }
    }
    Err(lo)
}

impl<V> TrieNode<V> {
    /// The value held for `key[pos..]` in this sub-trie, if any.
    fn reference(&self, key: &Vec<char>, pos: usize) -> (r: Option<&V>)
        requires
            wf_node(*self),
            pos <= key@.len(),
        ensures
            match r {
                Some(v) => lookup(*self, key@.skip(pos as int)) == Some(*v),
                None => lookup(*self, key@.skip(pos as int)) is None,
            },
        decreases key@.len() - pos,
    {
        let ghost k = key@.skip(pos as int);
        let ghost ext = self.extension@;
        let ext_len = self.extension.len();
        let len = key.len();
        let rem = len - pos;
        let mut i: usize = 0;
        while i < ext_len
            invariant
                i <= ext_len,
                len == key@.len(),
                rem == len - pos,
                ext_len == ext.len(),
                ext == self.extension@,
                pos <= key@.len(),
                k == key@.skip(pos as int),
                pos + i <= key@.len(),
                k.take(i as int) == ext.take(i as int),
            decreases ext_len - i,
        {
            if i >= rem || key[pos + i] != self.extension[i] {
                proof {
                    if k.len() >= ext.len() && k.take(ext.len() as int) == ext {
                        assert(k.take(ext.len() as int)[i as int] == ext[i as int]);
                    }
                    lemma_lookup_mismatch(ext, self.value, self.branch@, k);
                }
                return None;
            }
            assert(k.take(i + 1) =~= ext.take(i + 1)) by {
                assert(k[i as int] == ext[i as int]);
            }
            i += 1;
        }
        assert(k.take(ext.len() as int) =~= ext);
        let p = pos + ext_len;
        if p == key.len() {
            proof {
                assert(k =~= ext);
                lemma_lookup_here(ext, self.value, self.branch@, k);
            }
            return self.value.as_ref();
        }
        let c = key[p];
        match search_branch(&self.branch, c) {
            Ok(idx) => {
                proof {
                    lemma_lookup_branch(ext, self.value, self.branch@, k, idx as int);
                    assert(k.skip(ext.len() as int + 1) =~= key@.skip(p + 1));
                }
                self.branch[idx].1.reference(key, p + 1)
            },
            Err(_) => {
                proof {
                    assert forall|j: int| 0 <= j < self.branch@.len() implies #[trigger] self.branch@[j].0
                        != k[ext.len() as int] by {
                        assert(code(c) != code(self.branch@[j].0));
                    }
                    lemma_lookup_nobranch(ext, self.value, self.branch@, k);
                }
                None
            },
        }
    }
}


/// A node with no branches holds only the key equal to its extension.
proof fn lemma_lookup_leaf<V>(ext: Seq<char>, value: Option<V>, branch: Seq<(char, Box<TrieNode<V>>)>, key: Seq<char>)
    requires
        branch.len() == 0,
    ensures
        lookup_parts(ext, value, branch, key) == if key == ext { value } else { None::<V> },
{
    if key.len() >= ext.len() && key.take(ext.len() as int) == ext && key.len() == ext.len() {
        assert(key =~= ext);
    }
    if key == ext {
        lemma_lookup_here(ext, value, branch, key);
    }
}

/// The node's own value matters only for the key equal to its extension.
proof fn lemma_lookup_other_value<V>(
    ext: Seq<char>,
    v1: Option<V>,
    v2: Option<V>,
    branch: Seq<(char, Box<TrieNode<V>>)>,
    key: Seq<char>,
)
    requires
        key != ext,
    ensures
        lookup_parts(ext, v1, branch, key) == lookup_parts(ext, v2, branch, key),
{
    if key.len() == ext.len() && key.take(ext.len() as int) == ext {
        assert(key =~= ext);
    }
}

/// The characters of `v` from position `from` on.
fn copy_from(v: &Vec<char>, from: usize) -> (r: Vec<char>)
    requires
        from <= v@.len(),
    ensures
        r@ == v@.skip(from as int),
{
    let mut out: Vec<char> = Vec::new();
    let n = v.len();
    let mut i = from;
    while i < n
        invariant
            from <= i <= n,
            n == v@.len(),
            out@ == v@.subrange(from as int, i as int),
        decreases n - i,
    {
        out.push(v[i]);
        assert(out@ =~= v@.subrange(from as int, i + 1));
        i += 1;
    }
    assert(out@ =~= v@.skip(from as int));
    out
}

/// The first `to` characters of `v`.
fn copy_prefix(v: &Vec<char>, to: usize) -> (r: Vec<char>)
    requires
        to <= v@.len(),
    ensures
        r@ == v@.take(to as int),
{
    let mut out: Vec<char> = Vec::new();
    let mut i: usize = 0;
    while i < to
        invariant
            i <= to <= v@.len(),
            out@ == v@.take(i as int),
        decreases to - i,
    {
        out.push(v[i]);
        assert(out@ =~= v@.take(i + 1));
        i += 1;
    }
    out
}

impl<V> TrieNode<V> {
    /// Splits the extension at `diverge_point` and adds the key made of the extension's
    /// first `diverge_point` characters followed by `branch_key`, with `branch_value`.
    fn make_branch(&mut self, diverge_point: usize, branch_key: Vec<char>, branch_value: V)
        requires
            wf_node(*old(self)),
            diverge_point < old(self).extension@.len(),
            branch_key@.len() == 0 || branch_key@[0] != old(self).extension@[diverge_point as int],
        ensures
            wf_node(*final(self)),
            forall|k: Seq<char>|
                #[trigger] lookup(*final(self), k) == if k == old(self).extension@.take(
                    diverge_point as int,
                ) + branch_key@ {
                    Some(branch_value)
                } else {
                    lookup(*old(self), k)
                },
    {
        let ghost old_node = *self;
        let ghost e = self.extension@;
        let ghost v0 = self.value;
        let ghost b0 = self.branch@;
        let d = diverge_point;
        let ext_len = self.extension.len();
        assert(d < ext_len);
        let prefix = copy_prefix(&self.extension, d);
        let dc = self.extension[d];
        let suffix = copy_from(&self.extension, d + 1);
        let old_value = self.value.take();
        let mut old_branch: Vec<(char, Box<TrieNode<V>>)> = Vec::new();
        std::mem::swap(&mut old_branch, &mut self.branch);
        let child = TrieNode { extension: suffix, value: old_value, branch: old_branch };
        let ghost p = prefix@;
        let ghost s = child.extension@;
        let ghost bk = branch_key@;
        proof {
            assert(e =~= p + (seq![dc] + s));
            assert(lookup(child, Seq::empty()) == lookup(child, Seq::empty()));
        }
        let ghost cnode = child;
        if branch_key.len() == 0 {
            let mut br: Vec<(char, Box<TrieNode<V>>)> = Vec::new();
            br.push((dc, Box::new(child)));
            *self = TrieNode { extension: prefix, value: Some(branch_value), branch: br };
        } else {
            let bc = branch_key[0];
            let leaf = TrieNode {
                extension: copy_from(&branch_key, 1),
                value: Some(branch_value),
                branch: Vec::new(),
            };
            let mut br: Vec<(char, Box<TrieNode<V>>)> = Vec::new();
            proof {
                lemma_code_injective(dc, bc);
            }
            if (dc as u32) < (bc as u32) {
                br.push((dc, Box::new(child)));
                br.push((bc, Box::new(leaf)));
            } else {
                br.push((bc, Box::new(leaf)));
                br.push((dc, Box::new(child)));
            }
            *self = TrieNode { extension: prefix, value: None, branch: br };
        }
        let ghost nb = self.branch@;
        let ghost nv = self.value;
        assert(sorted_branch(nb));
        assert forall|i: int| 0 <= i < nb.len() implies wf_node(*(#[trigger] nb[i]).1) by {
            if *nb[i].1 != cnode {
                assert(sorted_branch(nb[i].1.branch@));
            }
        }
        assert forall|k: Seq<char>|
            #[trigger] lookup(*self, k) == if k == e.take(d as int) + bk {
                Some(branch_value)
            } else {
                lookup(old_node, k)
            } by {
            assert(e.take(d as int) =~= p);
            let target = p + bk;
            lemma_ext_split(p, seq![dc] + s, v0, b0, k);
            if k.len() >= p.len() && k.take(p.len() as int) == p {
                let k2 = k.skip(p.len() as int);
                lemma_ext_split(seq![dc], s, v0, b0, k2);
                if k.len() == p.len() {
                    assert(k =~= p);
                    lemma_lookup_here(p, nv, nb, k);
                    if bk.len() > 0 {
                        assert(k.len() != target.len());
                    } else {
                        assert(target =~= p);
                    }
                    assert(!(k2.len() >= 1 && k2.take(1) == seq![dc]));
                } else {
                    let kc = k[p.len() as int];
                    assert(k2[0] == kc);
                    let k3 = k.skip(p.len() as int + 1);
                    assert(k2.skip(1) =~= k3);
                    if kc == dc {
                        assert(k2.take(1) =~= seq![dc]);
                        let idx = if nb[0].0 == dc { 0int } else { 1int };
                        lemma_lookup_branch(p, nv, nb, k, idx);
                        if bk.len() > 0 {
                            assert(target[p.len() as int] == bk[0]);
                        } else {
                            assert(k.len() != target.len());
                        }
                    } else {
                        assert(k2.take(1) != seq![dc]) by {
                            assert(k2.take(1)[0] == kc);
                        }
                        if bk.len() > 0 && kc == bk[0] {
                            let idx = if nb[0].0 == kc { 0int } else { 1int };
                            lemma_lookup_branch(p, nv, nb, k, idx);
                            let leafn = *nb[idx].1;
                            lemma_lookup_leaf(leafn.extension@, leafn.value, leafn.branch@, k3);
                            assert(leafn.extension@ =~= bk.skip(1));
                            if k3 == bk.skip(1) {
                                assert(k =~= target) by {
                                    assert forall|j: int| 0 <= j < k.len() implies k[j] == target[j] by {
                                        if j < p.len() {
                                            assert(k.take(p.len() as int)[j] == p[j]);
                                        } else if j > p.len() {
                                            assert(k3[j - p.len() - 1] == k[j]);
                                        }
                                    }
                                }
                            } else {
                                if k == target {
                                    assert(k3 =~= bk.skip(1));
                                }
                            }
                        } else {
                            assert forall|i: int| 0 <= i < nb.len() implies #[trigger] nb[i].0 != kc by {}
                            lemma_lookup_nobranch(p, nv, nb, k);
                            if k == target {
                                assert(bk.len() > 0);
                                assert(k[p.len() as int] == bk[0]);
                            }
                        }
                    }
                }
            } else {
                lemma_lookup_mismatch(p, nv, nb, k);
                if k == target {
                    assert(k.take(p.len() as int) =~= p);
                }
            }
        }
    }
}


impl<V> TrieNode<V> {
    /// Sets the value of `key[pos..]` in this sub-trie, returning the value it replaced.
    fn insert(&mut self, key: &Vec<char>, pos: usize, new_value: V) -> (r: Option<V>)
        requires
            wf_node(*old(self)),
            pos <= key@.len(),
        ensures
            wf_node(*final(self)),
            r == lookup(*old(self), key@.skip(pos as int)),
            forall|k: Seq<char>|
                #[trigger] lookup(*final(self), k) == if k == key@.skip(pos as int) {
                    Some(new_value)
                } else {
                    lookup(*old(self), k)
                },
        decreases key@.len() - pos,
    {
        let ghost old_node = *self;
        let ghost k0 = key@.skip(pos as int);
        let ghost ext = self.extension@;
        let ghost v0 = self.value;
        let ghost b0 = self.branch@;
        let ext_len = self.extension.len();
        let len = key.len();
        let rem = len - pos;
        let mut i: usize = 0;
        while i < ext_len
            invariant
                i <= ext_len,
                len == key@.len(),
                rem == len - pos,
                i <= rem,
                ext_len == ext.len(),
                *self == old_node,
                old_node == *old(self),
                ext == self.extension@,
                wf_node(*self),
                pos <= key@.len(),
                k0 == key@.skip(pos as int),
                k0.take(i as int) == ext.take(i as int),
            decreases ext_len - i,
        {
            if i >= rem || key[pos + i] != self.extension[i] {
                proof {
                    if k0.len() >= ext.len() && k0.take(ext.len() as int) == ext {
                        assert(k0.take(ext.len() as int)[i as int] == ext[i as int]);
                    }
                    lemma_lookup_mismatch(ext, v0, b0, k0);
                }
                let branch_key = copy_from(key, pos + i);
                proof {
                    assert(branch_key@ =~= k0.skip(i as int));
                    assert(ext.take(i as int) + branch_key@ =~= k0) by {
                        assert forall|j: int| 0 <= j < k0.len() implies (ext.take(i as int)
                            + branch_key@)[j] == k0[j] by {
                            if j < i {
                                assert(k0.take(i as int)[j] == ext.take(i as int)[j]);
                            }
                        }
                    }
                }
                self.make_branch(i, branch_key, new_value);
                return None;
            }
            assert(k0.take(i + 1) =~= ext.take(i + 1)) by {
                assert(k0[i as int] == ext[i as int]);
            }
            i += 1;
        }
        assert(k0.take(ext.len() as int) =~= ext);
        let p = pos + ext_len;
        if p == len {
            proof {
                assert(k0 =~= ext);
                lemma_lookup_here(ext, v0, b0, k0);
            }
            let old_value = self.value.take();
            self.value = Some(new_value);
            proof {
                lemma_lookup_here(ext, self.value, b0, k0);
                assert forall|k: Seq<char>|
                    #[trigger] lookup(*self, k) == if k == k0 {
                        Some(new_value)
                    } else {
                        lookup(old_node, k)
                    } by {
                    if k != k0 {
                        lemma_lookup_other_value(ext, v0, self.value, b0, k);
                    }
                }
            }
            return old_value;
        }
        let c = key[p];
        assert(k0[ext.len() as int] == c);
        let ghost k1 = key@.skip(p + 1);
        assert(k0.skip(ext.len() as int + 1) =~= k1);
        match search_branch(&self.branch, c) {
            Ok(idx) => {
                proof {
                    lemma_lookup_branch(ext, v0, b0, k0, idx as int);
                }
                let (ch, mut child) = self.branch.remove(idx);
                let ghost old_child = *child;
                assert(old_child == *b0[idx as int].1);
                let r = (&mut *child).insert(key, p + 1, new_value);
                self.branch.insert(idx, (ch, child));
                let ghost nb = self.branch@;
                proof {
                    assert(nb =~= b0.update(idx as int, (c, child)));
                    assert(sorted_branch(nb)) by {
                        assert forall|a: int, b: int| 0 <= a < b < nb.len() implies code(
                            #[trigger] nb[a].0,
                        ) < code(#[trigger] nb[b].0) by {
                            assert(code(b0[a].0) < code(b0[b].0));
                        }
                    }
                    assert forall|j: int| 0 <= j < nb.len() implies wf_node(
                        *(#[trigger] nb[j]).1,
                    ) by {
                        if j != idx {
                            assert(nb[j] == b0[j]);
                        }
                    }
                    assert forall|k: Seq<char>|
                        #[trigger] lookup(*self, k) == if k == k0 {
                            Some(new_value)
                        } else {
                            lookup(old_node, k)
                        } by {
                        if k.len() >= ext.len() && k.take(ext.len() as int) == ext && k.len()
                            > ext.len() {
                            let kc = k[ext.len() as int];
                            let kr = k.skip(ext.len() as int + 1);
                            if kc == c {
                                lemma_lookup_branch(ext, v0, b0, k, idx as int);
                                lemma_lookup_branch(ext, v0, nb, k, idx as int);
                                if kr == k1 {
                                    assert(k =~= k0) by {
                                        assert forall|j: int| 0 <= j < k.len() implies k[j]
                                            == k0[j] by {
                                            if j < ext.len() {
                                                assert(k.take(ext.len() as int)[j] == ext[j]);
                                                assert(k0.take(ext.len() as int)[j] == ext[j]);
                                            } else if j > ext.len() {
                                                assert(kr[j - ext.len() - 1] == k[j]);
                                                assert(k1[j - ext.len() - 1] == k0[j]);
                                            }
                                        }
                                    }
                                } else {
                                    if k == k0 {
                                        assert(kr =~= k1);
                                    }
                                }
                            } else {
                                if k == k0 {
                                    assert(false);
                                }
                                if exists|j: int| 0 <= j < b0.len() && #[trigger] b0[j].0 == kc {
                                    let j = choose|j: int| 0 <= j < b0.len() && #[trigger] b0[j].0 == kc;
                                    assert(j != idx);
                                    assert(nb[j] == b0[j]);
                                    lemma_lookup_branch(ext, v0, b0, k, j);
                                    lemma_lookup_branch(ext, v0, nb, k, j);
                                } else {
                                    assert forall|j: int| 0 <= j < nb.len() implies #[trigger] nb[j].0
                                        != kc by {
                                        if j != idx {
                                            assert(nb[j] == b0[j]);
                                        }
                                    }
                                    lemma_lookup_nobranch(ext, v0, b0, k);
                                    lemma_lookup_nobranch(ext, v0, nb, k);
                                }
                            }
                        } else {
                            if k == k0 {
                                assert(false);
                            }
                            if k.len() >= ext.len() && k.take(ext.len() as int) == ext {
                                assert(k =~= ext);
                                lemma_lookup_here(ext, v0, b0, k);
                                lemma_lookup_here(ext, v0, nb, k);
                            } else {
                                lemma_lookup_mismatch(ext, v0, b0, k);
                                lemma_lookup_mismatch(ext, v0, nb, k);
                            }
                        }
                    }
                }
                r
            },
            Err(idx) => {
                proof {
                    assert forall|j: int| 0 <= j < b0.len() implies #[trigger] b0[j].0 != c by {
                        assert(code(c) != code(b0[j].0));
                    }
                    lemma_lookup_nobranch(ext, v0, b0, k0);
                }
                let leaf = TrieNode {
                    extension: copy_from(key, p + 1),
                    value: Some(new_value),
                    branch: Vec::new(),
                };
                let ghost leafn = leaf;
                self.branch.insert(idx, (c, Box::new(leaf)));
                let ghost nb = self.branch@;
                proof {
                    assert(nb =~= b0.insert(idx as int, (c, Box::new(leafn))));
                    assert(sorted_branch(nb)) by {
                        assert forall|a: int, b: int| 0 <= a < b < nb.len() implies code(
                            #[trigger] nb[a].0,
                        ) < code(#[trigger] nb[b].0) by {
                            if a < idx && b < idx {
                                assert(code(b0[a].0) < code(b0[b].0));
                            } else if a > idx && b > idx {
                                assert(code(b0[a - 1].0) < code(b0[b - 1].0));
                            } else if a < idx && b > idx {
                                assert(code(b0[a].0) < code(c));
                                assert(code(c) < code(b0[b - 1].0));
                            } else if a < idx {
                                assert(code(b0[a].0) < code(c));
                            } else {
                                assert(code(c) < code(b0[b - 1].0));
                            }
                        }
                    }
                    assert forall|j: int| 0 <= j < nb.len() implies wf_node(
                        *(#[trigger] nb[j]).1,
                    ) by {
                        if j < idx {
                            assert(nb[j] == b0[j]);
                        } else if j > idx {
                            assert(nb[j] == b0[j - 1]);
                        }
                    }
                    assert forall|k: Seq<char>|
                        #[trigger] lookup(*self, k) == if k == k0 {
                            Some(new_value)
                        } else {
                            lookup(old_node, k)
                        } by {
                        if k.len() >= ext.len() && k.take(ext.len() as int) == ext && k.len()
                            > ext.len() {
                            let kc = k[ext.len() as int];
                            let kr = k.skip(ext.len() as int + 1);
                            if kc == c {
                                lemma_lookup_branch(ext, v0, nb, k, idx as int);
                                lemma_lookup_leaf(leafn.extension@, leafn.value, leafn.branch@, kr);
                                lemma_lookup_nobranch(ext, v0, b0, k);
                                if kr == k1 {
                                    assert(k =~= k0) by {
                                        assert forall|j: int| 0 <= j < k.len() implies k[j]
                                            == k0[j] by {
                                            if j < ext.len() {
                                                assert(k.take(ext.len() as int)[j] == ext[j]);
                                                assert(k0.take(ext.len() as int)[j] == ext[j]);
                                            } else if j > ext.len() {
                                                assert(kr[j - ext.len() - 1] == k[j]);
                                                assert(k1[j - ext.len() - 1] == k0[j]);
                                            }
                                        }
                                    }
                                } else {
                                    if k == k0 {
                                        assert(kr =~= k1);
                                    }
                                }
                            } else {
                                if k == k0 {
                                    assert(false);
                                }
                                if exists|j: int| 0 <= j < b0.len() && #[trigger] b0[j].0 == kc {
                                    let j = choose|j: int| 0 <= j < b0.len() && #[trigger] b0[j].0 == kc;
                                    let j2 = if j < idx { j } else { j + 1 };
                                    assert(nb[j2] == b0[j]);
                                    lemma_lookup_branch(ext, v0, b0, k, j);
                                    lemma_lookup_branch(ext, v0, nb, k, j2);
                                } else {
                                    assert forall|j: int| 0 <= j < nb.len() implies #[trigger] nb[j].0
                                        != kc by {
                                        if j < idx {
                                            assert(nb[j] == b0[j]);
                                        } else if j > idx {
                                            assert(nb[j] == b0[j - 1]);
                                        }
                                    }
                                    lemma_lookup_nobranch(ext, v0, b0, k);
                                    lemma_lookup_nobranch(ext, v0, nb, k);
                                }
                            }
                        } else {
                            if k == k0 {
                                assert(false);
                            }
                            if k.len() >= ext.len() && k.take(ext.len() as int) == ext {
                                assert(k =~= ext);
                                lemma_lookup_here(ext, v0, b0, k);
                                lemma_lookup_here(ext, v0, nb, k);
                            } else {
                                lemma_lookup_mismatch(ext, v0, b0, k);
                                lemma_lookup_mismatch(ext, v0, nb, k);
                            }
                        }
                    }
                }
                None
            },
        }
    }
}


/// Whether key `a` comes before key `b`: at the first character where they differ, `a`'s
/// has the lower code, or `a` is a proper prefix of `b`.
pub open spec fn key_lt(a: Seq<char>, b: Seq<char>) -> bool
    decreases a.len(),
{
    if a.len() == 0 {
        b.len() > 0
    } else if b.len() == 0 {
        false
    } else if a[0] != b[0] {
        code(a[0]) < code(b[0])
    } else {
        key_lt(a.drop_first(), b.drop_first())
    }
}

/// The keys of `s[from..to]` come in strictly increasing order.
pub open spec fn keys_increasing<V>(s: Seq<(SharedString, V)>, from: int, to: int) -> bool {
    forall|a: int, b: int| from <= a < b < to ==> key_lt(#[trigger] s[a].0@, #[trigger] s[b].0@)
}

/// No key comes before itself.
proof fn lemma_key_lt_irreflexive(a: Seq<char>)
    ensures
        !key_lt(a, a),
    decreases a.len(),
{
    if a.len() > 0 {
        lemma_key_lt_irreflexive(a.drop_first());
    }
}

/// Two keys that agree on their first `n` characters are ordered by the next one.
proof fn lemma_key_lt_diverge(x: Seq<char>, y: Seq<char>, n: int)
    requires
        0 <= n < x.len(),
        n < y.len(),
        x.take(n) == y.take(n),
        code(x[n]) < code(y[n]),
    ensures
        key_lt(x, y),
    decreases n,
{
    if n > 0 {
        assert(x[0] == x.take(n)[0]);
        assert(y[0] == y.take(n)[0]);
        assert(x.drop_first().take(n - 1) =~= y.drop_first().take(n - 1)) by {
            assert forall|t: int| 0 <= t < n - 1 implies #[trigger] x.drop_first().take(n - 1)[t]
                == y.drop_first().take(n - 1)[t] by {
                assert(x.take(n)[t + 1] == x[t + 1]);
                assert(y.take(n)[t + 1] == y[t + 1]);
                assert(x.take(n)[t + 1] == y.take(n)[t + 1]);
                assert(x.drop_first()[t] == x[t + 1]);
                assert(y.drop_first()[t] == y[t + 1]);
            }
        }
        lemma_key_lt_diverge(x.drop_first(), y.drop_first(), n - 1);
    } else {
        lemma_code_injective(x[0], y[0]);
    }
}

/// A key comes before every longer key that starts with it.
proof fn lemma_key_lt_prefix(x: Seq<char>, y: Seq<char>)
    requires
        x.len() < y.len(),
        y.take(x.len() as int) == x,
    ensures
        key_lt(x, y),
    decreases x.len(),
{
    if x.len() > 0 {
        assert(x[0] == y.take(x.len() as int)[0]);
        assert(y.drop_first().take(x.len() - 1) =~= x.drop_first()) by {
            assert forall|t: int| 0 <= t < x.len() - 1 implies #[trigger] y.drop_first().take(x.len() - 1)[t]
                == x.drop_first()[t] by {
                assert(y.take(x.len() as int)[t + 1] == x[t + 1]);
            }
        }
        lemma_key_lt_prefix(x.drop_first(), y.drop_first());
    }
}

/// A key that starts with `pe` followed by `c`.
pub open spec fn under(k: Seq<char>, pe: Seq<char>) -> bool {
    k.len() > pe.len() && k.take(pe.len() as int) == pe
}

/// Appending the keys of one more branch, all under `pe` followed by `c`, keeps the keys of
/// a node increasing: the node's own key `pe` is a prefix of them, and the keys of earlier
/// branches continue after `pe` with a lower character.
proof fn lemma_iterate_append<V>(
    s: Seq<(SharedString, V)>,
    r0: int,
    r1: int,
    mid: int,
    pe: Seq<char>,
    c: char,
)
    requires
        0 <= r0 <= r1 <= mid <= s.len(),
        r1 <= r0 + 1,
        r1 == r0 + 1 ==> s[r0].0@ == pe,
        keys_increasing(s, r0, mid),
        keys_increasing(s, mid, s.len() as int),
        forall|j: int|
            r1 <= j < mid ==> under(#[trigger] s[j].0@, pe) && code(s[j].0@[pe.len() as int])
                < code(c),
        forall|j: int|
            mid <= j < s.len() ==> under(#[trigger] s[j].0@, pe) && s[j].0@[pe.len() as int]
                == c,
    ensures
        keys_increasing(s, r0, s.len() as int),
{
    assert forall|a: int, b: int| r0 <= a < b < s.len() implies key_lt(
        #[trigger] s[a].0@,
        #[trigger] s[b].0@,
    ) by {
        if b >= mid && a < mid {
            let x = s[a].0@;
            let y = s[b].0@;
            if a < r1 {
                assert(y.take(pe.len() as int) == pe);
                lemma_key_lt_prefix(x, y);
            } else {
                assert(x.take(pe.len() as int) == y.take(pe.len() as int));
                lemma_key_lt_diverge(x, y, pe.len() as int);
            }
        }
    }
}

/// `e` is an entry of the sub-trie `n` listed under `prefix`: its key is `prefix` followed
/// by a key of `n`, and its value a clone of that key's value.
pub open spec fn entry_of<V: Clone>(n: TrieNode<V>, prefix: Seq<char>, e: (SharedString, V)) -> bool {
    &&& e.0@.len() >= prefix.len()
    &&& e.0@.take(prefix.len() as int) == prefix
    &&& lookup(n, e.0@.skip(prefix.len() as int)) matches Some(x) && cloned(x, e.1)
}

/// An entry of a branch's sub-trie, listed under the extended prefix, is an entry of the node.
proof fn lemma_entry_of_branch<V: Clone>(
    n: TrieNode<V>,
    prefix: Seq<char>,
    i: int,
    e: (SharedString, V),
)
    requires
        sorted_branch(n.branch@),
        0 <= i < n.branch@.len(),
        entry_of(*n.branch@[i].1, prefix + n.extension@ + seq![n.branch@[i].0], e),
    ensures
        entry_of(n, prefix, e),
{
    let ext = n.extension@;
    let c = n.branch@[i].0;
    let q = prefix + ext + seq![c];
    let k = e.0@;
    let kr = k.skip(prefix.len() as int);
    assert(k.take(prefix.len() as int) =~= prefix) by {
        assert forall|j: int| 0 <= j < prefix.len() implies k.take(prefix.len() as int)[j]
            == prefix[j] by {
            assert(k.take(q.len() as int)[j] == q[j]);
        }
    }
    assert(kr.take(ext.len() as int) =~= ext) by {
        assert forall|j: int| 0 <= j < ext.len() implies kr.take(ext.len() as int)[j] == ext[j] by {
            assert(k.take(q.len() as int)[prefix.len() + j] == q[prefix.len() + j]);
        }
    }
    assert(kr[ext.len() as int] == c) by {
        assert(k.take(q.len() as int)[(prefix.len() + ext.len()) as int] == q[(prefix.len() + ext.len()) as int]);
    }
    assert(kr.skip(ext.len() as int + 1) =~= k.skip(q.len() as int));
    lemma_lookup_branch(ext, n.value, n.branch@, kr, i);
}

impl<V: Clone> TrieNode<V> {
    /// Appends to `result` every key of this sub-trie, after `prefix`, with a clone of
    /// its value; `prefix` is left as it was.
    #[verifier::rlimit(100)]
    fn iterate(&self, prefix: &mut Vec<char>, result: &mut Vec<(SharedString, V)>)
        requires
            wf_node(*self),
        ensures
            final(prefix)@ == old(prefix)@,
            final(result)@.len() >= old(result)@.len(),
            final(result)@.take(old(result)@.len() as int) == old(result)@,
            keys_increasing(final(result)@, old(result)@.len() as int, final(result)@.len() as int),
            forall|j: int|
                old(result)@.len() <= j < final(result)@.len() ==> entry_of(
                    *self,
                    old(prefix)@,
                    #[trigger] final(result)@[j],
                ),
            forall|k: Seq<char>|
                #[trigger] lookup(*self, k) is Some ==> exists|j: int|
                    old(result)@.len() <= j < final(result)@.len() && (#[trigger] final(result)@[j]).0@
                        == old(prefix)@ + k,
        decreases *self,
    {
        let ghost p0 = prefix@;
        let ghost r0 = result@;
        let ghost ext = self.extension@;
        let p0_len = prefix.len();
        let n = self.extension.len();
        for i in 0..n
            invariant
                n == ext.len(),
                ext == self.extension@,
                prefix@ == p0 + ext.take(i as int),
        {
            prefix.push(self.extension[i]);
            assert(prefix@ =~= p0 + ext.take(i + 1));
        }
        assert(prefix@ =~= p0 + ext);
        let ghost pe = prefix@;
        match &self.value {
            Some(v) => {
                let key = SharedString(copy_prefix(prefix, prefix.len()));
                result.push((key, v.clone()));
                proof {
                    let e = result@[r0.len() as int];
                    assert(e.0@ =~= pe);
                    assert(e.0@.take(p0.len() as int) =~= p0);
                    assert(e.0@.skip(p0.len() as int) =~= ext);
                    lemma_lookup_here(ext, self.value, self.branch@, ext);
                }
            },
            None => {},
        }
        let ghost r1 = result@;
        assert(r1.take(r0.len() as int) =~= r0);
        let nb = self.branch.len();
        for i in 0..nb
            invariant
                nb == self.branch@.len(),
                wf_node(*self),
                ext == self.extension@,
                pe == p0 + ext,
                prefix@ == pe,
                result@.len() >= r1.len(),
                r1.len() >= r0.len(),
                result@.take(r0.len() as int) == r0,
                self.value is Some ==> r1.len() == r0.len() + 1 && result@[r0.len() as int].0@ == pe,
                self.value is Some ==> result@.len() > r0.len() && result@[r0.len() as int].0@ == pe,
                self.value is None ==> r1.len() == r0.len(),
                keys_increasing(result@, r0.len() as int, result@.len() as int),
                i == 0 ==> result@.len() == r1.len(),
                forall|j: int|
                    r1.len() <= j < result@.len() ==> under(#[trigger] result@[j].0@, pe) && (i > 0
                        ==> code(result@[j].0@[pe.len() as int]) <= code(self.branch@[i - 1].0)),
                forall|j: int| r0.len() <= j < result@.len() ==> entry_of(*self, p0, #[trigger] result@[j]),
                forall|b: int, k: Seq<char>|
                    0 <= b < i && (#[trigger] lookup(*self.branch@[b].1, k)) is Some ==> exists|j: int|
                        r0.len() <= j < result@.len() && (#[trigger] result@[j]).0@ == pe + seq![self.branch@[b].0] + k,
        {
            let c = self.branch[i].0;
            let ghost before = result@;
            prefix.push(c);
            let ghost pc = prefix@;
            proof {
                assert(pc =~= p0 + ext + seq![c]);
                assert(decreases_to!(*self => self.branch));
                assert(decreases_to!(self.branch => self.branch@));
                assert(decreases_to!(self.branch@ => self.branch@[i as int]));
            }
            self.branch[i].1.iterate(prefix, result);
            let ghost after = result@;
            prefix.pop();
            proof {
                assert(after.take(before.len() as int) =~= before);
                assert forall|j: int| 0 <= j < before.len() implies after[j] == before[j] by {
                    assert(after.take(before.len() as int)[j] == after[j]);
                }
                assert forall|j: int| before.len() <= j < after.len() implies under(#[trigger] after[j].0@, pe)
                    && after[j].0@[pe.len() as int] == c by {
                    let k = after[j].0@;
                    assert(entry_of(*self.branch@[i as int].1, pc, after[j]));
                    assert(k.take(pc.len() as int) == pc);
                    assert(k.take(pe.len() as int) =~= pe) by {
                        assert forall|t: int| 0 <= t < pe.len() implies #[trigger] k.take(pe.len() as int)[t] == pe[t] by {
                            assert(k.take(pc.len() as int)[t] == pc[t]);
                        }
                    }
                    assert(k.take(pc.len() as int)[pe.len() as int] == pc[pe.len() as int]);
                }
                assert forall|j: int| r1.len() <= j < before.len() implies under(#[trigger] after[j].0@, pe)
                    && code(after[j].0@[pe.len() as int]) < code(c) by {
                    assert(after[j] == before[j]);
                    if i > 0 {
                        assert(code(self.branch@[i - 1].0) < code(self.branch@[i as int].0));
                    }
                }
                assert(keys_increasing(after, r0.len() as int, before.len() as int)) by {
                    assert forall|a: int, b: int| r0.len() <= a < b < before.len() implies key_lt(#[trigger] after[a].0@, #[trigger] after[b].0@) by {
                        assert(after[a] == before[a]);
                        assert(after[b] == before[b]);
                    }
                }
                if r1.len() == r0.len() + 1 {
                    assert(after[r0.len() as int] == before[r0.len() as int]);
                }
                lemma_iterate_append(after, r0.len() as int, r1.len() as int, before.len() as int, pe, c);
                assert forall|j: int| r0.len() <= j < after.len() implies entry_of(*self, p0, #[trigger] after[j]) by {
                    if j < before.len() {
                        assert(after[j] == before[j]);
                    } else {
                        assert(entry_of(*self.branch@[i as int].1, pc, after[j]));
                        lemma_entry_of_branch(*self, p0, i as int, after[j]);
                    }
                }
                assert(after.take(r0.len() as int) =~= r0) by {
                    assert forall|j: int| 0 <= j < r0.len() implies after.take(r0.len() as int)[j] == r0[j] by {
                        assert(after[j] == before[j]);
                        assert(before.take(r0.len() as int)[j] == r0[j]);
                    }
                }
                if self.value is Some {
                    assert(after[r0.len() as int] == before[r0.len() as int]);
                }
                assert forall|b: int, k: Seq<char>|
                    0 <= b < i + 1 && (#[trigger] lookup(*self.branch@[b].1, k)) is Some implies exists|j: int|
                        r0.len() <= j < after.len() && (#[trigger] after[j]).0@ == pe + seq![self.branch@[b].0] + k by {
                    if b < i {
                        let j = choose|j: int| r0.len() <= j < before.len() && (#[trigger] before[j]).0@ == pe + seq![self.branch@[b].0] + k;
                        assert(after[j] == before[j]);
                    } else {
                        let j = choose|j: int| before.len() <= j < after.len() && (#[trigger] after[j]).0@ == pc + k;
                        assert(pc + k =~= pe + seq![self.branch@[b].0] + k);
                    }
                }
            }
        }
        let ghost rf = result@;
        prefix.truncate(p0_len);
        assert(prefix@ =~= p0);
        assert forall|k: Seq<char>| #[trigger] lookup(*self, k) is Some implies exists|j: int|
            r0.len() <= j < rf.len() && (#[trigger] rf[j]).0@ == p0 + k by {
            let v0 = self.value;
            let b0 = self.branch@;
            if k.len() >= ext.len() && k.take(ext.len() as int) == ext {
                if k.len() == ext.len() {
                    assert(k =~= ext);
                    lemma_lookup_here(ext, v0, b0, k);
                    assert(rf[r0.len() as int].0@ == p0 + k);
                } else {
                    let kc = k[ext.len() as int];
                    if exists|b: int| 0 <= b < b0.len() && #[trigger] b0[b].0 == kc {
                        let b = choose|b: int| 0 <= b < b0.len() && #[trigger] b0[b].0 == kc;
                        let kr = k.skip(ext.len() as int + 1);
                        lemma_lookup_branch(ext, v0, b0, k, b);
                        assert(lookup(*b0[b].1, kr) is Some);
                        let j = choose|j: int| r0.len() <= j < rf.len() && (#[trigger] rf[j]).0@ == pe + seq![b0[b].0] + kr;
                        assert(pe + seq![b0[b].0] + kr =~= p0 + k) by {
                            assert forall|t: int| 0 <= t < k.len() implies k[t] == (ext + seq![kc] + kr)[t] by {
                                if t < ext.len() {
                                    assert(k.take(ext.len() as int)[t] == ext[t]);
                                }
                            }
                            assert(k =~= ext + seq![kc] + kr);
                        }
                    } else {
                        lemma_lookup_nobranch(ext, v0, b0, k);
                    }
                }
            } else {
                lemma_lookup_mismatch(ext, v0, b0, k);
            }
        }
    }
}


/// Replacing the sub-trie of one branch changes only the keys that continue into it.
proof fn lemma_replace_child<V>(
    ext: Seq<char>,
    value: Option<V>,
    b0: Seq<(char, Box<TrieNode<V>>)>,
    idx: int,
    child: TrieNode<V>,
    k: Seq<char>,
)
    requires
        sorted_branch(b0),
        0 <= idx < b0.len(),
    ensures
        lookup_parts(ext, value, b0.update(idx, (b0[idx].0, Box::new(child))), k) == if k.len()
            > ext.len() && k.take(ext.len() as int) == ext && k[ext.len() as int] == b0[idx].0 {
            lookup(child, k.skip(ext.len() as int + 1))
        } else {
            lookup_parts(ext, value, b0, k)
        },
{
    let nb = b0.update(idx, (b0[idx].0, Box::new(child)));
    assert(sorted_branch(nb)) by {
        assert forall|a: int, b: int| 0 <= a < b < nb.len() implies code(#[trigger] nb[a].0) < code(
            #[trigger] nb[b].0,
        ) by {
            assert(code(b0[a].0) < code(b0[b].0));
        }
    }
    if k.len() >= ext.len() && k.take(ext.len() as int) == ext {
        if k.len() == ext.len() {
            assert(k =~= ext);
            lemma_lookup_here(ext, value, b0, k);
            lemma_lookup_here(ext, value, nb, k);
        } else {
            let kc = k[ext.len() as int];
            if kc == b0[idx].0 {
                lemma_lookup_branch(ext, value, nb, k, idx);
            } else if exists|j: int| 0 <= j < b0.len() && #[trigger] b0[j].0 == kc {
                let j = choose|j: int| 0 <= j < b0.len() && #[trigger] b0[j].0 == kc;
                assert(nb[j] == b0[j]);
                lemma_lookup_branch(ext, value, b0, k, j);
                lemma_lookup_branch(ext, value, nb, k, j);
            } else {
                assert forall|j: int| 0 <= j < nb.len() implies #[trigger] nb[j].0 != kc by {
                    if j != idx {
                        assert(nb[j] == b0[j]);
                    }
                }
                lemma_lookup_nobranch(ext, value, b0, k);
                lemma_lookup_nobranch(ext, value, nb, k);
            }
        }
    } else {
        lemma_lookup_mismatch(ext, value, b0, k);
        lemma_lookup_mismatch(ext, value, nb, k);
    }
}

/// Two keys that share the first `n` characters are equal exactly when their rests are.
proof fn lemma_same_rest(k: Seq<char>, k0: Seq<char>, n: int)
    requires
        0 <= n <= k.len(),
        n <= k0.len(),
        k.take(n) == k0.take(n),
    ensures
        k == k0 <==> k.skip(n) == k0.skip(n),
{
    if k.skip(n) == k0.skip(n) {
        assert(k.len() == k0.len()) by {
            assert(k.skip(n).len() == k0.skip(n).len());
        }
        assert(k =~= k0) by {
            assert forall|j: int| 0 <= j < k.len() implies k[j] == k0[j] by {
                if j < n {
                    assert(k.take(n)[j] == k[j]);
                    assert(k0.take(n)[j] == k0[j]);
                    assert(k.take(n)[j] == k0.take(n)[j]);
                } else {
                    assert(k.skip(n)[j - n] == k[j]);
                    assert(k0.skip(n)[j - n] == k0[j]);
                    assert(k.skip(n)[j - n] == k0.skip(n)[j - n]);
                }
            }
        }
    }
}

/// Replacing the sub-trie of branch `idx` by one that differs only at `k1` changes the node
/// only at the key that reaches `k1` through that branch.
proof fn lemma_child_changed<V>(
    ext: Seq<char>,
    value: Option<V>,
    b0: Seq<(char, Box<TrieNode<V>>)>,
    idx: int,
    nc: TrieNode<V>,
    k0: Seq<char>,
)
    requires
        sorted_branch(b0),
        forall|j: int| 0 <= j < b0.len() ==> wf_node(*(#[trigger] b0[j]).1),
        0 <= idx < b0.len(),
        k0.len() > ext.len(),
        k0.take(ext.len() as int) == ext,
        k0[ext.len() as int] == b0[idx].0,
        wf_node(nc),
        forall|k: Seq<char>|
            k != k0.skip(ext.len() as int + 1) ==> #[trigger] lookup(nc, k) == lookup(*b0[idx].1, k),
    ensures
        sorted_branch(b0.update(idx, (b0[idx].0, Box::new(nc)))),
        forall|j: int|
            0 <= j < b0.len() ==> wf_node(
                *(#[trigger] b0.update(idx, (b0[idx].0, Box::new(nc)))[j]).1,
            ),
        lookup_parts(ext, value, b0.update(idx, (b0[idx].0, Box::new(nc))), k0) == lookup(
            nc,
            k0.skip(ext.len() as int + 1),
        ),
        forall|k: Seq<char>|
            k != k0 ==> #[trigger] lookup_parts(ext, value, b0.update(idx, (b0[idx].0, Box::new(nc))), k)
                == lookup_parts(ext, value, b0, k),
{
    let nb = b0.update(idx, (b0[idx].0, Box::new(nc)));
    let c = b0[idx].0;
    assert(sorted_branch(nb)) by {
        assert forall|a: int, b: int| 0 <= a < b < nb.len() implies code(#[trigger] nb[a].0) < code(
            #[trigger] nb[b].0,
        ) by {
            assert(code(b0[a].0) < code(b0[b].0));
        }
    }
    assert forall|j: int| 0 <= j < b0.len() implies wf_node(*(#[trigger] nb[j]).1) by {
        if j != idx {
            assert(nb[j] == b0[j]);
        }
    }
    lemma_replace_child(ext, value, b0, idx, nc, k0);
    assert forall|k: Seq<char>| k != k0 implies #[trigger] lookup_parts(ext, value, nb, k)
        == lookup_parts(ext, value, b0, k) by {
        lemma_replace_child(ext, value, b0, idx, nc, k);
        if k.len() > ext.len() && k.take(ext.len() as int) == ext && k[ext.len() as int] == c {
            lemma_lookup_branch(ext, value, b0, k, idx);
            assert(k.take(ext.len() as int + 1) =~= k0.take(ext.len() as int + 1)) by {
                assert forall|j: int| 0 <= j < ext.len() + 1 implies #[trigger] k.take(ext.len() as int + 1)[j]
                    == k0.take(ext.len() as int + 1)[j] by {
                    if j < ext.len() {
                        assert(k.take(ext.len() as int)[j] == ext[j]);
                        assert(k0.take(ext.len() as int)[j] == ext[j]);
                    }
                }
            }
            lemma_same_rest(k, k0, ext.len() as int + 1);
        }
    }
}

impl<V> TrieNode<V> {
    /// A mutable reference to the value held for `key[pos..]` in this sub-trie, if any.
    fn reference_mut(&mut self, key: &Vec<char>, pos: usize) -> (r: Option<&mut V>)
        requires
            wf_node(*old(self)),
            pos <= key@.len(),
        ensures
            match r {
                Some(v) => {
                    &&& lookup(*old(self), key@.skip(pos as int)) == Some(*v)
                    &&& wf_node(*final(self))
                    &&& lookup(*final(self), key@.skip(pos as int)) == Some(*final(v))
                    &&& forall|k: Seq<char>|
                        k != key@.skip(pos as int) ==> #[trigger] lookup(*final(self), k) == lookup(
                            *old(self),
                            k,
                        )
                },
                None => {
                    &&& lookup(*old(self), key@.skip(pos as int)) is None
                    &&& wf_node(*final(self))
                    &&& forall|k: Seq<char>| #[trigger] lookup(*final(self), k) == lookup(*old(self), k)
                },
            },
        decreases key@.len() - pos,
    {
        let ghost old_node = *self;
        let ghost k0 = key@.skip(pos as int);
        let ghost ext = self.extension@;
        let ghost v0 = self.value;
        let ghost b0 = self.branch@;
        let ext_len = self.extension.len();
        let len = key.len();
        let rem = len - pos;
        let mut i: usize = 0;
        while i < ext_len
            invariant
                i <= ext_len,
                len == key@.len(),
                rem == len - pos,
                i <= rem,
                ext_len == ext.len(),
                *self == old_node,
                old_node == *old(self),
                wf_node(*self),
                ext == self.extension@,
                pos <= key@.len(),
                k0 == key@.skip(pos as int),
                k0.take(i as int) == ext.take(i as int),
            decreases ext_len - i,
        {
            if i >= rem || key[pos + i] != self.extension[i] {
                proof {
                    if k0.len() >= ext.len() && k0.take(ext.len() as int) == ext {
                        assert(k0.take(ext.len() as int)[i as int] == ext[i as int]);
                    }
                    lemma_lookup_mismatch(ext, v0, b0, k0);
                }
                return None;
            }
            assert(k0.take(i + 1) =~= ext.take(i + 1)) by {
                assert(k0[i as int] == ext[i as int]);
            }
            i += 1;
        }
        assert(k0.take(ext.len() as int) =~= ext);
        let p = pos + ext_len;
        if p == len {
            proof {
                assert(k0 =~= ext);
                lemma_lookup_here(ext, v0, b0, k0);
                assert forall|nv: Option<V>, k: Seq<char>|
                    k != k0 implies #[trigger] lookup_parts(ext, nv, b0, k) == lookup(old_node, k) by {
                    lemma_lookup_other_value(ext, v0, nv, b0, k);
                }
                assert forall|nv: Option<V>| #[trigger] lookup_parts(ext, nv, b0, k0) == nv by {
                    lemma_lookup_here(ext, nv, b0, k0);
                }
            }
            return self.value.as_mut();
        }
        let c = key[p];
        assert(k0[ext.len() as int] == c);
        let ghost k1 = key@.skip(p + 1);
        assert(k0.skip(ext.len() as int + 1) =~= k1);
        match search_branch(&self.branch, c) {
            Ok(idx) => {
                proof {
                    lemma_lookup_branch(ext, v0, b0, k0, idx as int);
                    assert forall|nc: TrieNode<V>|
                        #![trigger b0.update(idx as int, (c, Box::new(nc)))]
                        wf_node(nc) && (forall|k: Seq<char>| k != k1 ==> #[trigger] lookup(nc, k) == lookup(*b0[idx as int].1, k))
                        implies {
                        &&& sorted_branch(b0.update(idx as int, (c, Box::new(nc))))
                        &&& (forall|j: int| 0 <= j < b0.len() ==> wf_node(*(#[trigger] b0.update(idx as int, (c, Box::new(nc)))[j]).1))
                        &&& lookup_parts(ext, v0, b0.update(idx as int, (c, Box::new(nc))), k0) == lookup(nc, k1)
                        &&& (forall|k: Seq<char>| k != k0 ==> #[trigger] lookup_parts(ext, v0, b0.update(idx as int, (c, Box::new(nc))), k) == lookup_parts(ext, v0, b0, k))
                    } by {
                        lemma_child_changed(ext, v0, b0, idx as int, nc, k0);
                    }
                }
                self.branch[idx].1.reference_mut(key, p + 1)
            },
            Err(_) => {
                proof {
                    assert forall|j: int| 0 <= j < b0.len() implies #[trigger] b0[j].0 != c by {
                        assert(code(c) != code(b0[j].0));
                    }
                    lemma_lookup_nobranch(ext, v0, b0, k0);
                }
                None
            },
        }
    }
}


impl<V> View for Trie<V> {
    type V = Map<Seq<char>, V>;

    /// The keys that the trie holds, each with its value.
    open spec fn view(&self) -> Map<Seq<char>, V> {
        Map::new(|k: Seq<char>| lookup(self.root, k) is Some, |k: Seq<char>| lookup(self.root, k)->0)
    }
}

impl<V> Trie<V> {
    /// Every node's branches are ordered by their character.
    pub open spec fn wf(&self) -> bool {
        wf_node(self.root)
    }

    pub fn empty() -> (r: Self)
        ensures
            r.root.extension@.len() == 0,
            r.root.value is None,
            r.root.branch@.len() == 0,
            r.wf(),
            r@ == Map::<Seq<char>, V>::empty(),
    {
        let r = Trie { root: TrieNode { extension: Vec::new(), value: None, branch: Vec::new() } };
        assert forall|k: Seq<char>| #[trigger] lookup(r.root, k) is None by {
            lemma_lookup_leaf(r.root.extension@, r.root.value, r.root.branch@, k);
        }
        assert(r@ =~= Map::<Seq<char>, V>::empty());
        r
    }

    /// Sets the value of `key`, returning the value it had before, if any.
    pub fn insert(&mut self, key: &SharedString, value: V) -> (r: Option<V>)
        requires
            old(self).wf(),
        ensures
            final(self).wf(),
            final(self)@ == old(self)@.insert(key@, value),
            r == if old(self)@.contains_key(key@) {
                Some(old(self)@[key@])
            } else {
                None::<V>
            },
    {
        let ghost old_trie = *self;
        let r = self.root.insert(&key.0, 0, value);
        proof {
            assert(key.0@.skip(0) =~= key@);
            assert(self@ =~= old_trie@.insert(key@, value));
        }
        r
    }

    /// A clone of the value of `key`, if the trie holds it.
    pub fn get(&mut self, key: &SharedString) -> (r: Option<V>) where V: Clone
        requires
            old(self).wf(),
        ensures
            *final(self) == *old(self),
            r is Some <==> old(self)@.contains_key(key@),
            r matches Some(v) ==> cloned(old(self)@[key@], v),
    {
        proof {
            assert(key.0@.skip(0) =~= key@);
        }
        match self.root.reference(&key.0, 0) {
            Some(v) => Some(v.clone()),
            None => None,
        }
    }

    /// Whether the trie holds `key`.
    pub fn has(&mut self, key: &SharedString) -> (r: bool)
        requires
            old(self).wf(),
        ensures
            *final(self) == *old(self),
            r == old(self)@.contains_key(key@),
    {
        proof {
            assert(key.0@.skip(0) =~= key@);
        }
        self.root.reference(&key.0, 0).is_some()
    }

    /// Every key that the trie holds, once each and in increasing order (see `key_lt`),
    /// with a clone of its value.
    pub fn iterate(&self) -> (r: OwnedSlice<(SharedString, V)>) where V: Clone
        requires
            self.wf(),
        ensures
            forall|j: int|
                0 <= j < r@.len() ==> self@.contains_key((#[trigger] r@[j]).0@) && cloned(
                    self@[r@[j].0@],
                    r@[j].1,
                ),
            forall|k: Seq<char>|
                #[trigger] self@.contains_key(k) ==> exists|j: int|
                    0 <= j < r@.len() && (#[trigger] r@[j]).0@ == k,
            forall|a: int, b: int|
                0 <= a < b < r@.len() ==> key_lt(#[trigger] r@[a].0@, #[trigger] r@[b].0@),
            forall|a: int, b: int|
                0 <= a < b < r@.len() ==> #[trigger] r@[a].0@ != #[trigger] r@[b].0@,
    {
        let mut result: Vec<(SharedString, V)> = Vec::new();
        let mut prefix: Vec<char> = Vec::new();
        self.root.iterate(&mut prefix, &mut result);
        proof {
            let empty = Seq::<char>::empty();
            assert forall|j: int| 0 <= j < result@.len() implies self@.contains_key(
                (#[trigger] result@[j]).0@,
            ) && cloned(self@[result@[j].0@], result@[j].1) by {
                assert(entry_of(self.root, empty, result@[j]));
                assert(result@[j].0@.skip(0) =~= result@[j].0@);
            }
            assert forall|k: Seq<char>| #[trigger] self@.contains_key(k) implies exists|j: int|
                0 <= j < result@.len() && (#[trigger] result@[j]).0@ == k by {
                assert(lookup(self.root, k) is Some);
                assert(empty + k =~= k);
            }
        }
        proof {
            assert forall|a: int, b: int| 0 <= a < b < result@.len() implies #[trigger] result@[a].0@
                != #[trigger] result@[b].0@ by {
                assert(key_lt(result@[a].0@, result@[b].0@));
                lemma_key_lt_irreflexive(result@[a].0@);
            }
        }
        OwnedSlice::from_vec(result)
    }

    /// A mutable reference to the value of `key`, if the trie holds it.
    pub fn get_mut(&mut self, key: &SharedString) -> (r: Option<&mut V>)
        requires
            old(self).wf(),
        ensures
            match r {
                Some(v) => {
                    &&& old(self)@.contains_key(key@)
                    &&& old(self)@[key@] == *v
                    &&& final(self).wf()
                    &&& final(self)@ == old(self)@.insert(key@, *final(v))
                },
                None => {
                    &&& !old(self)@.contains_key(key@)
                    &&& final(self).wf()
                    &&& final(self)@ == old(self)@
                },
            },
    {
        proof {
            assert(key.0@.skip(0) =~= key@);
        }
        self.root.reference_mut(&key.0, 0)
    }
}

/// What a read gives back of a write: once `insert` has set `key` to `value` (its contract:
/// the new map is the old one with that entry), the trie holds `key` with `value`, and every
/// other key keeps what it had.
pub proof fn law_trie_insert_then_get<V>(
    before: Trie<V>,
    after: Trie<V>,
    key: Seq<char>,
    value: V,
    other: Seq<char>,
)
    requires
        after@ == before@.insert(key, value),
    ensures
        after@.contains_key(key),
        after@[key] == value,
        other != key ==> after@.contains_key(other) == before@.contains_key(other),
        other != key && before@.contains_key(other) ==> after@[other] == before@[other],
{
}

} // verus!
