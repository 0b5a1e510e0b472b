//! The deduplication map: which output index each distinct face vertex got.

use std::collections::HashMap;
use vstd::prelude::*;
use crate::obj::index::VertexIndices;

verus! {

/// The distinct face vertices of one mesh in the order in which they were
/// first used. The place of a key in that order is its output index.
///
/// Keys are kept in an arena; a hash map from position index to the arena
/// slots that share it finds a key again without scanning the arena.
pub struct IndexMap {
    keys: Vec<VertexIndices>,
    buckets: HashMap<usize, Vec<usize>>,
}

impl View for IndexMap {
    type V = Seq<VertexIndices>;

    closed spec fn view(&self) -> Seq<VertexIndices> {
        self.keys@
    }
}

impl IndexMap {
    /// The invariant of the map: no key occurs twice, and the buckets list
    /// exactly the arena slots, each under the position index of its key.
    pub closed spec fn wf(&self) -> bool {
        &&& self.keys@.no_duplicates()
        &&& forall|v: usize, j: int|
            self.buckets@.contains_key(v) && 0 <= j < self.buckets@[v]@.len() ==> {
                &&& (#[trigger] self.buckets@[v]@[j]) < self.keys@.len()
                &&& self.keys@[self.buckets@[v]@[j] as int].v == v
            }
        &&& forall|i: int|
            0 <= i < self.keys@.len() ==> {
                &&& self.buckets@.contains_key((#[trigger] self.keys@[i]).v)
                &&& self.buckets@[self.keys@[i].v]@.contains(i as usize)
            }
    }

    /// A well-formed map holds no key twice.
    pub proof fn lemma_no_duplicates(&self)
        requires
            self.wf(),
        ensures
            self@.no_duplicates(),
    {
    }

    /// An empty map.
    pub fn new() -> (r: Self)
        ensures
            r.wf(),
            r@ == Seq::<VertexIndices>::empty(),
    {
        IndexMap { keys: Vec::new(), buckets: HashMap::new() }
    }

    /// The number of distinct keys.
    pub fn len(&self) -> (r: usize)
        ensures
            r == self@.len(),
    {
        self.keys.len()
    }

    /// The output index of `key`, if the map holds it.
    pub fn get(&self, key: &VertexIndices) -> (r: Option<usize>)
        requires
            self.wf(),
        ensures
            match r {
                Some(i) => i < self@.len() && self@[i as int] == *key,
                None => !self@.contains(*key),
            },
    {
        match self.buckets.get(&key.v) {
            None => {
                assert(!self.keys@.contains(*key)) by {
                    if self.keys@.contains(*key) {
                        let i = choose|i: int| 0 <= i < self.keys@.len() && self.keys@[i] == *key;
                        assert(self.buckets@.contains_key(self.keys@[i].v));
                    }
                }
                None
            },
            Some(bucket) => {
                let mut j: usize = 0;
                while j < bucket.len()
                    invariant
                        j <= bucket@.len(),
                        self.wf(),
                        self.buckets@.contains_key(key.v),
                        self.buckets@[key.v] == *bucket,
                        forall|k: int| 0 <= k < j ==> self.keys@[bucket@[k] as int] != *key,
                    decreases bucket@.len() - j,
                {
                    let slot = bucket[j];
                    assert(self.buckets@[key.v]@[j as int] < self.keys@.len());
                    if self.keys[slot] == *key {
                        return Some(slot);
                    }
                    j += 1;
                }
                assert(!self.keys@.contains(*key)) by {
                    if self.keys@.contains(*key) {
                        let i = choose|i: int| 0 <= i < self.keys@.len() && self.keys@[i] == *key;
                        assert(self.keys@[i].v == key.v);
                        assert(self.keys.len() == self.keys@.len());
                        assert((i as usize) as int == i);
                        assert(bucket@.contains(i as usize));
                        let k = choose|k: int| 0 <= k < bucket@.len() && bucket@[k] == i as usize;
                        assert(self.keys@[bucket@[k] as int] != *key);
                    }
                }
                None
            },
        }
    }

    /// Gives `key`, which the map does not hold yet, the next output index.
    pub fn insert(&mut self, key: VertexIndices) -> (r: usize)
        requires
            old(self).wf(),
            !old(self)@.contains(key),
        ensures
            final(self).wf(),
            final(self)@ == old(self)@.push(key),
            r == old(self)@.len(),
    {
        let slot = self.keys.len();
        let mut bucket = match self.buckets.remove(&key.v) {
            Some(b) => b,
            None => Vec::new(),
        };
        let ghost before = bucket@;
        bucket.push(slot);
        self.keys.push(key);
        self.buckets.insert(key.v, bucket);
        proof {
            let old_keys = old(self).keys@;
            let old_buckets = old(self).buckets@;
            assert(old_buckets.contains_key(key.v) ==> before == old_buckets[key.v]@);
            assert(!old_buckets.contains_key(key.v) ==> before == Seq::<usize>::empty());
            assert forall|v: usize, j: int|
                self.buckets@.contains_key(v) && 0 <= j < self.buckets@[v]@.len() implies {
                &&& (#[trigger] self.buckets@[v]@[j]) < self.keys@.len()
                &&& self.keys@[self.buckets@[v]@[j] as int].v == v
            } by {
                if v == key.v {
                    if j < before.len() {
                        assert(old_buckets[v]@[j] < old_keys.len());
                    }
                } else {
                    assert(old_buckets.contains_key(v));
                    assert(old_buckets[v]@[j] < old_keys.len());
                }
            }
            assert forall|i: int| 0 <= i < self.keys@.len() implies {
                &&& self.buckets@.contains_key((#[trigger] self.keys@[i]).v)
                &&& self.buckets@[self.keys@[i].v]@.contains(i as usize)
            } by {
                if i < old_keys.len() {
                    assert(old_buckets.contains_key(old_keys[i].v));
                    let b = old_buckets[old_keys[i].v]@;
                    assert(b.contains(i as usize));
                    let k = choose|k: int| 0 <= k < b.len() && b[k] == i as usize;
                    if old_keys[i].v == key.v {
                        assert(self.buckets@[key.v]@[k] == i as usize);
                    }
                } else {
                    assert(self.buckets@[key.v]@[before.len() as int] == slot);
                }
            }
        }
        slot
    }
}

} // verus!
