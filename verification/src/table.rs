//! A small map from digests to values, kept as two parallel vectors.
//!
//! The ledger addresses everything it stores by a digest.  A [`Table`] holds
//! each key at most once, so its contents are a finite map; lookups compare
//! digests byte by byte and never depend on the order of insertion.

use vstd::prelude::*;
use crate::crypto;

verus! {

/// A finite map from digests to values of type `V`.
#[derive(Debug)]
pub struct Table<V> {
    keys: Vec<crypto::Hash>,
    values: Vec<V>,
}

impl<V> Table<V> {
    /// Whether `i` is the position of `key`.
    pub closed spec fn at(&self, i: int, key: Seq<u8>) -> bool {
        0 <= i < self.keys@.len() && self.keys@[i]@ == key
    }

    /// The representation invariant: one value per key, and no key twice.
    pub closed spec fn wf(&self) -> bool {
        &&& self.keys@.len() == self.values@.len()
        &&& forall|i: int, j: int, k: Seq<u8>|
            #[trigger] self.at(i, k) && #[trigger] self.at(j, k) ==> i == j
    }

    /// The contents of the table.
    pub closed spec fn map(&self) -> Map<Seq<u8>, V> {
        Map::new(
            |k: Seq<u8>| exists|i: int| self.at(i, k),
            |k: Seq<u8>| self.values@[choose|i: int| self.at(i, k)],
        )
    }

    /// The keys of the table, in the order in which it holds them.
    pub closed spec fn keys(&self) -> Seq<crypto::Hash> {
        self.keys@
    }

    /// The keys are those of the contents, each of them once.
    pub proof fn lemma_keys(&self)
        requires
            self.wf(),
        ensures
            forall|i: int, j: int|
                0 <= i < j < self.keys().len() ==> self.keys()[i]@ != self.keys()[j]@,
            forall|i: int|
                0 <= i < self.keys().len() ==> self.map().contains_key(#[trigger] self.keys()[i]@),
            forall|k: Seq<u8>| #[trigger]
                self.map().contains_key(k) ==> exists|i: int|
                    0 <= i < self.keys().len() && self.keys()[i]@ == k,
    {
        assert forall|i: int, j: int| 0 <= i < j < self.keys().len() implies self.keys()[i]@
            != self.keys()[j]@ by {
            if self.keys()[i]@ == self.keys()[j]@ {
                assert(self.at(i, self.keys()[i]@));
                assert(self.at(j, self.keys()[i]@));
            }
        }
        assert forall|i: int| 0 <= i < self.keys().len() implies self.map().contains_key(
            #[trigger] self.keys()[i]@,
        ) by {
            self.lemma_at(i);
        }
        assert forall|k: Seq<u8>| #[trigger] self.map().contains_key(k) implies exists|i: int|
            0 <= i < self.keys().len() && self.keys()[i]@ == k by {
            let i = choose|i: int| self.at(i, k);
            assert(0 <= i < self.keys().len() && self.keys()[i]@ == k);
        }
    }

    /// Returns the number of keys.
    pub fn len(&self) -> (r: usize)
        ensures
            r == self.keys().len(),
    {
        self.keys.len()
    }

    /// Returns the key at position `i`.
    pub fn key_at(&self, i: usize) -> (r: crypto::Hash)
        requires
            i < self.keys().len(),
        ensures
            r == self.keys()[i as int],
    {
        self.keys[i]
    }

    /// Returns the value stored under the key at position `i`.
    pub fn value_at(&self, i: usize) -> (r: &V)
        requires
            self.wf(),
            i < self.keys().len(),
        ensures
            *r == self.map()[self.keys()[i as int]@],
    {
        proof {
            self.lemma_at(i as int);
        }
        &self.values[i]
    }

    /// Relates a position to the contents.
    proof fn lemma_at(&self, i: int)
        requires
            self.wf(),
            0 <= i < self.keys@.len(),
        ensures
            self.map().contains_key(self.keys@[i]@),
            self.map()[self.keys@[i]@] == self.values@[i],
    {
        let k = self.keys@[i]@;
        assert(self.at(i, k));
        let j = choose|j: int| self.at(j, k);
        assert(self.at(j, k));
    }

    /// Creates an empty table.
    pub fn new() -> (r: Table<V>)
        ensures
            r.wf(),
            r.map() == Map::<Seq<u8>, V>::empty(),
    {
        let r = Table { keys: Vec::new(), values: Vec::new() };
        assert(r.map() =~= Map::<Seq<u8>, V>::empty());
        r
    }

    /// Finds the position of `key`, if the table holds it.
    fn find(&self, key: &crypto::Hash) -> (r: Option<usize>)
        requires
            self.wf(),
        ensures
            match r {
                Some(i) => self.at(i as int, key@),
                None => !self.map().contains_key(key@),
            },
    {
        let mut i: usize = 0;
        while i < self.keys.len()
            invariant
                i <= self.keys.len(),
                forall|j: int| 0 <= j < i ==> !self.at(j, key@),
            decreases self.keys.len() - i,
        {
            if self.keys[i] == *key {
                return Some(i);
            }
            i += 1;
        }
        assert forall|j: int| !self.at(j, key@) by {
            if 0 <= j < self.keys@.len() {
                assert(!self.at(j, key@));
            }
        }
        None
    }

    /// Looks up the value stored under `key`.
    pub fn get(&self, key: &crypto::Hash) -> (r: Option<&V>)
        requires
            self.wf(),
        ensures
            r is Some == self.map().contains_key(key@),
            r is Some ==> *r->Some_0 == self.map()[key@],
    {
        match self.find(key) {
            Some(i) => {
                proof {
                    self.lemma_at(i as int);
                }
                Some(&self.values[i])
            },
            None => None,
        }
    }

    /// Takes the value stored under `key` out of the table.
    pub fn remove(&mut self, key: &crypto::Hash) -> (r: Option<V>)
        requires
            old(self).wf(),
        ensures
            final(self).wf(),
            final(self).map() == old(self).map().remove(key@),
            r is Some == old(self).map().contains_key(key@),
            r is Some ==> r->Some_0 == old(self).map()[key@],
    {
        match self.find(key) {
            Some(i) => {
                proof {
                    self.lemma_at(i as int);
                }
                let ghost before = *self;
                let ghost last = self.keys@.len() - 1;
                self.keys.swap_remove(i);
                let value = self.values.swap_remove(i);
                proof {
                    assert forall|a: int, b: int, k: Seq<u8>|
                        #[trigger] self.at(a, k) && #[trigger] self.at(b, k) implies a == b by {
                        let a0 = if a == i { last } else { a };
                        let b0 = if b == i { last } else { b };
                        assert(before.at(a0, k));
                        assert(before.at(b0, k));
                    }
                    assert forall|k: Seq<u8>| #[trigger]
                        self.map().contains_key(k) == before.map().remove(key@).contains_key(
                            k,
                        ) by {
                        if self.map().contains_key(k) {
                            let a = choose|a: int| self.at(a, k);
                            let a0 = if a == i { last } else { a };
                            assert(before.at(a0, k));
                            assert(before.at(i as int, key@));
                        }
                        if before.map().remove(key@).contains_key(k) {
                            let a0 = choose|a: int| before.at(a, k);
                            assert(before.at(i as int, key@));
                            let a = if a0 == last { i as int } else { a0 };
                            assert(self.at(a, k));
                        }
                    }
                    assert forall|k: Seq<u8>| #[trigger]
                        self.map().contains_key(k) implies self.map()[k] == before.map().remove(
                        key@,
                    )[k] by {
                        let a = choose|a: int| self.at(a, k);
                        let a0 = if a == i { last } else { a };
                        assert(before.at(a0, k));
                        before.lemma_at(a0);
                    }
                    assert(self.map() =~= before.map().remove(key@));
                }
                Some(value)
            },
            None => {
                assert(self.map() =~= self.map().remove(key@));
                None
            },
        }
    }

    /// Stores `value` under `key`, in place of any value stored there before.
    pub fn put(&mut self, key: crypto::Hash, value: V)
        requires
            old(self).wf(),
        ensures
            final(self).wf(),
            final(self).map() == old(self).map().insert(key@, value),
    {
        let _ = self.remove(&key);
        let ghost before = *self;
        self.keys.push(key);
        self.values.push(value);
        proof {
            let n = before.keys@.len() as int;
            assert forall|a: int, b: int, k: Seq<u8>|
                #[trigger] self.at(a, k) && #[trigger] self.at(b, k) implies a == b by {
                assert(!before.map().contains_key(key@));
                if a < n {
                    assert(before.at(a, k));
                    assert(before.map().contains_key(k));
                }
                if b < n {
                    assert(before.at(b, k));
                    assert(before.map().contains_key(k));
                }
            }
            assert(self.at(n, key@));
            assert forall|k: Seq<u8>| #[trigger]
                self.map().contains_key(k) == before.map().insert(key@, value).contains_key(
                    k,
                ) by {
                if self.map().contains_key(k) {
                    let a = choose|a: int| self.at(a, k);
                    if a < n {
                        assert(before.at(a, k));
                    }
                }
                if before.map().contains_key(k) {
                    let a = choose|a: int| before.at(a, k);
                    assert(self.at(a, k));
                }
            }
            assert forall|k: Seq<u8>| #[trigger]
                self.map().contains_key(k) implies self.map()[k] == before.map().insert(
                key@,
                value,
            )[k] by {
                let a = choose|a: int| self.at(a, k);
                if a < n {
                    assert(before.at(a, k));
                    before.lemma_at(a);
                }
            }
            assert(self.map() =~= before.map().insert(key@, value));
            assert(before.map().insert(key@, value) =~= old(self).map().insert(key@, value));
        }
    }
}

} // verus!
