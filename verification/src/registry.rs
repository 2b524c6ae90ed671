//! The pool registry: pools by base address, in ascending order.
use crate::pool::PoolRef;
use vstd::prelude::*;

verus! {

/// Whether `keys` ascends strictly, so that no key occurs twice.
pub open spec fn ascending(keys: Seq<usize>) -> bool {
    forall|i: int, j: int| 0 <= i < j < keys.len() ==> keys[i] < keys[j]
}

/// One pool of the registry: the address of its first byte, and the pool,
/// which the entry does not keep alive.
struct PoolEntry {
    base: usize,
    pool: PoolRef,
}

/// The pools by base address.
pub(crate) struct Registry {
    entries: Vec<PoolEntry>,
}

impl Registry {
    /// The base addresses of the pools, in the order of the entries.
    pub closed spec fn keys(&self) -> Seq<usize> {
        Seq::new(self.entries@.len(), |i: int| self.entries@[i].base)
    }

    /// The pools, in the order of the entries: the pool at an index is the
    /// one recorded under the base address at that index.
    pub closed spec fn refs(&self) -> Seq<PoolRef> {
        Seq::new(self.entries@.len(), |i: int| self.entries@[i].pool)
    }

    /// Whether `pool` is the pool recorded under `key`.
    pub open spec fn holds(&self, key: usize, pool: PoolRef) -> bool {
        exists|i: int|
            0 <= i < self.keys().len() && #[trigger] self.keys()[i] == key && self.refs()[i]
                == pool
    }

    /// The entries stand in strictly ascending order of their base address.
    pub open spec fn wf(&self) -> bool {
        ascending(self.keys())
    }

    /// An empty registry.
    pub fn new() -> (r: Self)
        ensures
            r.wf(),
            r.keys() == Seq::<usize>::empty(),
            r.refs() == Seq::<PoolRef>::empty(),
    {
        let r = Registry { entries: Vec::new() };
        assert(r.keys() =~= Seq::<usize>::empty());
        assert(r.refs() =~= Seq::<PoolRef>::empty());
        r
    }

    /// The number of pools.
    pub fn len(&self) -> (r: usize)
        ensures
            r == self.keys().len(),
    {
        self.entries.len()
    }

    /// The base address of the pool at `index`.
    pub fn key(&self, index: usize) -> (r: usize)
        requires
            index < self.keys().len(),
        ensures
            r == self.keys()[index as int],
    {
        self.entries[index].base
    }

    /// The pool at `index`: the one recorded under the base address at
    /// `index`.
    pub fn pool(&self, index: usize) -> (r: &PoolRef)
        requires
            index < self.keys().len(),
        ensures
            *r == self.refs()[index as int],
            self.holds(self.keys()[index as int], *r),
    {
        &self.entries[index].pool
    }

    /// The index of the first pool whose base address is `key` or more: the
    /// number of pools below `key`.
    pub fn lower_bound(&self, key: usize) -> (r: usize)
        requires
            self.wf(),
        ensures
            r <= self.keys().len(),
            forall|i: int| 0 <= i < r ==> self.keys()[i] < key,
            forall|i: int| r <= i < self.keys().len() ==> self.keys()[i] >= key,
    {
        let mut low: usize = 0;
        let mut high: usize = self.entries.len();
        while low < high
            invariant
                self.wf(),
                low <= high <= self.keys().len(),
                forall|i: int| 0 <= i < low ==> self.keys()[i] < key,
                forall|i: int| high <= i < self.keys().len() ==> self.keys()[i] >= key,
            decreases high - low,
        {
            let middle: usize = low + (high - low) / 2;
            if self.entries[middle].base < key {
                assert forall|i: int| 0 <= i < middle + 1 implies self.keys()[i] < key by {
                    assert(self.keys()[i] <= self.keys()[middle as int]);
                }
                low = middle + 1;
            } else {
                assert forall|i: int| middle <= i < self.keys().len() implies self.keys()[i]
                    >= key by {
                    assert(self.keys()[middle as int] <= self.keys()[i]);
                }
                high = middle;
            }
        }
        low
    }

    /// A key that does not stand at its lower bound stands nowhere.
    proof fn lemma_absent(&self, key: usize, index: int)
        requires
            self.wf(),
            0 <= index <= self.keys().len(),
            forall|i: int| 0 <= i < index ==> self.keys()[i] < key,
            forall|i: int| index <= i < self.keys().len() ==> self.keys()[i] >= key,
            index < self.keys().len() ==> self.keys()[index] != key,
        ensures
            !self.keys().contains(key),
    {
        if self.keys().contains(key) {
            let i = choose|i: int| 0 <= i < self.keys().len() && self.keys()[i] == key;
            assert(i > index);
            assert(self.keys()[index] < self.keys()[i]);
        }
    }

    /// The pool recorded under `key`, if there is one.
    pub fn get(&self, key: usize) -> (r: Option<&PoolRef>)
        requires
            self.wf(),
        ensures
            r is Some <==> self.keys().contains(key),
            r matches Some(pool) ==> self.holds(key, *pool),
    {
        let index = self.lower_bound(key);
        if index < self.len() && self.key(index) == key {
            Some(self.pool(index))
        } else {
            proof {
                self.lemma_absent(key, index as int);
            }
            None
        }
    }

    /// Under the key at `index` stands the pool at `index`, and no other.
    proof fn lemma_holds_at(&self, index: int)
        requires
            self.wf(),
            0 <= index < self.keys().len(),
        ensures
            forall|p: PoolRef|
                #[trigger] self.holds(self.keys()[index], p) <==> p == self.refs()[index],
    {
        assert forall|p: PoolRef| #[trigger]
            self.holds(self.keys()[index], p) <==> p == self.refs()[index] by {
            if self.holds(self.keys()[index], p) {
                let i = self.lemma_held_at(self.keys()[index], p);
                if i < index {
                    assert(self.keys()[i] < self.keys()[index]);
                }
                if index < i {
                    assert(self.keys()[index] < self.keys()[i]);
                }
            }
        }
    }

    /// An index at which `pool` stands under `key`.
    proof fn lemma_held_at(&self, key: usize, pool: PoolRef) -> (i: int)
        requires
            self.holds(key, pool),
        ensures
            0 <= i < self.keys().len(),
            0 <= i < self.refs().len(),
            self.keys()[i] == key,
            self.refs()[i] == pool,
    {
        choose|i: int|
            0 <= i < self.keys().len() && #[trigger] self.keys()[i] == key && self.refs()[i]
                == pool
    }

    /// Records `pool` under `key`, in place of a pool that may stand there.
    pub fn insert(&mut self, key: usize, pool: PoolRef)
        requires
            old(self).wf(),
        ensures
            final(self).wf(),
            forall|k: usize|
                final(self).keys().contains(k) <==> old(self).keys().contains(k) || k == key,
            final(self).keys().len() == old(self).keys().len() + if old(self).keys().contains(key) {
                0int
            } else {
                1int
            },
            forall|p: PoolRef| #[trigger] final(self).holds(key, p) <==> p == pool,
            forall|k: usize, p: PoolRef|
                k != key ==> (#[trigger] final(self).holds(k, p) <==> old(self).holds(k, p)),
    {
        let index = self.lower_bound(key);
        let ghost before = self.keys();
        let ghost pools = self.refs();
        if index < self.entries.len() && self.entries[index].base == key {
            self.entries[index] = PoolEntry { base: key, pool };
            assert(self.keys() =~= before);
            assert(self.refs() =~= pools.update(index as int, pool));
            assert(before[index as int] == key);
            proof {
                self.lemma_holds_at(index as int);
                assert forall|k: usize, p: PoolRef| k != key implies (#[trigger] self.holds(k, p)
                    <==> old(self).holds(k, p)) by {
                    if self.holds(k, p) {
                        let i = self.lemma_held_at(k, p);
                        assert(old(self).keys()[i] == k && old(self).refs()[i] == p);
                    }
                    if old(self).holds(k, p) {
                        let i = old(self).lemma_held_at(k, p);
                        assert(self.keys()[i] == k && self.refs()[i] == p);
                    }
                }
            }
        } else {
            self.entries.insert(index, PoolEntry { base: key, pool });
            assert(self.keys() =~= before.insert(index as int, key));
            assert(self.refs() =~= pools.insert(index as int, pool));
            assert(self.keys()[index as int] == key);
            proof {
                old(self).lemma_absent(key, index as int);
                assert forall|i: int, j: int| 0 <= i < j < self.keys().len() implies self.keys()[i]
                    < self.keys()[j] by {
                    if j < index {
                        assert(before[i] < before[j]);
                    } else if j == index {
                        assert(before[i] < key);
                    } else if i < index {
                        assert(before[i] < before[j - 1]);
                    } else if i == index {
                        assert(before.contains(before[j - 1]));
                        assert(before[j - 1] >= key);
                    } else {
                        assert(before[i - 1] < before[j - 1]);
                    }
                }
                assert(self.wf());
                self.lemma_holds_at(index as int);
                assert forall|k: usize, p: PoolRef| k != key implies (#[trigger] self.holds(k, p)
                    <==> old(self).holds(k, p)) by {
                    if self.holds(k, p) {
                        let i = self.lemma_held_at(k, p);
                        if i < index {
                            assert(old(self).keys()[i] == k && old(self).refs()[i] == p);
                        } else {
                            assert(old(self).keys()[i - 1] == k && old(self).refs()[i - 1] == p);
                        }
                    }
                    if old(self).holds(k, p) {
                        let i = old(self).lemma_held_at(k, p);
                        if i < index {
                            assert(self.keys()[i] == k && self.refs()[i] == p);
                        } else {
                            assert(self.keys()[i + 1] == k && self.refs()[i + 1] == p);
                        }
                    }
                }
            }
            assert forall|k: usize| before.contains(k) implies self.keys().contains(k) by {
                let i = choose|i: int| 0 <= i < before.len() && before[i] == k;
                if i < index {
                    assert(self.keys()[i] == k);
                } else {
                    assert(self.keys()[i + 1] == k);
                }
            }
            proof {
                old(self).lemma_absent(key, index as int);
            }
        }
    }

    /// Forgets the pool recorded under `key`, if there is one.
    pub fn remove(&mut self, key: usize)
        requires
            old(self).wf(),
        ensures
            final(self).wf(),
            forall|k: usize|
                final(self).keys().contains(k) <==> old(self).keys().contains(k) && k != key,
            forall|k: usize, p: PoolRef|
                #[trigger] final(self).holds(k, p) <==> old(self).holds(k, p) && k != key,
    {
        let index = self.lower_bound(key);
        let ghost before = self.keys();
        let ghost pools = self.refs();
        if index < self.entries.len() && self.entries[index].base == key {
            self.entries.remove(index);
            assert(self.keys() =~= before.remove(index as int));
            assert(self.refs() =~= pools.remove(index as int));
            proof {
                assert forall|k: usize, p: PoolRef| #[trigger]
                    self.holds(k, p) <==> old(self).holds(k, p) && k != key by {
                    if self.holds(k, p) {
                        let i = self.lemma_held_at(k, p);
                        if i < index {
                            assert(old(self).keys()[i] == k && old(self).refs()[i] == p);
                        } else {
                            assert(old(self).keys()[i + 1] == k && old(self).refs()[i + 1] == p);
                            assert(before[index as int] < before[i + 1]);
                        }
                    }
                    if old(self).holds(k, p) && k != key {
                        let i = old(self).lemma_held_at(k, p);
                        if i < index {
                            assert(self.keys()[i] == k && self.refs()[i] == p);
                        } else {
                            assert(self.keys()[i - 1] == k && self.refs()[i - 1] == p);
                        }
                    }
                }
            }
            assert forall|k: usize| self.keys().contains(k) implies before.contains(k) && k
                != key by {
                let i = choose|i: int| 0 <= i < self.keys().len() && self.keys()[i] == k;
                if i < index {
                    assert(before[i] == k);
                } else {
                    assert(before[i + 1] == k);
                    assert(before[index as int] < before[i + 1]);
                }
            }
            assert forall|k: usize| before.contains(k) && k != key implies self.keys().contains(
                k,
            ) by {
                let i = choose|i: int| 0 <= i < before.len() && before[i] == k;
                if i < index {
                    assert(self.keys()[i] == k);
                } else {
                    assert(self.keys()[i - 1] == k);
                }
            }
        } else {
            proof {
                old(self).lemma_absent(key, index as int);
                assert forall|k: usize, p: PoolRef| #[trigger]
                    self.holds(k, p) <==> old(self).holds(k, p) && k != key by {
                    if old(self).holds(k, p) {
                        let i = old(self).lemma_held_at(k, p);
                        assert(old(self).keys().contains(k));
                    }
                }
            }
        }
    }
}

} // verus!
