use std::collections::HashMap;
use vstd::prelude::*;

verus! {

broadcast use vstd::std_specs::hash::group_hash_axioms;

/// `m` after an insert of `v` at `k` into a table that holds at most `cap`
/// entries: an existing key is overwritten, a new key is added only while
/// there is room, and otherwise the table stays as it was.
pub open spec fn upsert<V>(m: Map<u64, V>, cap: nat, k: u64, v: V) -> Map<u64, V> {
    if m.contains_key(k) || m.len() < cap {
        m.insert(k, v)
    } else {
        m
    }
}

/// The value stored at `k`, or zero when `k` is absent.
pub open spec fn stored_or_zero(m: Map<u64, u64>, k: u64) -> u64 {
    if m.contains_key(k) {
        m[k]
    } else {
        0
    }
}

/// `m` after `n` bytes are added to the counter at `k` in a table of
/// capacity `cap` (the counter saturates rather than wraps).
pub open spec fn add_bytes(m: Map<u64, u64>, cap: nat, k: u64, n: u64) -> Map<u64, u64> {
    upsert(m, cap, k, stored_or_zero(m, k).saturating_add(n))
}

/// The value stored at `k`, if any.
pub open spec fn entry<V>(m: Map<u64, V>, k: u64) -> Option<V> {
    if m.contains_key(k) {
        Some(m[k])
    } else {
        None
    }
}

/// A fixed-capacity table keyed by integers. Inserting a new key into a
/// full table is refused; there is no eviction. The keys can be walked in
/// the order they were first stored.
pub struct BoundedTable<V> {
    entries: HashMap<u64, V>,
    order: Vec<u64>,
    capacity: usize,
}

impl<V> View for BoundedTable<V> {
    type V = Map<u64, V>;

    closed spec fn view(&self) -> Map<u64, V> {
        self.entries@
    }
}

impl<V: Copy> BoundedTable<V> {
    /// The most entries the table can hold.
    pub closed spec fn cap(&self) -> nat {
        self.capacity as nat
    }

    /// The keys in the order they were first stored.
    pub closed spec fn keys(&self) -> Seq<u64> {
        self.order@
    }

    /// The table holds no more entries than its capacity, and the key order
    /// lists each key of the table once.
    pub closed spec fn wf(&self) -> bool {
        &&& self.entries@.len() <= self.capacity
        &&& self.order@.no_duplicates()
        &&& forall|i: int| 0 <= i < self.order@.len() ==> self.entries@.contains_key(#[trigger] self.order@[i])
        &&& forall|k: u64| #[trigger] self.entries@.contains_key(k) ==> self.order@.contains(k)
    }

    /// The table is finite and holds no more entries than its capacity.
    pub proof fn lemma_bounded(&self)
        requires
            self.wf(),
        ensures
            self@.dom().finite(),
            self@.len() <= self.cap(),
    {
    }

    /// Each listed key is in the table, and each key of the table is listed.
    pub proof fn lemma_keys(&self)
        requires
            self.wf(),
        ensures
            self.keys().no_duplicates(),
            forall|i: int| 0 <= i < self.keys().len() ==> self@.contains_key(#[trigger] self.keys()[i]),
            forall|k: u64| #[trigger] self@.contains_key(k) ==> self.keys().contains(k),
    {
    }

    /// The number of listed keys.
    pub fn key_count(&self) -> (r: usize)
        ensures
            r == self.keys().len(),
    {
        self.order.len()
    }

    /// The `i`-th key in the order the keys were first stored.
    pub fn key_at(&self, i: usize) -> (r: u64)
        requires
            i < self.keys().len(),
        ensures
            r == self.keys()[i as int],
    {
        self.order[i]
    }

    /// An empty table that holds at most `capacity` entries.
    pub fn new(capacity: usize) -> (r: Self)
        ensures
            r.wf(),
            r@ == Map::<u64, V>::empty(),
            r.keys() == Seq::<u64>::empty(),
            r.cap() == capacity,
    {
        BoundedTable { entries: HashMap::new(), order: Vec::new(), capacity }
    }

    /// The most entries the table can hold.
    pub fn capacity(&self) -> (r: usize)
        ensures
            r == self.cap(),
    {
        self.capacity
    }

    /// The number of entries.
    pub fn len(&self) -> (r: usize)
        ensures
            r == self@.len(),
    {
        self.entries.len()
    }

    /// The value stored at `k`, if any.
    pub fn get(&self, k: u64) -> (r: Option<V>)
        ensures
            r == (if self@.contains_key(k) {
                Some(self@[k])
            } else {
                None
            }),
    {
        match self.entries.get(&k) {
            Some(v) => Some(*v),
            None => None,
        }
    }

    /// Stores `v` at `k`, overwriting what was there. A new key is refused
    /// when the table is full; the result says whether `v` was stored.
    pub fn insert(&mut self, k: u64, v: V) -> (stored: bool)
        requires
            old(self).wf(),
        ensures
            final(self).wf(),
            final(self).cap() == old(self).cap(),
            final(self)@ == upsert(old(self)@, old(self).cap(), k, v),
            stored == (old(self)@.contains_key(k) || old(self)@.len() < old(self).cap()),
            final(self).keys() == (if stored && !old(self)@.contains_key(k) {
                old(self).keys().push(k)
            } else {
                old(self).keys()
            }),
    {
        if self.entries.contains_key(&k) {
            self.entries.insert(k, v);
            true
        } else if self.entries.len() < self.capacity {
            self.entries.insert(k, v);
            self.order.push(k);
            proof {
                assert forall|i: int| 0 <= i < self.order@.len() implies self.entries@.contains_key(
                    #[trigger] self.order@[i],
                ) by {
                    if i < self.order@.len() - 1 {
                        assert(old(self).entries@.contains_key(old(self).order@[i]));
                    }
                }
                assert forall|j: u64| #[trigger] self.entries@.contains_key(j) implies self.order@.contains(j) by {
                    if j == k {
                        assert(self.order@[self.order@.len() - 1] == k);
                    } else {
                        assert(old(self).entries@.contains_key(j));
                        let i = choose|i: int| 0 <= i < old(self).order@.len() && old(self).order@[i] == j;
                        assert(self.order@[i] == j);
                    }
                }
            }
            true
        } else {
            false
        }
    }
}

} // verus!
