//! A finite set of keys, in insertion order.

use crate::util::table::{Table, TableKey};
use vstd::prelude::*;

verus! {

/// Distinct keys, in insertion order.
#[derive(Debug)]
pub struct IdSet<K> {
    table: Table<K, ()>,
}

impl<K: TableKey> View for IdSet<K> {
    type V = Set<K::V>;

    closed spec fn view(&self) -> Set<K::V> {
        self.table@.dom()
    }
}

impl<K: TableKey> IdSet<K> {
    /// The elements, oldest first.
    pub closed spec fn order(&self) -> Seq<K::V> {
        self.table.order()
    }

    /// No element occurs twice.
    pub closed spec fn wf(&self) -> bool {
        self.table.wf()
    }

    /// The model of a well-formed set is finite and holds the ordered elements.
    pub proof fn lemma_model(&self)
        requires
            self.wf(),
        ensures
            self.order().no_duplicates(),
            self@ == self.order().to_set(),
            self@.finite(),
            self@.len() == self.order().len(),
    {
        self.table.lemma_model();
    }

    /// The empty set.
    pub fn new() -> (r: Self)
        ensures
            r.wf(),
            r@ == Set::<K::V>::empty(),
            r.order() == Seq::<K::V>::empty(),
    {
        let r = IdSet { table: Table::new() };
        assert(r@ =~= Set::<K::V>::empty());
        r
    }

    /// Number of elements.
    pub fn len(&self) -> (n: usize)
        requires
            self.wf(),
        ensures
            n == self@.len(),
            n == self.order().len(),
    {
        self.table.len()
    }

    /// Whether there are no elements.
    pub fn is_empty(&self) -> (b: bool)
        requires
            self.wf(),
        ensures
            b == (self@ == Set::<K::V>::empty()),
    {
        let b = self.table.is_empty();
        proof {
            self.lemma_model();
            if b {
                assert(self@ =~= Set::<K::V>::empty());
            }
        }
        b
    }

    /// Whether `key` is an element.
    pub fn contains(&self, key: &K) -> (b: bool)
        requires
            self.wf(),
        ensures
            b == self@.contains(key@),
    {
        self.table.contains_key(key)
    }

    /// Adds `key`; `true` where it was not there before.
    pub fn insert(&mut self, key: K) -> (b: bool)
        requires
            old(self).wf(),
        ensures
            final(self).wf(),
            final(self)@ == old(self)@.insert(key@),
            final(self).order() == (if old(self)@.contains(key@) {
                old(self).order()
            } else {
                old(self).order().push(key@)
            }),
            b == !old(self)@.contains(key@),
    {
        let r = self.table.insert(key, ());
        assert(self@ =~= old(self)@.insert(key@));
        r.is_none()
    }

    /// Removes `key`; `true` where it was there.
    pub fn remove(&mut self, key: &K) -> (b: bool)
        requires
            old(self).wf(),
        ensures
            final(self).wf(),
            final(self)@ == old(self)@.remove(key@),
            final(self).order() == old(self).order().filter(|k: K::V| k != key@),
            b == old(self)@.contains(key@),
    {
        let r = self.table.remove(key);
        assert(self@ =~= old(self)@.remove(key@));
        r.is_some()
    }

    /// The element at position `i` of the insertion order.
    pub fn at(&self, i: usize) -> (r: &K)
        requires
            self.wf(),
            i < self.order().len(),
        ensures
            r@ == self.order()[i as int],
            self@.contains(r@),
    {
        self.table.key_at(i)
    }
}

impl<K: TableKey + Copy> IdSet<K> {
    /// The elements as a vector, oldest first.
    pub fn to_vec(&self) -> (r: Vec<K>)
        requires
            self.wf(),
        ensures
            r@.map_values(|k: K| k@) == self.order(),
    {
        let mut r: Vec<K> = Vec::new();
        let n: usize = self.len();
        let mut i: usize = 0;
        while i < n
            invariant
                self.wf(),
                n == self.order().len(),
                i <= n,
                r@.map_values(|k: K| k@) == self.order().take(i as int),
            decreases n - i,
        {
            let k: K = *self.at(i);
            let ghost before = r@;
            r.push(k);
            proof {
                assert(r@.map_values(|k: K| k@) =~= before.map_values(|k: K| k@).push(k@));
                assert(self.order().take(i + 1) =~= self.order().take(i as int).push(self.order()[i as int]));
            }
            i += 1;
        }
        assert(self.order().take(n as int) =~= self.order());
        r
    }
}

impl<K: TableKey + Copy> Clone for IdSet<K> {
    fn clone(&self) -> (r: Self)
        ensures
            self.wf() ==> r.wf() && r@ == self@ && r.order() == self.order(),
    {
        IdSet { table: self.table.clone() }
    }
}

} // verus!
