//! A finite map kept as a list of key/value pairs in insertion order.
//!
//! Its mathematical model is a `Map` from key views to values; `order` is the
//! sequence of key views in the order in which they were first inserted.

use crate::util::bytes::arrays_equal;
use vstd::prelude::*;

verus! {

/// A key that can be compared by its view.
pub trait TableKey: View + Sized {
    /// Whether both keys have the same view.
    fn same_key(&self, other: &Self) -> (r: bool)
        ensures
            r == (self@ == other@),
    ;
}

impl<const N: usize> TableKey for [u8; N] {
    fn same_key(&self, other: &Self) -> (r: bool) {
        arrays_equal(self, other)
    }
}

impl TableKey for String {
    fn same_key(&self, other: &Self) -> (r: bool) {
        *self == *other
    }
}

/// Key/value pairs with pairwise distinct keys, in insertion order.
#[derive(Debug)]
pub struct Table<K, V> {
    entries: Vec<(K, V)>,
}

impl<K: TableKey, V> View for Table<K, V> {
    type V = Map<K::V, V>;

    closed spec fn view(&self) -> Map<K::V, V> {
        Map::new(
            |k: K::V| self.order().contains(k),
            |k: K::V| self.entries@[self.order().index_of(k)].1,
        )
    }
}

impl<K: TableKey, V> Table<K, V> {
    /// The keys, oldest first.
    pub closed spec fn order(&self) -> Seq<K::V> {
        self.entries@.map_values(|e: (K, V)| e.0@)
    }

    /// No key occurs twice.
    pub closed spec fn wf(&self) -> bool {
        self.order().no_duplicates()
    }

    /// The model of a well-formed table: its domain is the set of ordered keys,
    /// and it is finite.
    pub proof fn lemma_model(&self)
        requires
            self.wf(),
        ensures
            self.order().no_duplicates(),
            self@.dom() == self.order().to_set(),
            self@.dom().finite(),
            self@.dom().len() == self.order().len(),
    {
        self.order().unique_seq_to_set();
        assert(self@.dom() =~= self.order().to_set());
    }

    proof fn lemma_entry(&self, i: int)
        requires
            self.wf(),
            0 <= i < self.entries@.len(),
        ensures
            self.order().len() == self.entries@.len(),
            self.order()[i] == self.entries@[i].0@,
            self.order().index_of(self.entries@[i].0@) == i,
            self@.contains_key(self.entries@[i].0@),
            self@[self.entries@[i].0@] == self.entries@[i].1,
    {
        let k = self.entries@[i].0@;
        assert(self.order()[i] == k);
        assert(self.order().contains(k));
        assert(self.order().to_set().contains(k));
    }

    /// An empty table.
    pub fn new() -> (r: Self)
        ensures
            r.wf(),
            r@ == Map::<K::V, V>::empty(),
            r.order() == Seq::<K::V>::empty(),
    {
        let r = Table { entries: Vec::new() };
        assert(r.order() =~= Seq::<K::V>::empty());
        assert(r@ =~= Map::<K::V, V>::empty());
        r
    }

    /// Number of keys.
    pub fn len(&self) -> (n: usize)
        requires
            self.wf(),
        ensures
            n == self@.dom().len(),
            n == self.order().len(),
    {
        proof {
            self.lemma_model();
        }
        self.entries.len()
    }

    /// Whether there are no keys.
    pub fn is_empty(&self) -> (b: bool)
        requires
            self.wf(),
        ensures
            b == (self@.dom().len() == 0),
            b == (self.order().len() == 0),
    {
        self.len() == 0
    }

    fn find(&self, key: &K) -> (r: Option<usize>)
        requires
            self.wf(),
        ensures
            match r {
                Some(i) => i < self.entries@.len() && self.entries@[i as int].0@ == key@
                    && self@.contains_key(key@) && self@[key@] == self.entries@[i as int].1
                    && self.order()[i as int] == key@ && self.order().len() == self.entries@.len(),
                None => !self@.contains_key(key@) && !self.order().contains(key@),
            },
    {
        let mut i: usize = 0;
        while i < self.entries.len()
            invariant
                self.wf(),
                i <= self.entries@.len(),
                forall|j: int| 0 <= j < i ==> (#[trigger] self.entries@[j]).0@ != key@,
            decreases self.entries@.len() - i,
        {
            if self.entries[i].0.same_key(key) {
                proof {
                    self.lemma_entry(i as int);
                }
                return Some(i);
            }
            i += 1;
        }
        proof {
            assert forall|j: int| 0 <= j < self.order().len() implies self.order()[j] != key@ by {
                assert(self.order()[j] == self.entries@[j].0@);
            }
        }
        None
    }

    /// Whether `key` is present.
    pub fn contains_key(&self, key: &K) -> (b: bool)
        requires
            self.wf(),
        ensures
            b == self@.contains_key(key@),
    {
        self.find(key).is_some()
    }

    /// The value at `key`.
    pub fn get(&self, key: &K) -> (r: Option<&V>)
        requires
            self.wf(),
        ensures
            match r {
                Some(v) => self@.contains_key(key@) && *v == self@[key@],
                None => !self@.contains_key(key@),
            },
    {
        match self.find(key) {
            Some(i) => Some(&self.entries[i].1),
            None => None,
        }
    }

    /// The key at position `i` of the insertion order.
    pub fn key_at(&self, i: usize) -> (r: &K)
        requires
            self.wf(),
            i < self.order().len(),
        ensures
            r@ == self.order()[i as int],
            self@.contains_key(r@),
    {
        proof {
            self.lemma_entry(i as int);
        }
        &self.entries[i].0
    }

    /// The value at position `i` of the insertion order.
    pub fn value_at(&self, i: usize) -> (r: &V)
        requires
            self.wf(),
            i < self.order().len(),
        ensures
            self@.contains_key(self.order()[i as int]),
            *r == self@[self.order()[i as int]],
    {
        proof {
            self.lemma_entry(i as int);
        }
        &self.entries[i].1
    }

    /// Replaces the value at position `i` of the insertion order.
    pub fn set_value_at(&mut self, i: usize, value: V)
        requires
            old(self).wf(),
            i < old(self).order().len(),
        ensures
            final(self).wf(),
            final(self).order() == old(self).order(),
            final(self)@ == old(self)@.insert(old(self).order()[i as int], value),
    {
        let ghost before = *self;
        proof {
            self.lemma_entry(i as int);
        }
        self.entries[i].1 = value;
        proof {
            assert(self.order() =~= before.order());
            lemma_update(before, *self, i as int);
        }
    }

    /// Sets the value at `key`; returns the value it replaces.
    pub fn insert(&mut self, key: K, value: V) -> (r: Option<V>)
        requires
            old(self).wf(),
        ensures
            final(self).wf(),
            final(self)@ == old(self)@.insert(key@, value),
            final(self).order() == (if old(self)@.contains_key(key@) {
                old(self).order()
            } else {
                old(self).order().push(key@)
            }),
            match r {
                Some(v) => old(self)@.contains_key(key@) && v == old(self)@[key@],
                None => !old(self)@.contains_key(key@),
            },
    {
        let ghost before = *self;
        match self.find(&key) {
            Some(i) => {
                let mut slot = value;
                std::mem::swap(&mut self.entries[i].1, &mut slot);
                proof {
                    assert(self.order() =~= before.order());
                    lemma_update(before, *self, i as int);
                }
                Some(slot)
            },
            None => {
                self.entries.push((key, value));
                proof {
                    lemma_push(before, *self);
                }
                None
            },
        }
    }

    /// Removes `key`; returns the value it had.
    pub fn remove(&mut self, key: &K) -> (r: Option<V>)
        requires
            old(self).wf(),
        ensures
            final(self).wf(),
            final(self)@ == old(self)@.remove(key@),
            final(self).order() == old(self).order().filter(|k: K::V| k != key@),
            match r {
                Some(v) => old(self)@.contains_key(key@) && v == old(self)@[key@],
                None => !old(self)@.contains_key(key@),
            },
    {
        let ghost before = *self;
        match self.find(key) {
            Some(i) => {
                let (_k, v) = self.entries.remove(i);
                proof {
                    lemma_remove(before, *self, i as int);
                }
                Some(v)
            },
            None => {
                proof {
                    assert(self@ =~= self@.remove(key@));
                    lemma_filter_absent(self.order(), key@);
                }
                None
            },
        }
    }
}

impl<K: TableKey + Copy, V: Copy> Clone for Table<K, V> {
    fn clone(&self) -> (r: Self)
        ensures
            r.wf() == self.wf(),
            r@ == self@,
            r.order() == self.order(),
    {
        let mut entries: Vec<(K, V)> = Vec::new();
        let mut i: usize = 0;
        while i < self.entries.len()
            invariant
                i <= self.entries@.len(),
                entries@ == self.entries@.take(i as int),
            decreases self.entries@.len() - i,
        {
            entries.push((self.entries[i].0, self.entries[i].1));
            assert(entries@ =~= self.entries@.take(i + 1));
            i += 1;
        }
        assert(entries@ =~= self.entries@);
        Table { entries }
    }
}

proof fn lemma_update<K: TableKey, V>(a: Table<K, V>, b: Table<K, V>, i: int)
    requires
        a.wf(),
        0 <= i < a.entries@.len(),
        a.order() == b.order(),
        b.entries@ == a.entries@.update(i, (a.entries@[i].0, b.entries@[i].1)),
    ensures
        b.wf(),
        b@ == a@.insert(a.order()[i], b.entries@[i].1),
{
    let k = a.order()[i];
    a.lemma_entry(i);
    b.lemma_entry(i);
    assert forall|x: K::V| #[trigger] b@.contains_key(x) implies b@[x] == a@.insert(
        k,
        b.entries@[i].1,
    )[x] by {
        let j = b.order().index_of(x);
        b.lemma_entry(j);
        a.lemma_entry(j);
    }
    assert(b@ =~= a@.insert(k, b.entries@[i].1));
}

proof fn lemma_push<K: TableKey, V>(a: Table<K, V>, b: Table<K, V>)
    requires
        a.wf(),
        b.entries@.len() == a.entries@.len() + 1,
        b.entries@ == a.entries@.push(b.entries@.last()),
        !a.order().contains(b.entries@.last().0@),
    ensures
        b.wf(),
        b.order() == a.order().push(b.entries@.last().0@),
        b@ == a@.insert(b.entries@.last().0@, b.entries@.last().1),
{
    let k = b.entries@.last().0@;
    let n = a.entries@.len() as int;
    assert(b.order() =~= a.order().push(k));
    assert(b.wf());
    b.lemma_entry(n);
    assert forall|x: K::V| #[trigger] a@.contains_key(x) implies b@.contains_key(x) && b@[x]
        == a@[x] by {
        let j = a.order().index_of(x);
        a.lemma_entry(j);
        b.lemma_entry(j);
    }
    assert forall|x: K::V| #[trigger] b@.contains_key(x) implies x == k || a@.contains_key(x) by {
        let j = b.order().index_of(x);
        b.lemma_entry(j);
        if j < n {
            a.lemma_entry(j);
        }
    }
    assert(b@ =~= a@.insert(k, b.entries@.last().1));
}

proof fn lemma_remove<K: TableKey, V>(a: Table<K, V>, b: Table<K, V>, i: int)
    requires
        a.wf(),
        0 <= i < a.entries@.len(),
        b.entries@ == a.entries@.remove(i),
    ensures
        b.wf(),
        b.order() == a.order().filter(|k: K::V| k != a.order()[i]),
        b@ == a@.remove(a.order()[i]),
{
    let k = a.order()[i];
    assert(b.order() =~= a.order().remove(i));
    assert(b.wf());
    lemma_filter_remove(a.order(), i);
    assert forall|x: K::V| #[trigger] b@.contains_key(x) implies a@.contains_key(x) && x != k
        && b@[x] == a@[x] by {
        let j = b.order().index_of(x);
        b.lemma_entry(j);
        if j < i {
            a.lemma_entry(j);
        } else {
            a.lemma_entry(j + 1);
        }
    }
    assert forall|x: K::V| #[trigger] a@.contains_key(x) && x != k implies b@.contains_key(x) by {
        let j = a.order().index_of(x);
        a.lemma_entry(j);
        a.lemma_entry(i);
        if j < i {
            b.lemma_entry(j);
        } else {
            b.lemma_entry(j - 1);
        }
    }
    assert(b@ =~= a@.remove(k));
}

/// Filtering out an element that is not there changes nothing.
pub proof fn lemma_filter_absent<A>(s: Seq<A>, x: A)
    requires
        !s.contains(x),
    ensures
        s.filter(|k: A| k != x) == s,
    decreases s.len(),
{
    reveal(Seq::filter);
    let p = |k: A| k != x;
    if s.len() > 0 {
        assert(!s.drop_last().contains(x)) by {
            if s.drop_last().contains(x) {
                let j = s.drop_last().index_of(x);
                assert(s[j] == x);
            }
        }
        lemma_filter_absent(s.drop_last(), x);
        assert(s.last() == s[s.len() - 1]);
        assert(s.drop_last().push(s.last()) =~= s);
    } else {
        assert(s.filter(p) =~= s);
    }
}

/// Filtering out one element of a sequence without duplicates removes its position.
pub proof fn lemma_filter_remove<A>(s: Seq<A>, i: int)
    requires
        s.no_duplicates(),
        0 <= i < s.len(),
    ensures
        s.filter(|k: A| k != s[i]) == s.remove(i),
    decreases s.len(),
{
    reveal(Seq::filter);
    let x = s[i];
    let p = |k: A| k != x;
    let t = s.drop_last();
    if i == s.len() - 1 {
        assert(!t.contains(x)) by {
            if t.contains(x) {
                let j = t.index_of(x);
                assert(s[j] == x);
            }
        }
        lemma_filter_absent(t, x);
        assert(s.remove(i) =~= t);
    } else {
        assert(t[i] == x);
        lemma_filter_remove(t, i);
        assert(s.last() == s[s.len() - 1]);
        assert(s.remove(i) =~= t.remove(i).push(s.last()));
    }
}

} // verus!
