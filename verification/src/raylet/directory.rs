//! Which nodes hold a copy of an object.

use crate::util::idset::IdSet;
use crate::util::table::Table;
use vstd::prelude::*;

verus! {

/// The holders of `object` after `node` was noted as one.
pub open spec fn dir_register(
    d: Map<Seq<u8>, Set<Seq<u8>>>,
    object: Seq<u8>,
    node: Seq<u8>,
) -> Map<Seq<u8>, Set<Seq<u8>>> {
    d.insert(object, dir_holders(d, object).insert(node))
}

/// The directory after `node` is no longer a holder of `object`: an object without
/// holders has no entry.
pub open spec fn dir_remove(d: Map<Seq<u8>, Set<Seq<u8>>>, object: Seq<u8>, node: Seq<u8>) -> Map<
    Seq<u8>,
    Set<Seq<u8>>,
> {
    let rest = dir_holders(d, object).remove(node);
    if rest == Set::<Seq<u8>>::empty() {
        d.remove(object)
    } else {
        d.insert(object, rest)
    }
}

/// The holders of an object.
pub open spec fn dir_holders(d: Map<Seq<u8>, Set<Seq<u8>>>, object: Seq<u8>) -> Set<Seq<u8>> {
    if d.contains_key(object) {
        d[object]
    } else {
        Set::empty()
    }
}

/// From object to the nodes that hold it. Every object that occurs has a holder.
#[derive(Debug)]
pub struct ObjectDirectory {
    inner: Table<[u8; 28], IdSet<[u8; 16]>>,
}

impl View for ObjectDirectory {
    type V = Map<Seq<u8>, Set<Seq<u8>>>;

    closed spec fn view(&self) -> Map<Seq<u8>, Set<Seq<u8>>> {
        self.inner@.map_values(|s: IdSet<[u8; 16]>| s@)
    }
}

impl ObjectDirectory {
    /// The tables are well formed, and no object is without holders.
    pub closed spec fn wf(&self) -> bool {
        &&& self.inner.wf()
        &&& forall|k: Seq<u8>| #[trigger]
            self.inner@.contains_key(k) ==> self.inner@[k].wf() && self.inner@[k]@ != Set::<
                Seq<u8>,
            >::empty()
    }

    /// No object of a well-formed directory is without holders, and there are finitely many
    /// of either.
    pub proof fn lemma_model(&self)
        requires
            self.wf(),
        ensures
            self@.dom().finite(),
            forall|k: Seq<u8>| #[trigger]
                self@.contains_key(k) ==> self@[k].finite() && self@[k] != Set::<Seq<u8>>::empty(),
    {
        self.inner.lemma_model();
        assert(self@.dom() =~= self.inner@.dom());
        assert forall|k: Seq<u8>| #[trigger] self@.contains_key(k) implies self@[k].finite()
            && self@[k] != Set::<Seq<u8>>::empty() by {
            assert(self.inner@.contains_key(k));
            self.inner@[k].lemma_model();
        }
    }

    /// A directory without objects.
    pub fn new() -> (r: Self)
        ensures
            r.wf(),
            r@ == Map::<Seq<u8>, Set<Seq<u8>>>::empty(),
    {
        let r = ObjectDirectory { inner: Table::new() };
        assert(r@ =~= Map::<Seq<u8>, Set<Seq<u8>>>::empty());
        r
    }

    /// Notes that `node_id` holds `object_id`.
    pub fn register(&mut self, object_id: [u8; 28], node_id: [u8; 16])
        requires
            old(self).wf(),
        ensures
            final(self).wf(),
            final(self)@ == dir_register(old(self)@, object_id@, node_id@),
    {
        let mut holders: IdSet<[u8; 16]> = match self.inner.get(&object_id) {
            Some(set) => set.clone(),
            None => IdSet::new(),
        };
        assert(holders@ == dir_holders(self@, object_id@));
        holders.insert(node_id);
        assert(holders@.contains(node_id@));
        self.inner.insert(object_id, holders);
        assert(self@ =~= dir_register(old(self)@, object_id@, node_id@));
    }

    /// Notes that `node_id` no longer holds `object_id`.
    pub fn remove(&mut self, object_id: [u8; 28], node_id: [u8; 16])
        requires
            old(self).wf(),
        ensures
            final(self).wf(),
            final(self)@ == dir_remove(old(self)@, object_id@, node_id@),
    {
        let mut holders: IdSet<[u8; 16]> = match self.inner.get(&object_id) {
            None => {
                proof {
                    assert(Set::<Seq<u8>>::empty().remove(node_id@) =~= Set::<Seq<u8>>::empty());
                    assert(self@.remove(object_id@) =~= self@);
                }
                return ;
            },
            Some(set) => set.clone(),
        };
        assert(holders@ == dir_holders(self@, object_id@));
        holders.remove(&node_id);
        if holders.is_empty() {
            self.inner.remove(&object_id);
        } else {
            self.inner.insert(object_id, holders);
        }
        assert(self@ =~= dir_remove(old(self)@, object_id@, node_id@));
    }

    /// The nodes that hold an object, once each.
    pub fn locations(&self, object_id: &[u8; 28]) -> (r: Vec<[u8; 16]>)
        requires
            self.wf(),
        ensures
            r@.map_values(|n: [u8; 16]| n@).to_set() == dir_holders(self@, object_id@),
            r@.map_values(|n: [u8; 16]| n@).no_duplicates(),
    {
        match self.inner.get(object_id) {
            Some(set) => {
                proof {
                    set.lemma_model();
                }
                set.to_vec()
            },
            None => {
                let r: Vec<[u8; 16]> = Vec::new();
                assert(r@.map_values(|n: [u8; 16]| n@).to_set() =~= Set::<Seq<u8>>::empty());
                r
            },
        }
    }

    /// Number of objects with a holder.
    pub fn len(&self) -> (n: usize)
        requires
            self.wf(),
        ensures
            n == self@.dom().len(),
    {
        proof {
            self.inner.lemma_model();
            assert(self@.dom() =~= self.inner@.dom());
        }
        self.inner.len()
    }
}

/// Noting a holder again changes nothing.
pub proof fn law_register_idempotent(d: Map<Seq<u8>, Set<Seq<u8>>>, object: Seq<u8>, node: Seq<u8>)
    ensures
        dir_register(dir_register(d, object, node), object, node) == dir_register(d, object, node),
{
    let once = dir_register(d, object, node);
    assert(once[object].insert(node) =~= once[object]);
    assert(dir_register(once, object, node) =~= once);
}

/// A noted holder is found, beside those that were noted before.
pub proof fn law_register_adds(d: Map<Seq<u8>, Set<Seq<u8>>>, object: Seq<u8>, node: Seq<u8>)
    ensures
        dir_holders(dir_register(d, object, node), object) == dir_holders(d, object).insert(node),
{
}

/// A removed holder is not found, and the others still are.
pub proof fn law_remove_takes(d: Map<Seq<u8>, Set<Seq<u8>>>, object: Seq<u8>, node: Seq<u8>)
    ensures
        dir_holders(dir_remove(d, object, node), object) == dir_holders(d, object).remove(node),
{
}

/// Noting a new holder and removing it leaves the directory as it was.
pub proof fn law_register_and_remove(d: Map<Seq<u8>, Set<Seq<u8>>>, object: Seq<u8>, node: Seq<u8>)
    requires
        !dir_holders(d, object).contains(node),
        d.contains_key(object) ==> d[object] != Set::<Seq<u8>>::empty(),
    ensures
        dir_remove(dir_register(d, object, node), object, node) == d,
{
    assert(dir_holders(d, object).insert(node).remove(node) =~= dir_holders(d, object));
    assert(dir_remove(dir_register(d, object, node), object, node) =~= d);
}

/// Holders of other objects are left alone.
pub proof fn law_directory_is_local(
    d: Map<Seq<u8>, Set<Seq<u8>>>,
    object: Seq<u8>,
    node: Seq<u8>,
    other: Seq<u8>,
)
    requires
        other != object,
    ensures
        dir_holders(dir_register(d, object, node), other) == dir_holders(d, other),
        dir_holders(dir_remove(d, object, node), other) == dir_holders(d, other),
{
}

/// Removing a holder again changes nothing.
pub proof fn law_remove_idempotent(d: Map<Seq<u8>, Set<Seq<u8>>>, object: Seq<u8>, node: Seq<u8>)
    requires
        d.contains_key(object) ==> d[object] != Set::<Seq<u8>>::empty(),
    ensures
        dir_remove(dir_remove(d, object, node), object, node) == dir_remove(d, object, node),
{
    let once = dir_remove(d, object, node);
    assert(dir_holders(once, object).remove(node) =~= dir_holders(once, object));
    assert(dir_remove(once, object, node) =~= once);
}

/// A node holds an object after it was noted exactly where it is that node or held it before,
/// and after a removal exactly where it is another node and held it before.
pub proof fn law_holders_one_by_one(
    d: Map<Seq<u8>, Set<Seq<u8>>>,
    object: Seq<u8>,
    node: Seq<u8>,
    holder: Seq<u8>,
)
    ensures
        dir_holders(d, object).contains(holder) <==> d.contains_key(object) && d[object].contains(
            holder,
        ),
        dir_holders(dir_register(d, object, node), object).contains(holder) <==> holder == node
            || dir_holders(d, object).contains(holder),
        dir_holders(dir_remove(d, object, node), object).contains(holder) <==> holder != node
            && dir_holders(d, object).contains(holder),
{
    let rest = dir_holders(d, object).remove(node);
    assert(rest.contains(holder) == (holder != node && dir_holders(d, object).contains(holder)));
    if rest == Set::<Seq<u8>>::empty() {
        assert(!rest.contains(holder));
    }
}

/// An object has an entry exactly while some node holds it.
pub proof fn law_entries_have_holders(
    d: Map<Seq<u8>, Set<Seq<u8>>>,
    object: Seq<u8>,
    node: Seq<u8>,
    other: Seq<u8>,
)
    requires
        other != object,
    ensures
        dir_register(d, object, node).contains_key(object),
        dir_remove(d, object, node).contains_key(object) <==> exists|n: Seq<u8>|
            n != node && #[trigger] dir_holders(d, object).contains(n),
        dir_register(d, object, node).contains_key(other) == d.contains_key(other),
        dir_remove(d, object, node).contains_key(other) == d.contains_key(other),
{
    let rest = dir_holders(d, object).remove(node);
    if rest == Set::<Seq<u8>>::empty() {
        assert forall|n: Seq<u8>| n != node implies !#[trigger] dir_holders(d, object).contains(
            n,
        ) by {
            assert(!rest.contains(n));
        }
    } else {
        if forall|n: Seq<u8>| n != node ==> !#[trigger] dir_holders(d, object).contains(n) {
            assert(rest =~= Set::<Seq<u8>>::empty());
        }
    }
}

} // verus!
