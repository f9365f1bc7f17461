//! Owner-side reference counting.
//!
//! An object stays tracked while anything pins it: references that the owner itself
//! holds, workers that have borrowed it, or submitted tasks that still have to read it.
//! The last pin to go removes the entry, and the caller then frees the object.

use crate::kernel::id::{ObjectId, WorkerId};
use crate::util::idset::IdSet;
use crate::util::table::Table;
use vstd::prelude::*;

verus! {

/// Everything that pins one object.
#[derive(Debug)]
pub struct OwnerEntry {
    /// References that the owner holds.
    pub local_count: u64,
    /// Workers that have borrowed the object.
    pub borrowers: IdSet<WorkerId>,
    /// Submitted tasks that take the object as an argument.
    pub submit_dep_count: u64,
}

/// The mathematical content of an entry.
#[verifier::ext_equal]
pub struct EntryModel {
    /// References that the owner holds.
    pub local: nat,
    /// Workers that have borrowed the object.
    pub borrowers: Set<WorkerId>,
    /// Submitted tasks that take the object as an argument.
    pub deps: nat,
}

impl EntryModel {
    /// The entry of an object that nothing pins.
    pub open spec fn empty() -> EntryModel {
        EntryModel { local: 0, borrowers: Set::empty(), deps: 0 }
    }

    /// Whether nothing pins the object.
    pub open spec fn unpinned(self) -> bool {
        self.local == 0 && self.borrowers == Set::<WorkerId>::empty() && self.deps == 0
    }
}

impl View for OwnerEntry {
    type V = EntryModel;

    open spec fn view(&self) -> EntryModel {
        EntryModel {
            local: self.local_count as nat,
            borrowers: self.borrowers@,
            deps: self.submit_dep_count as nat,
        }
    }
}

impl Default for OwnerEntry {
    fn default() -> (r: Self)
        ensures
            r.borrowers.wf(),
            r@ == EntryModel::empty(),
    {
        OwnerEntry { local_count: 0, borrowers: IdSet::new(), submit_dep_count: 0 }
    }
}

impl Clone for OwnerEntry {
    fn clone(&self) -> (r: Self)
        ensures
            self.borrowers.wf() ==> r.borrowers.wf() && r@ == self@,
    {
        OwnerEntry {
            local_count: self.local_count,
            borrowers: self.borrowers.clone(),
            submit_dep_count: self.submit_dep_count,
        }
    }
}

impl OwnerEntry {
    /// Whether every kind of pin has cleared.
    pub fn is_unpinned(&self) -> (b: bool)
        requires
            self.borrowers.wf(),
        ensures
            b == self@.unpinned(),
    {
        self.local_count == 0 && self.borrowers.is_empty() && self.submit_dep_count == 0
    }
}

/// The model of a reference counter: the tracked objects and their pins.
pub type RefModel = Map<ObjectId, EntryModel>;

/// One operation on a reference counter.
pub enum RefOp {
    /// The owner has produced the object.
    AddOwned(ObjectId),
    /// The owner has cloned a reference.
    IncLocal(ObjectId),
    /// The owner has dropped a reference.
    DecLocal(ObjectId),
    /// A worker has borrowed the object.
    AddBorrower(ObjectId, WorkerId),
    /// A worker has dropped its last reference.
    RemoveBorrower(ObjectId, WorkerId),
    /// A task that reads the object was submitted.
    AddSubmitDep(ObjectId),
    /// A submitted task has read the object.
    CompleteSubmitDep(ObjectId),
}

impl RefOp {
    /// The object that the operation is about.
    pub open spec fn id(self) -> ObjectId {
        match self {
            RefOp::AddOwned(id) => id,
            RefOp::IncLocal(id) => id,
            RefOp::DecLocal(id) => id,
            RefOp::AddBorrower(id, _) => id,
            RefOp::RemoveBorrower(id, _) => id,
            RefOp::AddSubmitDep(id) => id,
            RefOp::CompleteSubmitDep(id) => id,
        }
    }

    /// Whether the operation adds a pin, and so may create the entry.
    pub open spec fn creates(self) -> bool {
        self is AddOwned || self is AddBorrower || self is AddSubmitDep
    }

    /// The entry after the operation, before it is dropped for lack of pins.
    pub open spec fn on_entry(self, e: EntryModel) -> EntryModel {
        match self {
            RefOp::AddOwned(_) => EntryModel { local: e.local + 1, ..e },
            RefOp::IncLocal(_) => EntryModel { local: e.local + 1, ..e },
            RefOp::DecLocal(_) => EntryModel {
                local: if e.local == 0 {
                    0
                } else {
                    (e.local - 1) as nat
                },
                ..e
            },
            RefOp::AddBorrower(_, w) => EntryModel { borrowers: e.borrowers.insert(w), ..e },
            RefOp::RemoveBorrower(_, w) => EntryModel { borrowers: e.borrowers.remove(w), ..e },
            RefOp::AddSubmitDep(_) => EntryModel { deps: e.deps + 1, ..e },
            RefOp::CompleteSubmitDep(_) => EntryModel {
                deps: if e.deps == 0 {
                    0
                } else {
                    (e.deps - 1) as nat
                },
                ..e
            },
        }
    }
}

/// The entry of `id`, or the empty entry where it is not tracked.
pub open spec fn entry_or_empty(m: RefModel, id: ObjectId) -> EntryModel {
    if m.contains_key(id) {
        m[id]
    } else {
        EntryModel::empty()
    }
}

/// The counter after an operation: an untracked object is unaffected unless the
/// operation adds a pin, and an entry without pins is dropped.
pub open spec fn ref_step(m: RefModel, op: RefOp) -> RefModel {
    if !m.contains_key(op.id()) && !op.creates() {
        m
    } else {
        let e = op.on_entry(entry_or_empty(m, op.id()));
        if e.unpinned() {
            m.remove(op.id())
        } else {
            m.insert(op.id(), e)
        }
    }
}

/// Whether the operation removes the last pin of its object.
pub open spec fn ref_unpins(m: RefModel, op: RefOp) -> bool {
    m.contains_key(op.id()) && !ref_step(m, op).contains_key(op.id())
}

/// The counter after a sequence of operations.
pub open spec fn ref_run(m: RefModel, ops: Seq<RefOp>) -> RefModel
    decreases ops.len(),
{
    if ops.len() == 0 {
        m
    } else {
        ref_step(ref_run(m, ops.drop_last()), ops.last())
    }
}

/// Every tracked object is pinned.
pub open spec fn all_pinned(m: RefModel) -> bool {
    forall|id: ObjectId| #[trigger] m.contains_key(id) ==> !m[id].unpinned()
}

/// Owner-side table of pins, one per worker.
#[derive(Debug)]
pub struct RefCounter {
    entries: Table<ObjectId, OwnerEntry>,
}

impl View for RefCounter {
    type V = RefModel;

    closed spec fn view(&self) -> RefModel {
        self.entries@.map_values(|e: OwnerEntry| e@)
    }
}

impl Default for RefCounter {
    fn default() -> (r: Self)
        ensures
            r.wf(),
            r@ == RefModel::empty(),
    {
        RefCounter::new()
    }
}

impl RefCounter {
    /// The table is well formed and every tracked object is pinned.
    pub closed spec fn wf(&self) -> bool {
        &&& self.entries.wf()
        &&& forall|id: ObjectId| #[trigger]
            self.entries@.contains_key(id) ==> self.entries@[id].borrowers.wf()
        &&& all_pinned(self@)
    }

    /// Every tracked object of a well-formed counter is pinned.
    pub proof fn law_tracked_is_pinned(&self)
        requires
            self.wf(),
        ensures
            all_pinned(self@),
    {
    }

    /// An empty counter.
    pub fn new() -> (r: Self)
        ensures
            r.wf(),
            r@ == RefModel::empty(),
    {
        let r = RefCounter { entries: Table::new() };
        assert(r@ =~= RefModel::empty());
        r
    }

    fn take(&mut self, id: &ObjectId) -> (r: Option<OwnerEntry>)
        requires
            old(self).wf(),
        ensures
            final(self).wf(),
            final(self)@ == old(self)@.remove(*id),
            match r {
                Some(e) => old(self)@.contains_key(*id) && e@ == old(self)@[*id] && e.borrowers.wf(),
                None => !old(self)@.contains_key(*id),
            },
    {
        let r = self.entries.remove(id);
        assert(self@ =~= old(self)@.remove(*id));
        r
    }

    fn put(&mut self, id: ObjectId, entry: OwnerEntry)
        requires
            old(self).wf(),
            entry.borrowers.wf(),
            !entry@.unpinned(),
        ensures
            final(self).wf(),
            final(self)@ == old(self)@.insert(id, entry@),
    {
        self.entries.insert(id, entry);
        assert(self@ =~= old(self)@.insert(id, entry@));
    }

    /// Stores the changed entry of `id`, or drops it where nothing pins it any more.
    /// Returns whether it was dropped.
    fn settle(&mut self, id: ObjectId, entry: OwnerEntry) -> (freed: bool)
        requires
            old(self).wf(),
            entry.borrowers.wf(),
            !old(self)@.contains_key(id),
        ensures
            final(self).wf(),
            freed == entry@.unpinned(),
            final(self)@ == (if entry@.unpinned() {
                old(self)@
            } else {
                old(self)@.insert(id, entry@)
            }),
    {
        if entry.is_unpinned() {
            true
        } else {
            self.put(id, entry);
            false
        }
    }

    /// The owner has produced `id`: one more local reference, on a fresh entry where it
    /// was not tracked.
    pub fn add_owned(&mut self, id: ObjectId)
        requires
            old(self).wf(),
            entry_or_empty(old(self)@, id).local < u64::MAX,
        ensures
            final(self).wf(),
            final(self)@ == ref_step(old(self)@, RefOp::AddOwned(id)),
            final(self)@.contains_key(id),
            final(self)@[id].local == entry_or_empty(old(self)@, id).local + 1,
    {
        let mut entry = match self.take(&id) {
            Some(e) => e,
            None => OwnerEntry::default(),
        };
        entry.local_count += 1;
        self.put(id, entry);
        assert(self@ =~= ref_step(old(self)@, RefOp::AddOwned(id)));
    }

    /// The owner has cloned a reference to `id`. Returns the new local count, 0 where
    /// `id` is not tracked.
    pub fn inc_local(&mut self, id: ObjectId) -> (n: u64)
        requires
            old(self).wf(),
            entry_or_empty(old(self)@, id).local < u64::MAX,
        ensures
            final(self).wf(),
            final(self)@ == ref_step(old(self)@, RefOp::IncLocal(id)),
            n == entry_or_empty(final(self)@, id).local,
            old(self)@.contains_key(id) ==> n == old(self)@[id].local + 1,
            !old(self)@.contains_key(id) ==> n == 0 && final(self)@ == old(self)@,
    {
        match self.take(&id) {
            Some(mut entry) => {
                entry.local_count += 1;
                let n: u64 = entry.local_count;
                self.put(id, entry);
                assert(self@ =~= ref_step(old(self)@, RefOp::IncLocal(id)));
                n
            },
            None => {
                assert(self@ =~= old(self)@);
                0
            },
        }
    }

    /// The owner has dropped a reference to `id`. Returns whether this removed the last
    /// pin. A stray drop leaves the count at zero.
    pub fn dec_local(&mut self, id: ObjectId) -> (freed: bool)
        requires
            old(self).wf(),
        ensures
            final(self).wf(),
            final(self)@ == ref_step(old(self)@, RefOp::DecLocal(id)),
            freed == ref_unpins(old(self)@, RefOp::DecLocal(id)),
            freed == (old(self)@.contains_key(id) && !final(self)@.contains_key(id)),
            old(self)@.contains_key(id) && old(self)@[id].local >= 2 ==> final(self)@.contains_key(id) && final(self)@[id].local == old(self)@[id].local - 1,
    {
        match self.take(&id) {
            None => {
                assert(self@ =~= old(self)@);
                false
            },
            Some(mut entry) => {
                entry.local_count = entry.local_count.saturating_sub(1);
                let freed = self.settle(id, entry);
                assert(self@ =~= ref_step(old(self)@, RefOp::DecLocal(id)));
                freed
            },
        }
    }

    /// `worker` has borrowed `id`. Returns whether it is a new borrower.
    pub fn add_borrower(&mut self, id: ObjectId, worker: WorkerId) -> (is_new: bool)
        requires
            old(self).wf(),
        ensures
            final(self).wf(),
            final(self)@ == ref_step(old(self)@, RefOp::AddBorrower(id, worker)),
            is_new == !entry_or_empty(old(self)@, id).borrowers.contains(worker),
    {
        let mut entry = match self.take(&id) {
            Some(e) => e,
            None => OwnerEntry::default(),
        };
        let is_new = entry.borrowers.insert(worker);
        assert(entry@.borrowers.contains(worker));
        self.put(id, entry);
        assert(self@ =~= ref_step(old(self)@, RefOp::AddBorrower(id, worker)));
        is_new
    }

    /// `worker` has dropped its last reference to `id`. Returns whether this removed the
    /// last pin.
    pub fn remove_borrower(&mut self, id: ObjectId, worker: WorkerId) -> (freed: bool)
        requires
            old(self).wf(),
        ensures
            final(self).wf(),
            final(self)@ == ref_step(old(self)@, RefOp::RemoveBorrower(id, worker)),
            freed == ref_unpins(old(self)@, RefOp::RemoveBorrower(id, worker)),
    {
        match self.take(&id) {
            None => {
                assert(self@ =~= old(self)@);
                false
            },
            Some(mut entry) => {
                entry.borrowers.remove(&worker);
                let freed = self.settle(id, entry);
                assert(self@ =~= ref_step(old(self)@, RefOp::RemoveBorrower(id, worker)));
                freed
            },
        }
    }

    /// A task that reads `id` was submitted.
    pub fn add_submit_dep(&mut self, id: ObjectId)
        requires
            old(self).wf(),
            entry_or_empty(old(self)@, id).deps < u64::MAX,
        ensures
            final(self).wf(),
            final(self)@ == ref_step(old(self)@, RefOp::AddSubmitDep(id)),
            final(self)@.contains_key(id),
            final(self)@[id].deps == entry_or_empty(old(self)@, id).deps + 1,
    {
        let mut entry = match self.take(&id) {
            Some(e) => e,
            None => OwnerEntry::default(),
        };
        entry.submit_dep_count += 1;
        self.put(id, entry);
        assert(self@ =~= ref_step(old(self)@, RefOp::AddSubmitDep(id)));
    }

    /// A submitted task has read `id`. Returns whether this removed the last pin.
    pub fn complete_submit_dep(&mut self, id: ObjectId) -> (freed: bool)
        requires
            old(self).wf(),
        ensures
            final(self).wf(),
            final(self)@ == ref_step(old(self)@, RefOp::CompleteSubmitDep(id)),
            freed == ref_unpins(old(self)@, RefOp::CompleteSubmitDep(id)),
            freed == (old(self)@.contains_key(id) && !final(self)@.contains_key(id)),
            old(self)@.contains_key(id) && old(self)@[id].deps >= 2 ==> final(self)@.contains_key(id) && final(self)@[id].deps == old(self)@[id].deps - 1,
    {
        match self.take(&id) {
            None => {
                assert(self@ =~= old(self)@);
                false
            },
            Some(mut entry) => {
                entry.submit_dep_count = entry.submit_dep_count.saturating_sub(1);
                let freed = self.settle(id, entry);
                assert(self@ =~= ref_step(old(self)@, RefOp::CompleteSubmitDep(id)));
                freed
            },
        }
    }

    /// A copy of the entry of `id`, where it is tracked.
    pub fn snapshot(&self, id: ObjectId) -> (r: Option<OwnerEntry>)
        requires
            self.wf(),
        ensures
            match r {
                Some(e) => self@.contains_key(id) && e@ == self@[id] && e.borrowers.wf(),
                None => !self@.contains_key(id),
            },
    {
        match self.entries.get(&id) {
            Some(e) => Some(e.clone()),
            None => None,
        }
    }

    /// Number of tracked objects.
    pub fn len(&self) -> (n: usize)
        requires
            self.wf(),
        ensures
            n == self@.dom().len(),
            self@.dom().finite(),
    {
        proof {
            self.entries.lemma_model();
            assert(self@.dom() =~= self.entries@.dom());
        }
        self.entries.len()
    }

    /// Whether no object is tracked.
    pub fn is_empty(&self) -> (b: bool)
        requires
            self.wf(),
        ensures
            b == (self@ == RefModel::empty()),
    {
        let n: usize = self.len();
        proof {
            if n == 0 {
                assert(self@ =~= RefModel::empty());
            }
        }
        n == 0
    }
}

/// Every operation keeps every tracked object pinned.
pub proof fn law_step_keeps_pinned(m: RefModel, op: RefOp)
    requires
        all_pinned(m),
    ensures
        all_pinned(ref_step(m, op)),
{
}

/// After any sequence of operations on an empty counter, every tracked object is pinned.
pub proof fn law_run_keeps_pinned(ops: Seq<RefOp>)
    ensures
        all_pinned(ref_run(RefModel::empty(), ops)),
    decreases ops.len(),
{
    if ops.len() > 0 {
        law_run_keeps_pinned(ops.drop_last());
    }
}

/// An operation leaves every other object as it was.
pub proof fn law_step_is_local(m: RefModel, op: RefOp, other: ObjectId)
    requires
        other != op.id(),
    ensures
        ref_step(m, op).contains_key(other) == m.contains_key(other),
        m.contains_key(other) ==> ref_step(m, op)[other] == m[other],
{
}

/// Borrowing twice is borrowing once.
pub proof fn law_add_borrower_idempotent(m: RefModel, id: ObjectId, w: WorkerId)
    ensures
        ref_step(ref_step(m, RefOp::AddBorrower(id, w)), RefOp::AddBorrower(id, w)) == ref_step(
            m,
            RefOp::AddBorrower(id, w),
        ),
{
    let one = ref_step(m, RefOp::AddBorrower(id, w));
    assert(one.contains_key(id)) by {
        assert(entry_or_empty(m, id).borrowers.insert(w).contains(w));
    }
    assert(one[id].borrowers.insert(w) =~= one[id].borrowers);
    assert(ref_step(one, RefOp::AddBorrower(id, w)) =~= one);
}

/// Borrowing and giving back by one worker leaves a tracked object as it was, when that
/// worker had not borrowed it before.
pub proof fn law_borrow_and_return(m: RefModel, id: ObjectId, w: WorkerId)
    requires
        all_pinned(m),
        m.contains_key(id),
        !m[id].borrowers.contains(w),
    ensures
        ref_step(ref_step(m, RefOp::AddBorrower(id, w)), RefOp::RemoveBorrower(id, w)) == m,
{
    let one = ref_step(m, RefOp::AddBorrower(id, w));
    assert(m[id].borrowers.insert(w).contains(w));
    assert(one[id].borrowers.remove(w) =~= m[id].borrowers);
    assert(ref_step(one, RefOp::RemoveBorrower(id, w)) =~= m);
}

/// The owner's drop and a borrower's return reach the same counter in either order.
pub proof fn law_drop_and_return_commute(m: RefModel, id: ObjectId, w: WorkerId)
    requires
        all_pinned(m),
    ensures
        ref_step(ref_step(m, RefOp::DecLocal(id)), RefOp::RemoveBorrower(id, w)) == ref_step(
            ref_step(m, RefOp::RemoveBorrower(id, w)),
            RefOp::DecLocal(id),
        ),
{
    let d = RefOp::DecLocal(id);
    let r = RefOp::RemoveBorrower(id, w);
    if m.contains_key(id) {
        let e = m[id];
        assert(e.borrowers.remove(w).remove(w) =~= e.borrowers.remove(w));
        if d.on_entry(e).unpinned() {
            assert(e.borrowers.remove(w) =~= Set::<WorkerId>::empty());
        }
        assert(Set::<WorkerId>::empty().remove(w) =~= Set::<WorkerId>::empty());
    }
    assert(ref_step(ref_step(m, d), r) =~= ref_step(ref_step(m, r), d));
}

/// When the owner's last reference and the last borrower go, in either order, exactly one
/// of the two is told that it removed the last pin, and the object is no longer tracked.
pub proof fn law_last_pins_race(m: RefModel, id: ObjectId, w: WorkerId)
    requires
        m.contains_key(id),
        m[id] == (EntryModel { local: 1, borrowers: Set::empty().insert(w), deps: 0 }),
    ensures
        !ref_unpins(m, RefOp::DecLocal(id)),
        ref_unpins(ref_step(m, RefOp::DecLocal(id)), RefOp::RemoveBorrower(id, w)),
        !ref_unpins(m, RefOp::RemoveBorrower(id, w)),
        ref_unpins(ref_step(m, RefOp::RemoveBorrower(id, w)), RefOp::DecLocal(id)),
        !ref_step(ref_step(m, RefOp::DecLocal(id)), RefOp::RemoveBorrower(id, w)).contains_key(id),
        !ref_step(ref_step(m, RefOp::RemoveBorrower(id, w)), RefOp::DecLocal(id)).contains_key(id),
{
    let b = Set::<WorkerId>::empty().insert(w);
    assert(b.contains(w));
    assert(b.remove(w) =~= Set::<WorkerId>::empty());
}

/// When the owner's last reference goes while a worker borrows, in either order, the
/// object stays tracked with that one borrower and no local reference.
pub proof fn law_drop_and_borrow_race(m: RefModel, id: ObjectId, w: WorkerId)
    requires
        m.contains_key(id),
        m[id] == (EntryModel { local: 1, borrowers: Set::empty(), deps: 0 }),
    ensures
        ref_step(ref_step(m, RefOp::DecLocal(id)), RefOp::AddBorrower(id, w)) == m.insert(
            id,
            EntryModel { local: 0, borrowers: Set::empty().insert(w), deps: 0 },
        ),
        ref_step(ref_step(m, RefOp::AddBorrower(id, w)), RefOp::DecLocal(id)) == m.insert(
            id,
            EntryModel { local: 0, borrowers: Set::empty().insert(w), deps: 0 },
        ),
{
    let b = Set::<WorkerId>::empty().insert(w);
    assert(b.contains(w));
    let e = EntryModel { local: 0, borrowers: b, deps: 0 };
    assert(ref_step(ref_step(m, RefOp::DecLocal(id)), RefOp::AddBorrower(id, w)) =~= m.insert(
        id,
        e,
    ));
    assert(ref_step(ref_step(m, RefOp::AddBorrower(id, w)), RefOp::DecLocal(id)) =~= m.insert(
        id,
        e,
    ));
}

/// Two workers that borrow and give back do not affect each other: the operations of the
/// one can be moved past those of the other.
pub proof fn law_borrowers_independent(m: RefModel, id: ObjectId, w1: WorkerId, w2: WorkerId)
    requires
        all_pinned(m),
        m.contains_key(id),
        w1 != w2,
        m[id].local > 0,
    ensures
        ref_step(ref_step(m, RefOp::AddBorrower(id, w1)), RefOp::RemoveBorrower(id, w2))
            == ref_step(ref_step(m, RefOp::RemoveBorrower(id, w2)), RefOp::AddBorrower(id, w1)),
        ref_step(ref_step(m, RefOp::AddBorrower(id, w1)), RefOp::AddBorrower(id, w2)) == ref_step(
            ref_step(m, RefOp::AddBorrower(id, w2)),
            RefOp::AddBorrower(id, w1),
        ),
        ref_step(ref_step(m, RefOp::RemoveBorrower(id, w1)), RefOp::RemoveBorrower(id, w2))
            == ref_step(ref_step(m, RefOp::RemoveBorrower(id, w2)), RefOp::RemoveBorrower(id, w1)),
{
    let b = m[id].borrowers;
    assert(b.insert(w1).remove(w2) =~= b.remove(w2).insert(w1));
    assert(b.insert(w1).insert(w2) =~= b.insert(w2).insert(w1));
    assert(b.remove(w1).remove(w2) =~= b.remove(w2).remove(w1));
    assert(ref_step(ref_step(m, RefOp::AddBorrower(id, w1)), RefOp::RemoveBorrower(id, w2))
        =~= ref_step(ref_step(m, RefOp::RemoveBorrower(id, w2)), RefOp::AddBorrower(id, w1)));
    assert(ref_step(ref_step(m, RefOp::AddBorrower(id, w1)), RefOp::AddBorrower(id, w2))
        =~= ref_step(ref_step(m, RefOp::AddBorrower(id, w2)), RefOp::AddBorrower(id, w1)));
    assert(ref_step(ref_step(m, RefOp::RemoveBorrower(id, w1)), RefOp::RemoveBorrower(id, w2))
        =~= ref_step(ref_step(m, RefOp::RemoveBorrower(id, w2)), RefOp::RemoveBorrower(id, w1)));
}

/// Taking a pin from an object that is not tracked does nothing.
pub proof fn law_missing_is_harmless(m: RefModel, op: RefOp)
    requires
        !m.contains_key(op.id()),
        !op.creates(),
    ensures
        ref_step(m, op) == m,
        !ref_unpins(m, op),
{
}

/// Giving back twice is giving back once.
pub proof fn law_return_twice_is_once(m: RefModel, id: ObjectId, w: WorkerId)
    requires
        all_pinned(m),
    ensures
        ref_step(ref_step(m, RefOp::RemoveBorrower(id, w)), RefOp::RemoveBorrower(id, w))
            == ref_step(m, RefOp::RemoveBorrower(id, w)),
{
    let one = ref_step(m, RefOp::RemoveBorrower(id, w));
    if one.contains_key(id) {
        assert(one[id].borrowers.remove(w) =~= one[id].borrowers);
        assert(ref_step(one, RefOp::RemoveBorrower(id, w)) =~= one);
    }
}

/// An object whose last pin went is freed once: no operation frees it again before another
/// adds a pin.
pub proof fn law_freed_once(m: RefModel, op: RefOp, next: RefOp)
    requires
        ref_unpins(m, op),
        next.id() == op.id(),
        !next.creates(),
    ensures
        !ref_unpins(ref_step(m, op), next),
        ref_step(ref_step(m, op), next) == ref_step(m, op),
{
}

/// An object is freed exactly when the last of its pins goes: the local references, the
/// borrowers and the tasks that are to read it.
pub proof fn law_freed_iff_last_pin(m: RefModel, op: RefOp)
    requires
        m.contains_key(op.id()),
    ensures
        ref_unpins(m, op) == ({
            let e = op.on_entry(m[op.id()]);
            e.local == 0 && e.deps == 0 && e.borrowers == Set::<WorkerId>::empty()
        }),
{
}

/// What an operation does to the pins of its object, each counted by itself. An object that
/// is not tracked has none of them.
pub proof fn law_pins_are_counted(m: RefModel, op: RefOp)
    requires
        all_pinned(m),
    ensures
        ({
            let before = entry_or_empty(m, op.id());
            let after = entry_or_empty(ref_step(m, op), op.id());
            let known = m.contains_key(op.id());
            match op {
                RefOp::AddOwned(_) => after.local == before.local + 1 && after.deps == before.deps
                    && after.borrowers == before.borrowers,
                RefOp::IncLocal(_) => after.local == before.local + (if known {
                    1int
                } else {
                    0int
                }) && after.deps == before.deps && after.borrowers == before.borrowers,
                RefOp::DecLocal(_) => (before.local > 0 ==> after.local == before.local - 1) && (
                before.local == 0 ==> after.local == 0) && after.deps == before.deps
                    && after.borrowers == before.borrowers,
                RefOp::AddBorrower(_, w) => after.local == before.local && after.deps
                    == before.deps && (forall|x: WorkerId| #[trigger]
                    after.borrowers.contains(x) == (x == w || before.borrowers.contains(x))),
                RefOp::RemoveBorrower(_, w) => after.local == before.local && after.deps
                    == before.deps && (forall|x: WorkerId| #[trigger]
                    after.borrowers.contains(x) == (x != w && before.borrowers.contains(x))),
                RefOp::AddSubmitDep(_) => after.deps == before.deps + 1 && after.local
                    == before.local && after.borrowers == before.borrowers,
                RefOp::CompleteSubmitDep(_) => (before.deps > 0 ==> after.deps == before.deps - 1)
                    && (before.deps == 0 ==> after.deps == 0) && after.local == before.local
                    && after.borrowers == before.borrowers,
            }
        }),
{
    let after = entry_or_empty(ref_step(m, op), op.id());
    match op {
        RefOp::RemoveBorrower(id, w) => {
            if m.contains_key(id) {
                let left = m[id].borrowers.remove(w);
                assert forall|x: WorkerId| #[trigger] after.borrowers.contains(x) == (x != w
                    && m[id].borrowers.contains(x)) by {
                    assert(left.contains(x) == (x != w && m[id].borrowers.contains(x)));
                }
            }
        },
        RefOp::AddBorrower(id, w) => {
            let more = entry_or_empty(m, id).borrowers.insert(w);
            assert(more.contains(w));
        },
        _ => {},
    }
}

/// An object is tracked after an operation exactly where a local reference, a borrower or a
/// task that is to read it is left, and it is freed exactly where none is left and some was.
pub proof fn law_tracked_iff_pinned(m: RefModel, op: RefOp)
    requires
        all_pinned(m),
    ensures
        ({
            let after = entry_or_empty(ref_step(m, op), op.id());
            let left = after.local > 0 || after.deps > 0 || exists|w: WorkerId| #[trigger]
                after.borrowers.contains(w);
            &&& ref_step(m, op).contains_key(op.id()) == left
            &&& ref_unpins(m, op) == (m.contains_key(op.id()) && !left)
        }),
{
    let s = ref_step(m, op);
    let id = op.id();
    let after = entry_or_empty(s, id);
    law_step_keeps_pinned(m, op);
    if s.contains_key(id) && after.local == 0 && after.deps == 0 {
        if forall|w: WorkerId| !#[trigger] after.borrowers.contains(w) {
            assert(after.borrowers =~= Set::<WorkerId>::empty());
        }
    }
}

/// A task that was submitted and has read its argument leaves a tracked object as it was, and
/// so does a reference that was cloned and dropped.
pub proof fn law_pin_and_unpin(m: RefModel, id: ObjectId)
    requires
        all_pinned(m),
        m.contains_key(id),
    ensures
        ref_step(ref_step(m, RefOp::AddSubmitDep(id)), RefOp::CompleteSubmitDep(id)) == m,
        ref_step(ref_step(m, RefOp::AddOwned(id)), RefOp::DecLocal(id)) == m,
        ref_step(ref_step(m, RefOp::IncLocal(id)), RefOp::DecLocal(id)) == m,
{
    assert(ref_step(ref_step(m, RefOp::AddSubmitDep(id)), RefOp::CompleteSubmitDep(id)) =~= m);
    assert(ref_step(ref_step(m, RefOp::AddOwned(id)), RefOp::DecLocal(id)) =~= m);
    assert(ref_step(ref_step(m, RefOp::IncLocal(id)), RefOp::DecLocal(id)) =~= m);
}

/// While another task is to read an object, a task that has read it does not free it.
pub proof fn law_other_readers_pin(m: RefModel, id: ObjectId)
    requires
        m.contains_key(id),
        m[id].deps >= 2,
    ensures
        !ref_unpins(m, RefOp::CompleteSubmitDep(id)),
        ref_step(m, RefOp::CompleteSubmitDep(id)).contains_key(id),
        ref_step(m, RefOp::CompleteSubmitDep(id))[id].deps == m[id].deps - 1,
{
}

/// Pins of one kind: an operation of another kind neither adds nor takes away any.
pub proof fn law_kinds_do_not_mix(m: RefModel, op: RefOp)
    requires
        all_pinned(m),
    ensures
        ({
            let before = entry_or_empty(m, op.id());
            let after = entry_or_empty(ref_step(m, op), op.id());
            &&& (op is AddOwned || op is IncLocal || op is DecLocal || after.local == before.local)
            &&& (op is AddBorrower || op is RemoveBorrower || after.borrowers == before.borrowers)
            &&& (op is AddSubmitDep || op is CompleteSubmitDep || after.deps == before.deps)
        }),
{
}

/// The pins of an object are modelled as they are counted.
pub proof fn law_entries_are_modelled(e: OwnerEntry)
    ensures
        e@.local == e.local_count,
        e@.deps == e.submit_dep_count,
        e@.borrowers == e.borrowers@,
        e@.unpinned() <==> e.local_count == 0 && e.submit_dep_count == 0 && e.borrowers@ == Set::<
            WorkerId,
        >::empty(),
{
}

} // verus!
