//! The in-process index of objects: small objects inline, large ones as pointers into
//! the shared-memory store.

use crate::kernel::id::ObjectId;
use crate::kernel::metadata::{Metadata, RefState};
use crate::kernel::ray_object::RayObject;
use crate::util::idset::IdSet;
use crate::util::sums;
use crate::util::table::Table;
use std::sync::Arc;
use vstd::prelude::*;

verus! {

/// The requested ids, split by whether they are present.
#[derive(Debug)]
pub struct WaitOutcome {
    /// Ids that are present.
    pub ready: Vec<ObjectId>,
    /// Ids that are not.
    pub not_ready: Vec<ObjectId>,
}

/// Local pointer to an object in shared memory.
#[derive(Clone, Copy, Debug, PartialEq, Eq, Hash, Structural)]
pub struct PlasmaIndex {
    /// The object's metadata.
    pub metadata: Metadata,
    /// Length of the data in shared memory.
    pub data_size: u64,
}

/// A local object, or a pointer to one in shared memory.
#[derive(Debug)]
pub enum StoredEntry {
    /// The object itself.
    Inline(Arc<RayObject>),
    /// In shared memory.
    Plasma(PlasmaIndex),
}

impl Clone for StoredEntry {
    fn clone(&self) -> (r: Self)
        ensures
            r == *self,
    {
        match self {
            StoredEntry::Inline(obj) => StoredEntry::Inline(obj.clone()),
            StoredEntry::Plasma(idx) => StoredEntry::Plasma(*idx),
        }
    }
}

impl StoredEntry {
    /// The metadata of the entry.
    pub open spec fn spec_metadata(&self) -> Metadata {
        match self {
            StoredEntry::Inline(obj) => obj.metadata,
            StoredEntry::Plasma(idx) => idx.metadata,
        }
    }

    /// The state that the entry stands for.
    pub open spec fn spec_state(&self) -> RefState {
        if self.spec_metadata().spec_is_error() {
            RefState::Failed
        } else {
            RefState::ReadyLocal
        }
    }

    /// Local bytes of the entry: the whole object, or only the pointer.
    pub open spec fn spec_bytes(&self) -> nat {
        match self {
            StoredEntry::Inline(obj) => obj.spec_size(),
            StoredEntry::Plasma(_) => vstd::layout::size_of::<PlasmaIndex>(),
        }
    }

    /// Whether the local size of the entry fits the machine.
    pub open spec fn fits(&self) -> bool {
        self.spec_bytes() <= usize::MAX
    }

    /// The metadata of the entry.
    pub fn metadata(&self) -> (r: Metadata)
        ensures
            r == self.spec_metadata(),
    {
        match self {
            StoredEntry::Inline(obj) => obj.metadata,
            StoredEntry::Plasma(idx) => idx.metadata,
        }
    }

    /// Whether the entry is an error.
    pub fn is_error(&self) -> (b: bool)
        ensures
            b == self.spec_metadata().spec_is_error(),
    {
        self.metadata().is_error()
    }

    /// The state of a present object: never `Pending`.
    pub fn ref_state(&self) -> (r: RefState)
        ensures
            r == self.spec_state(),
            r.spec_ready(),
    {
        if self.is_error() {
            RefState::Failed
        } else {
            RefState::ReadyLocal
        }
    }

    /// Local bytes of the entry, without data in shared memory.
    pub fn local_bytes(&self) -> (n: usize)
        requires
            self.fits(),
        ensures
            n == self.spec_bytes(),
    {
        match self {
            StoredEntry::Inline(obj) => obj.size_bytes(),
            StoredEntry::Plasma(_) => core::mem::size_of::<PlasmaIndex>(),
        }
    }
}

/// The mathematical content of a store.
#[verifier::ext_equal]
pub struct StoreModel {
    /// The entries.
    pub entries: Map<ObjectId, StoredEntry>,
    /// The byte counter.
    pub bytes: u64,
    /// Those whose data has left shared memory.
    pub spilled: Set<ObjectId>,
}

/// `a - b`, or 0 where that is negative.
pub open spec fn sat_sub(a: int, b: int) -> int {
    if a >= b {
        a - b
    } else {
        0
    }
}

/// `a + b`, or the largest `u64` where that is larger.
pub open spec fn sat_add(a: int, b: int) -> int {
    if a + b <= u64::MAX {
        a + b
    } else {
        u64::MAX as int
    }
}

impl StoreModel {
    /// The empty store.
    pub open spec fn empty() -> StoreModel {
        StoreModel { entries: Map::empty(), bytes: 0, spilled: Set::empty() }
    }

    /// The store with `entry` at `id`.
    pub open spec fn put(self, id: ObjectId, entry: StoredEntry) -> StoreModel {
        let freed = if self.entries.contains_key(id) {
            self.entries[id].spec_bytes() as int
        } else {
            0
        };
        StoreModel {
            entries: self.entries.insert(id, entry),
            bytes: sat_add(sat_sub(self.bytes as int, freed), entry.spec_bytes() as int) as u64,
            spilled: self.spilled.remove(id),
        }
    }

    /// The store once the data of `id` is known not to be in shared memory.
    pub open spec fn without_data(self, id: ObjectId) -> StoreModel {
        if self.entries.contains_key(id) && self.entries[id] is Plasma {
            StoreModel { spilled: self.spilled.insert(id), ..self }
        } else {
            self
        }
    }

    /// The store once the data of `id` is known to be in shared memory.
    pub open spec fn with_data(self, id: ObjectId) -> StoreModel {
        StoreModel { spilled: self.spilled.remove(id), ..self }
    }

    /// The store without `id`.
    pub open spec fn drop_one(self, id: ObjectId) -> StoreModel {
        if self.entries.contains_key(id) {
            StoreModel {
                entries: self.entries.remove(id),
                bytes: sat_sub(self.bytes as int, self.entries[id].spec_bytes() as int) as u64,
                spilled: self.spilled.remove(id),
            }
        } else {
            self
        }
    }

    /// The store without any of `ids`.
    pub open spec fn drop_all(self, ids: Seq<ObjectId>) -> StoreModel
        decreases ids.len(),
    {
        if ids.len() == 0 {
            self
        } else {
            self.drop_all(ids.drop_last()).drop_one(ids.last())
        }
    }

    /// The state of `id`.
    pub open spec fn state_of(self, id: ObjectId) -> RefState {
        if self.entries.contains_key(id) {
            self.entries[id].spec_state()
        } else {
            RefState::Pending
        }
    }

    /// The bytes of all entries together.
    pub open spec fn total(self) -> nat {
        sums::map_sum(self.entries, |e: StoredEntry| e.spec_bytes())
    }

    /// The byte counter is the sum over the entries.
    pub open spec fn accounted(self) -> bool {
        self.bytes == self.total()
    }

    /// The ids of `ids` that are present, in order.
    pub open spec fn ready(self, ids: Seq<ObjectId>) -> Seq<ObjectId> {
        ids.filter(|id: ObjectId| self.entries.contains_key(id))
    }

    /// The ids of `ids` that are absent, in order.
    pub open spec fn not_ready(self, ids: Seq<ObjectId>) -> Seq<ObjectId> {
        ids.filter(|id: ObjectId| !self.entries.contains_key(id))
    }
}

/// The in-process index of objects.
#[derive(Debug)]
pub struct MemoryStore {
    entries: Table<ObjectId, StoredEntry>,
    bytes: u64,
    spilled: IdSet<ObjectId>,
}

/// What a blocking read of one object has to do next.
#[derive(Debug)]
pub enum BlockingRead {
    /// The object is there.
    Found(StoredEntry),
    /// The deadline has passed without it.
    TimedOut,
    /// Wait for the next change of the store, or the deadline.
    Wait,
}

impl View for MemoryStore {
    type V = StoreModel;

    closed spec fn view(&self) -> StoreModel {
        StoreModel { entries: self.entries@, bytes: self.bytes, spilled: self.spilled@ }
    }
}

impl Default for MemoryStore {
    fn default() -> (r: Self)
        ensures
            r.wf(),
            r@ == StoreModel::empty(),
    {
        MemoryStore::new()
    }
}

impl MemoryStore {
    /// The tables are well formed, the size of every entry fits the machine, and only
    /// objects that are here are spilled.
    pub closed spec fn wf(&self) -> bool {
        &&& self.entries.wf()
        &&& forall|id: ObjectId| #[trigger]
            self.entries@.contains_key(id) ==> self.entries@[id].fits()
        &&& self.spilled.wf()
        &&& forall|id: ObjectId| #[trigger]
            self.spilled@.contains(id) ==> self.entries@.contains_key(id)
    }

    /// The entries in the order in which they came.
    pub closed spec fn order(&self) -> Seq<ObjectId> {
        self.entries.order()
    }

    /// The order lists every present id once.
    pub proof fn lemma_order(&self)
        requires
            self.wf(),
        ensures
            self.order().no_duplicates(),
            self@.entries.dom() == self.order().to_set(),
            self@.entries.dom().finite(),
            self@.entries.dom().len() == self.order().len(),
    {
        self.entries.lemma_model();
    }

    /// An empty store.
    pub fn new() -> (r: Self)
        ensures
            r.wf(),
            r@ == StoreModel::empty(),
    {
        MemoryStore { entries: Table::new(), bytes: 0, spilled: IdSet::new() }
    }

    /// Stores an object inline.
    pub fn put_inline(&mut self, id: ObjectId, object: RayObject)
        requires
            old(self).wf(),
            object.spec_size() <= usize::MAX,
        ensures
            final(self).wf(),
            exists|obj: Arc<RayObject>|
                *obj == object && final(self)@ == #[trigger] old(self)@.put(
                    id,
                    StoredEntry::Inline(obj),
                ),
    {
        let obj = Arc::new(object);
        self.insert(id, StoredEntry::Inline(obj));
    }

    /// Records an object in shared memory.
    pub fn put_plasma(&mut self, id: ObjectId, index: PlasmaIndex)
        requires
            old(self).wf(),
        ensures
            final(self).wf(),
            final(self)@ == old(self)@.put(id, StoredEntry::Plasma(index)),
    {
        let entry = StoredEntry::Plasma(index);
        let n: usize = core::mem::size_of::<PlasmaIndex>();
        assert(entry.spec_bytes() == n);
        self.insert(id, entry);
    }

    fn insert(&mut self, id: ObjectId, entry: StoredEntry)
        requires
            old(self).wf(),
            entry.fits(),
        ensures
            final(self).wf(),
            final(self)@ == old(self)@.put(id, entry),
    {
        let added: u64 = entry.local_bytes() as u64;
        if let Some(prev) = self.entries.insert(id, entry) {
            self.bytes = self.bytes.saturating_sub(prev.local_bytes() as u64);
        }
        self.bytes = self.bytes.saturating_add(added);
        self.spilled.remove(&id);
        assert(self@.entries =~= old(self)@.put(id, entry).entries);
    }

    /// The data of `id` is not in shared memory.
    pub fn data_left(&mut self, id: ObjectId)
        requires
            old(self).wf(),
        ensures
            final(self).wf(),
            final(self)@ == old(self)@.without_data(id),
    {
        let known = match self.entries.get(&id) {
            Some(StoredEntry::Plasma(_)) => true,
            _ => false,
        };
        if known {
            self.spilled.insert(id);
        }
    }

    /// The data of `id` is in shared memory.
    pub fn data_back(&mut self, id: ObjectId)
        requires
            old(self).wf(),
        ensures
            final(self).wf(),
            final(self)@ == old(self)@.with_data(id),
    {
        self.spilled.remove(&id);
    }

    /// The entry of `id`.
    pub fn get_entry(&self, id: &ObjectId) -> (r: Option<StoredEntry>)
        requires
            self.wf(),
        ensures
            match r {
                Some(e) => self@.entries.contains_key(*id) && e == self@.entries[*id],
                None => !self@.entries.contains_key(*id),
            },
    {
        match self.entries.get(id) {
            Some(e) => Some(e.clone()),
            None => None,
        }
    }

    /// The object of `id` where it is stored inline.
    pub fn get_inline(&self, id: &ObjectId) -> (r: Option<Arc<RayObject>>)
        requires
            self.wf(),
        ensures
            match r {
                Some(o) => self@.entries.contains_key(*id) && self@.entries[*id]
                    == StoredEntry::Inline(o),
                None => self@.entries.contains_key(*id) ==> self@.entries[*id] is Plasma,
            },
    {
        match self.entries.get(id) {
            Some(StoredEntry::Inline(obj)) => Some(obj.clone()),
            _ => None,
        }
    }

    /// Whether `id` is present.
    pub fn contains(&self, id: &ObjectId) -> (b: bool)
        requires
            self.wf(),
        ensures
            b == self@.entries.contains_key(*id),
    {
        self.entries.contains_key(id)
    }

    /// The state of `id`.
    pub fn state_of(&self, id: &ObjectId) -> (r: RefState)
        requires
            self.wf(),
        ensures
            r == self@.state_of(*id),
    {
        match self.entries.get(id) {
            Some(e) => e.ref_state(),
            None => RefState::Pending,
        }
    }

    /// The states of several ids at once.
    pub fn state_snapshot(&self, ids: &[ObjectId]) -> (r: Table<ObjectId, RefState>)
        requires
            self.wf(),
        ensures
            r.wf(),
            r@.dom() == ids@.to_set(),
            forall|id: ObjectId| #[trigger] r@.contains_key(id) ==> r@[id] == self@.state_of(id),
    {
        let mut r: Table<ObjectId, RefState> = Table::new();
        let mut i: usize = 0;
        assert(r@.dom() =~= ids@.take(0).to_set());
        while i < ids.len()
            invariant
                self.wf(),
                i <= ids@.len(),
                r.wf(),
                r@.dom() == ids@.take(i as int).to_set(),
                forall|id: ObjectId| #[trigger]
                    r@.contains_key(id) ==> r@[id] == self@.state_of(id),
            decreases ids@.len() - i,
        {
            let id: ObjectId = ids[i];
            let ghost before = r@;
            r.insert(id, self.state_of(&id));
            proof {
                assert(ids@.take(i + 1) =~= ids@.take(i as int).push(id));
                lemma_push_to_set(ids@.take(i as int), id);
                assert(r@.dom() =~= before.dom().insert(id));
            }
            i += 1;
        }
        assert(ids@.take(i as int) =~= ids@);
        r
    }

    /// One look of a blocking read of `id`; `expired` says whether its deadline has
    /// passed.
    pub fn get_entry_blocking(&self, id: &ObjectId, expired: bool) -> (r: BlockingRead)
        requires
            self.wf(),
        ensures
            match r {
                BlockingRead::Found(e) => self@.entries.contains_key(*id) && e
                    == self@.entries[*id],
                BlockingRead::TimedOut => !self@.entries.contains_key(*id) && expired,
                BlockingRead::Wait => !self@.entries.contains_key(*id) && !expired,
            },
    {
        match self.get_entry(id) {
            Some(e) => BlockingRead::Found(e),
            None => if expired {
                BlockingRead::TimedOut
            } else {
                BlockingRead::Wait
            },
        }
    }

    /// One look of a wait for `num_returns` of `ids` (for all where there are fewer);
    /// `expired` says whether its deadline has passed. The wait is over when enough are
    /// present or the deadline has passed; otherwise the caller waits for a change.
    pub fn wait(&self, ids: &[ObjectId], num_returns: usize, expired: bool) -> (r: Option<
        WaitOutcome,
    >)
        requires
            self.wf(),
        ensures
            r is Some == (expired || self@.ready(ids@).len() >= num_returns || self@.ready(
                ids@,
            ).len() >= ids@.len()),
            r matches Some(w) ==> w.ready@ == self@.ready(ids@) && w.not_ready@
                == self@.not_ready(ids@),
    {
        let mut ready: Vec<ObjectId> = Vec::new();
        let mut not_ready: Vec<ObjectId> = Vec::new();
        let mut i: usize = 0;
        proof {
            reveal(Seq::filter);
            assert(ids@.take(0) =~= Seq::<ObjectId>::empty());
        }
        while i < ids.len()
            invariant
                self.wf(),
                i <= ids@.len(),
                ready@ == self@.ready(ids@.take(i as int)),
                not_ready@ == self@.not_ready(ids@.take(i as int)),
                ready@.len() <= i,
            decreases ids@.len() - i,
        {
            let id: ObjectId = ids[i];
            proof {
                reveal(Seq::filter);
                assert(ids@.take(i + 1).drop_last() =~= ids@.take(i as int));
                assert(ids@.take(i + 1).last() == id);
            }
            if self.contains(&id) {
                ready.push(id);
            } else {
                not_ready.push(id);
            }
            i += 1;
        }
        assert(ids@.take(i as int) =~= ids@);
        let target: usize = if num_returns < ids.len() {
            num_returns
        } else {
            ids.len()
        };
        if ready.len() >= target || expired {
            Some(WaitOutcome { ready, not_ready })
        } else {
            None
        }
    }

    /// Removes ids.
    pub fn delete(&mut self, ids: &[ObjectId])
        requires
            old(self).wf(),
        ensures
            final(self).wf(),
            final(self)@ == old(self)@.drop_all(ids@),
    {
        let mut i: usize = 0;
        assert(ids@.take(0) =~= Seq::<ObjectId>::empty());
        while i < ids.len()
            invariant
                self.wf(),
                i <= ids@.len(),
                self@ == old(self)@.drop_all(ids@.take(i as int)),
            decreases ids@.len() - i,
        {
            let id: ObjectId = ids[i];
            let ghost before = self@;
            if let Some(prev) = self.entries.remove(&id) {
                self.bytes = self.bytes.saturating_sub(prev.local_bytes() as u64);
            }
            self.spilled.remove(&id);
            proof {
                assert(self@.spilled =~= before.drop_one(id).spilled);
                assert(self@.entries =~= before.drop_one(id).entries);
                assert(ids@.take(i + 1).drop_last() =~= ids@.take(i as int));
                assert(ids@.take(i + 1).last() == id);
            }
            i += 1;
        }
        assert(ids@.take(i as int) =~= ids@);
    }

    /// Number of entries.
    pub fn len(&self) -> (n: usize)
        requires
            self.wf(),
        ensures
            n == self@.entries.dom().len(),
    {
        self.entries.len()
    }

    /// Whether there are no entries.
    pub fn is_empty(&self) -> (b: bool)
        requires
            self.wf(),
        ensures
            b == (self@.entries.dom().len() == 0),
    {
        self.entries.is_empty()
    }

    /// The byte counter.
    pub fn used_memory(&self) -> (n: u64)
        ensures
            n == self@.bytes,
    {
        self.bytes
    }

    /// Every pointer into shared memory with its object, in the order in which they came;
    /// those to data that has left it too.
    pub fn plasma_entries(&self) -> (r: Vec<(ObjectId, PlasmaIndex)>)
        requires
            self.wf(),
        ensures
            r@ == plasma_list(self@.entries, self.order()),
    {
        let mut r: Vec<(ObjectId, PlasmaIndex)> = Vec::new();
        let n: usize = self.entries.len();
        let mut i: usize = 0;
        assert(self.order().take(0) =~= Seq::<ObjectId>::empty());
        while i < n
            invariant
                self.wf(),
                i <= n,
                n == self.order().len(),
                r@ == plasma_list(self@.entries, self.order().take(i as int)),
            decreases n - i,
        {
            let id: ObjectId = *self.entries.key_at(i);
            proof {
                assert(self.order().take(i + 1).drop_last() =~= self.order().take(i as int));
                assert(self.order().take(i + 1).last() == id);
            }
            if let StoredEntry::Plasma(idx) = self.entries.value_at(i) {
                r.push((id, *idx));
            }
            i += 1;
        }
        assert(self.order().take(i as int) =~= self.order());
        r
    }

    /// Every object whose data is in shared memory with its pointer, in the order in which
    /// they came.
    pub fn resident_entries(&self) -> (r: Vec<(ObjectId, PlasmaIndex)>)
        requires
            self.wf(),
        ensures
            r@ == resident_list(self@, self.order()),
    {
        let mut r: Vec<(ObjectId, PlasmaIndex)> = Vec::new();
        let n: usize = self.entries.len();
        let mut i: usize = 0;
        assert(self.order().take(0) =~= Seq::<ObjectId>::empty());
        while i < n
            invariant
                self.wf(),
                i <= n,
                n == self.order().len(),
                r@ == resident_list(self@, self.order().take(i as int)),
            decreases n - i,
        {
            let id: ObjectId = *self.entries.key_at(i);
            proof {
                assert(self.order().take(i + 1).drop_last() =~= self.order().take(i as int));
                assert(self.order().take(i + 1).last() == id);
            }
            if let StoredEntry::Plasma(idx) = self.entries.value_at(i) {
                if !self.spilled.contains(&id) {
                    r.push((id, *idx));
                }
            }
            i += 1;
        }
        assert(self.order().take(i as int) =~= self.order());
        r
    }
}

/// The entries of `ids` whose data is in shared memory, in order.
pub open spec fn resident_list(s: StoreModel, ids: Seq<ObjectId>) -> Seq<(ObjectId, PlasmaIndex)>
    decreases ids.len(),
{
    if ids.len() == 0 {
        Seq::empty()
    } else {
        let rest = resident_list(s, ids.drop_last());
        match s.entries[ids.last()] {
            StoredEntry::Plasma(idx) => if s.spilled.contains(ids.last()) {
                rest
            } else {
                rest.push((ids.last(), idx))
            },
            StoredEntry::Inline(_) => rest,
        }
    }
}

/// The entries of `ids` that are pointers, in order.
pub open spec fn plasma_list(m: Map<ObjectId, StoredEntry>, ids: Seq<ObjectId>) -> Seq<
    (ObjectId, PlasmaIndex),
>
    decreases ids.len(),
{
    if ids.len() == 0 {
        Seq::empty()
    } else {
        let rest = plasma_list(m, ids.drop_last());
        match m[ids.last()] {
            StoredEntry::Plasma(idx) => rest.push((ids.last(), idx)),
            StoredEntry::Inline(_) => rest,
        }
    }
}

/// The set of a sequence with one more element.
proof fn lemma_push_to_set(s: Seq<ObjectId>, x: ObjectId)
    ensures
        s.push(x).to_set() == s.to_set().insert(x),
{
    let t = s.push(x);
    assert(t.to_set() =~= s.to_set().insert(x)) by {
        assert forall|y: ObjectId| t.contains(y) == (s.contains(y) || y == x) by {
            if s.contains(y) {
                let j = s.index_of(y);
                assert(t[j] == y);
            }
            assert(t[s.len() as int] == x);
            if t.contains(y) && y != x {
                let j = t.index_of(y);
                assert(s[j] == y);
            }
        }
    }
}

/// The byte counter stays the sum over the entries when an entry is stored, as long as
/// that sum is a `u64`.
pub proof fn law_put_accounts(m: StoreModel, id: ObjectId, entry: StoredEntry)
    requires
        m.entries.dom().finite(),
        m.accounted(),
        m.put(id, entry).total() <= u64::MAX,
    ensures
        m.put(id, entry).accounted(),
{
    let f = |e: StoredEntry| e.spec_bytes();
    sums::lemma_sum_insert(m.entries, f, id, entry);
    if m.entries.contains_key(id) {
        sums::lemma_sum_remove(m.entries, f, id);
    } else {
        assert(m.entries.remove(id) =~= m.entries);
    }
}

/// The byte counter stays the sum over the entries when an entry is removed.
pub proof fn law_drop_accounts(m: StoreModel, id: ObjectId)
    requires
        m.entries.dom().finite(),
        m.accounted(),
    ensures
        m.drop_one(id).accounted(),
{
    if m.entries.contains_key(id) {
        sums::lemma_sum_remove(m.entries, |e: StoredEntry| e.spec_bytes(), id);
    }
}

/// The byte counter stays the sum over the entries when several entries are removed.
pub proof fn law_drop_all_accounts(m: StoreModel, ids: Seq<ObjectId>)
    requires
        m.entries.dom().finite(),
        m.accounted(),
    ensures
        m.drop_all(ids).accounted(),
        m.drop_all(ids).entries.dom().finite(),
    decreases ids.len(),
{
    if ids.len() > 0 {
        law_drop_all_accounts(m, ids.drop_last());
        law_drop_accounts(m.drop_all(ids.drop_last()), ids.last());
    }
}

/// The empty store is accounted for.
pub proof fn law_empty_accounts()
    ensures
        StoreModel::empty().accounted(),
{
    sums::lemma_sum_empty::<ObjectId, StoredEntry>(|e: StoredEntry| e.spec_bytes());
}

/// Removing ids removes exactly those.
pub proof fn law_drop_all_entries(m: StoreModel, ids: Seq<ObjectId>)
    ensures
        m.drop_all(ids).entries == m.entries.remove_keys(ids.to_set()),
    decreases ids.len(),
{
    if ids.len() == 0 {
        assert(m.entries.remove_keys(ids.to_set()) =~= m.entries);
    } else {
        law_drop_all_entries(m, ids.drop_last());
        assert(ids =~= ids.drop_last().push(ids.last()));
        lemma_push_to_set(ids.drop_last(), ids.last());
        assert(m.drop_all(ids).entries =~= m.entries.remove_keys(ids.to_set()));
    }
}

/// What was stored is what a lookup finds, and other ids are unaffected.
pub proof fn law_put_get(m: StoreModel, id: ObjectId, entry: StoredEntry, other: ObjectId)
    ensures
        m.put(id, entry).entries.contains_key(id),
        m.put(id, entry).entries[id] == entry,
        m.put(id, entry).state_of(id) == entry.spec_state(),
        other != id ==> m.put(id, entry).entries.contains_key(other) == m.entries.contains_key(
            other,
        ),
        other != id && m.entries.contains_key(other) ==> m.put(id, entry).entries[other]
            == m.entries[other],
{
}

/// A wait hands out every requested id exactly once: as many in both parts together as
/// were asked for, and each id in the part where it belongs.
pub proof fn law_wait_partitions(m: StoreModel, ids: Seq<ObjectId>)
    ensures
        m.ready(ids).to_multiset().add(m.not_ready(ids).to_multiset()) == ids.to_multiset(),
        m.ready(ids).len() + m.not_ready(ids).len() == ids.len(),
    decreases ids.len(),
{
    reveal(Seq::filter);
    broadcast use vstd::seq_lib::group_to_multiset_ensures;

    if ids.len() > 0 {
        let rest = ids.drop_last();
        law_wait_partitions(m, rest);
        assert(ids =~= rest.push(ids.last()));
        assert(ids.to_multiset() =~= rest.to_multiset().insert(ids.last()));
        if m.entries.contains_key(ids.last()) {
            assert(m.ready(ids) =~= m.ready(rest).push(ids.last()));
        } else {
            assert(m.not_ready(ids) =~= m.not_ready(rest).push(ids.last()));
        }
        assert(m.ready(ids).to_multiset().add(m.not_ready(ids).to_multiset())
            =~= ids.to_multiset());
    } else {
        assert(m.ready(ids) =~= Seq::<ObjectId>::empty());
        assert(m.not_ready(ids) =~= Seq::<ObjectId>::empty());
        assert(m.ready(ids).to_multiset().add(m.not_ready(ids).to_multiset())
            =~= ids.to_multiset());
    }
}

/// Storing an object replaces what stood under its identifier in the byte counter, as long as
/// the counter is exact, and leaves every other object and its state alone.
pub proof fn law_put_is_local(m: StoreModel, id: ObjectId, entry: StoredEntry, other: ObjectId)
    requires
        other != id,
    ensures
        m.put(id, entry).entries.contains_key(other) == m.entries.contains_key(other),
        m.entries.contains_key(other) ==> m.put(id, entry).entries[other] == m.entries[other],
        m.put(id, entry).state_of(other) == m.state_of(other),
        m.put(id, entry).spilled.contains(other) == m.spilled.contains(other),
        !m.put(id, entry).spilled.contains(id),
{
}

/// The byte counter grows by what a new object takes, shrinks by what a removed one took, and
/// changes by the difference where one replaces another.
pub proof fn law_bytes_follow_the_entries(m: StoreModel, id: ObjectId, entry: StoredEntry)
    requires
        m.entries.contains_key(id) ==> m.bytes >= m.entries[id].spec_bytes(),
        m.bytes + entry.spec_bytes() <= u64::MAX,
    ensures
        !m.entries.contains_key(id) ==> m.put(id, entry).bytes == m.bytes + entry.spec_bytes(),
        m.entries.contains_key(id) ==> m.put(id, entry).bytes + m.entries[id].spec_bytes()
            == m.bytes + entry.spec_bytes(),
        m.entries.contains_key(id) ==> m.drop_one(id).bytes + m.entries[id].spec_bytes() == m.bytes,
        !m.entries.contains_key(id) ==> m.drop_one(id) == m,
{
}

/// Removing an object removes it and no other.
pub proof fn law_drop_is_local(m: StoreModel, id: ObjectId, other: ObjectId)
    ensures
        !m.drop_one(id).entries.contains_key(id),
        m.drop_one(id).state_of(id) == RefState::Pending,
        other != id ==> m.drop_one(id).entries.contains_key(other) == m.entries.contains_key(other),
        other != id && m.entries.contains_key(other) ==> m.drop_one(id).entries[other]
            == m.entries[other],
        other != id ==> m.drop_one(id).spilled.contains(other) == m.spilled.contains(other),
{
}

/// An object is pending exactly where it is not here, and failed exactly where what is here is
/// an error.
pub proof fn law_states(m: StoreModel, id: ObjectId)
    ensures
        m.state_of(id) == RefState::Pending <==> !m.entries.contains_key(id),
        m.state_of(id) == RefState::Failed <==> m.entries.contains_key(id) && (match m.entries[id] {
            StoredEntry::Inline(obj) => obj.metadata is Error,
            StoredEntry::Plasma(idx) => idx.metadata is Error,
        }),
        m.state_of(id) == RefState::ReadyLocal <==> m.entries.contains_key(id) && !(
        match m.entries[id] {
            StoredEntry::Inline(obj) => obj.metadata is Error,
            StoredEntry::Plasma(idx) => idx.metadata is Error,
        }),
{
}

/// A wait hands out as ready exactly the ids that are here, in the order in which they were
/// asked for, and the others as not ready.
pub proof fn law_wait_tells_presence(m: StoreModel, ids: Seq<ObjectId>, id: ObjectId)
    ensures
        m.ready(ids).contains(id) <==> ids.contains(id) && m.entries.contains_key(id),
        m.not_ready(ids).contains(id) <==> ids.contains(id) && !m.entries.contains_key(id),
        m.ready(ids).len() == ids.len() <==> forall|i: int|
            0 <= i < ids.len() ==> m.entries.contains_key(#[trigger] ids[i]),
    decreases ids.len(),
{
    reveal(Seq::filter);
    if ids.len() > 0 {
        let rest = ids.drop_last();
        let x = ids.last();
        law_wait_tells_presence(m, rest, id);
        law_wait_partitions(m, ids);
        law_wait_partitions(m, rest);
        assert(ids[ids.len() - 1] == x);
        assert(ids.contains(id) == (rest.contains(id) || id == x)) by {
            if rest.contains(id) {
                assert(ids[rest.index_of(id)] == id);
            }
            if ids.contains(id) && id != x {
                assert(rest[ids.index_of(id)] == id);
            }
        }
        if m.entries.contains_key(x) {
            lemma_push_contains(m.ready(rest), x, id);
            assert(m.ready(ids) =~= m.ready(rest).push(x));
        } else {
            lemma_push_contains(m.not_ready(rest), x, id);
            assert(m.not_ready(ids) =~= m.not_ready(rest).push(x));
        }
        if m.ready(ids).len() == ids.len() {
            assert forall|i: int| 0 <= i < ids.len() implies m.entries.contains_key(
                #[trigger] ids[i],
            ) by {
                if i < rest.len() {
                    assert(rest[i] == ids[i]);
                }
            }
        }
        if forall|i: int| 0 <= i < ids.len() ==> m.entries.contains_key(#[trigger] ids[i]) {
            assert forall|i: int| 0 <= i < rest.len() implies m.entries.contains_key(
                #[trigger] rest[i],
            ) by {
                assert(rest[i] == ids[i]);
            }
        }
    } else {
        assert(m.ready(ids) =~= Seq::<ObjectId>::empty());
        assert(m.not_ready(ids) =~= Seq::<ObjectId>::empty());
    }
}

proof fn lemma_push_contains(s: Seq<ObjectId>, x: ObjectId, y: ObjectId)
    ensures
        s.push(x).contains(y) == (s.contains(y) || x == y),
{
    let t = s.push(x);
    assert(t[s.len() as int] == x);
    if s.contains(y) {
        assert(t[s.index_of(y)] == y);
    }
    if t.contains(y) && x != y {
        assert(s[t.index_of(y)] == y);
    }
}

/// An object in shared memory counts locally as its pointer, an inline one with all its bytes.
pub proof fn law_local_bytes(obj: Arc<RayObject>, idx: PlasmaIndex)
    ensures
        StoredEntry::Inline(obj).spec_bytes() == obj.metadata.wire().len() + obj.data@.len(),
        StoredEntry::Plasma(idx).spec_bytes() == StoredEntry::Plasma(
            PlasmaIndex { data_size: 0, ..idx },
        ).spec_bytes(),
{
}

/// The pointers into shared memory are listed once each, in order, and those whose data has
/// left it are not among the resident ones.
pub proof fn law_lists_hold_the_pointers(s: StoreModel, ids: Seq<ObjectId>, id: ObjectId, idx: PlasmaIndex)
    requires
        ids.no_duplicates(),
    ensures
        plasma_list(s.entries, ids).contains((id, idx)) <==> ids.contains(id) && s.entries[id]
            == StoredEntry::Plasma(idx),
        resident_list(s, ids).contains((id, idx)) <==> ids.contains(id) && s.entries[id]
            == StoredEntry::Plasma(idx) && !s.spilled.contains(id),
        plasma_list(s.entries, ids).len() <= ids.len(),
    decreases ids.len(),
{
    if ids.len() > 0 {
        let rest = ids.drop_last();
        let x = ids.last();
        law_lists_hold_the_pointers(s, rest, id, idx);
        assert(ids[ids.len() - 1] == x);
        assert(ids.contains(id) == (rest.contains(id) || id == x)) by {
            if rest.contains(id) {
                assert(ids[rest.index_of(id)] == id);
            }
            if ids.contains(id) && id != x {
                assert(rest[ids.index_of(id)] == id);
            }
        }
        match s.entries[x] {
            StoredEntry::Plasma(i) => {
                lemma_push_pair(plasma_list(s.entries, rest), (x, i), (id, idx));
                lemma_push_pair(resident_list(s, rest), (x, i), (id, idx));
            },
            StoredEntry::Inline(_) => {},
        }
    }
}

proof fn lemma_push_pair(
    s: Seq<(ObjectId, PlasmaIndex)>,
    x: (ObjectId, PlasmaIndex),
    y: (ObjectId, PlasmaIndex),
)
    ensures
        s.push(x).contains(y) == (s.contains(y) || x == y),
{
    let t = s.push(x);
    assert(t[s.len() as int] == x);
    if s.contains(y) {
        assert(t[s.index_of(y)] == y);
    }
    if t.contains(y) && x != y {
        assert(s[t.index_of(y)] == y);
    }
}

/// The byte counter neither falls below nothing nor goes beyond its largest number, and is exact
/// in between.
pub proof fn law_saturation(a: int, b: int)
    requires
        0 <= a <= u64::MAX,
        0 <= b,
    ensures
        b <= a ==> sat_sub(a, b) + b == a,
        b > a ==> sat_sub(a, b) == 0,
        a + b <= u64::MAX ==> sat_add(a, b) - b == a,
        a + b > u64::MAX ==> sat_add(a, b) == u64::MAX,
{
}

} // verus!
