//! The root of a process: its identity, its store, its reference counter, and every
//! decision about where an object goes and what becomes of it.
//!
//! The shared-memory store and the recovery store are outside: an operation that needs
//! them returns what to do there, and a second function takes what came back.

use crate::kernel::id::{JobId, ObjectId, TaskId, WorkerId};
use crate::kernel::metadata::Metadata;
use crate::kernel::object_ref::{Address, AddressModel, ObjectRef, ObjectRefModel};
use crate::kernel::ray_object::RayObject;
use crate::kernel::recovery::{RecoveredObject, RecoveryError};
use crate::kernel::ref_counter;
use crate::kernel::ref_counter::{RefCounter, RefModel, RefOp};
use crate::kernel::store;
use crate::kernel::store::{BlockingRead, MemoryStore, PlasmaIndex, StoreModel, StoredEntry};
use crate::plasma::error::{PlasmaError, ServerErrorKind};
use crate::plasma::wire::{AddressBlob, AddressBlobModel};
use crate::util::bytes;
use crate::util::bytes::{copy_bytes, push_bytes, push_u64_le, to_array};
use crate::util::hexadecimal;
use crate::util::text::{concat2, concat3};
use std::sync::Arc;
use vstd::prelude::*;

verus! {

/// Values of more bytes than this go to shared memory.
pub const INLINE_THRESHOLD_BYTES: usize = 102_400;

/// Default budget of shared memory.
pub const DEFAULT_SPILL_BUDGET_BYTES: u64 = 1_073_741_824;

/// Three quarters of the default budget: above this, objects are spilled.
pub const DEFAULT_SPILL_THRESHOLD_BYTES: u64 = 805_306_368;

/// When objects are moved out of shared memory.
#[derive(Debug, Clone, Copy, PartialEq, Eq, Structural)]
pub struct SpillPolicy {
    /// Bytes of shared memory to use.
    pub budget_bytes: u64,
    /// Usage above which objects are spilled.
    pub threshold_bytes: u64,
}

impl Default for SpillPolicy {
    fn default() -> (r: Self)
        ensures
            r.budget_bytes == DEFAULT_SPILL_BUDGET_BYTES,
            r.threshold_bytes == DEFAULT_SPILL_THRESHOLD_BYTES,
    {
        SpillPolicy {
            budget_bytes: DEFAULT_SPILL_BUDGET_BYTES,
            threshold_bytes: DEFAULT_SPILL_THRESHOLD_BYTES,
        }
    }
}

/// A failed operation of a worker.
#[derive(Debug)]
pub enum CoreError {
    /// The shared-memory store failed.
    Plasma(PlasmaError),
    /// The object is in shared memory, but none is connected.
    PlasmaUnavailable {
        /// The object, in hexadecimal.
        object_id: String,
    },
    /// The recovery store failed.
    Recovery {
        /// The object, in hexadecimal.
        object_id: String,
        /// Why.
        reason: String,
    },
}

impl CoreError {
    /// The text of the error.
    pub open spec fn spec_text(&self) -> Seq<char> {
        match self {
            CoreError::Plasma(e) => "plasma: "@ + e.spec_text(),
            CoreError::PlasmaUnavailable { object_id } => "object "@ + object_id@
                + " is plasma-resident but no plasma client is connected"@,
            CoreError::Recovery { object_id, reason } => "recovery failed for "@ + object_id@
                + ": "@ + reason@,
        }
    }

    /// The text of the error.
    pub fn text(&self) -> (r: String)
        ensures
            r@ == self.spec_text(),
    {
        match self {
            CoreError::Plasma(e) => concat2("plasma: ", e.text().as_str()),
            CoreError::PlasmaUnavailable { object_id } => concat3(
                "object ",
                object_id.as_str(),
                " is plasma-resident but no plasma client is connected",
            ),
            CoreError::Recovery { object_id, reason } => {
                let mut r = concat3("recovery failed for ", object_id.as_str(), ": ");
                r.append(reason.as_str());
                r
            },
        }
    }

    /// Whether this says that `id` is in shared memory but none is connected.
    pub open spec fn says_unavailable(&self, id: ObjectId) -> bool {
        self matches CoreError::PlasmaUnavailable { object_id } && object_id@
            == hexadecimal::hex_text(id.0@)
    }

    /// Whether this says that recovering `id` failed for `why`.
    pub open spec fn says_recovery(&self, id: ObjectId, why: Seq<char>) -> bool {
        self matches CoreError::Recovery { object_id, reason } && object_id@
            == hexadecimal::hex_text(id.0@) && reason@ == why
    }

    /// Whether this says that `id` was found nowhere, for `why`.
    pub open spec fn says_lost(&self, id: ObjectId, why: Seq<char>) -> bool {
        self matches CoreError::Plasma(PlasmaError::Server { kind, message }) && kind
            == ServerErrorKind::NotFound && message@ == "object "@ + hexadecimal::hex_text(id.0@)
            + why
    }
}

/// A value that was found.
#[derive(Debug)]
pub struct ResolvedObject {
    /// Its metadata.
    pub metadata: Metadata,
    /// Its data.
    pub data: Vec<u8>,
    /// The references inside it.
    pub nested_refs: Vec<ObjectRef>,
}

/// The contents of references.
pub open spec fn refs_view(refs: Seq<ObjectRef>) -> Seq<ObjectRefModel> {
    refs.map_values(|r: ObjectRef| r@)
}

/// An object to create and seal in shared memory.
#[derive(Debug)]
pub struct PlasmaWrite {
    /// The object.
    pub object_id: ObjectId,
    /// Its encoded metadata.
    pub metadata: Vec<u8>,
    /// Its data.
    pub data: Vec<u8>,
    /// Its owner.
    pub owner: AddressBlob,
    /// Whether it goes to shared memory whatever its size, so that usage is looked at once it
    /// is sealed.
    pub forced: bool,
}

impl PlasmaWrite {
    /// Whether `maybe_spill_for_pressure` is to be asked after the seal ended: after one that
    /// `seal_value_to_plasma` began, where it succeeded, and after no other.
    pub fn looks_at_pressure(&self, sealed: &Result<u64, CoreError>) -> (b: bool)
        ensures
            b == (self.forced && sealed is Ok),
    {
        self.forced && sealed.is_ok()
    }
}

/// What storing a value takes.
#[derive(Debug)]
pub enum SealStep {
    /// The value is stored.
    Stored,
    /// Create and seal this object; then report with `value_sealed`.
    Write(PlasmaWrite),
}

/// What a dropped pin takes.
#[derive(Debug, Clone, Copy, PartialEq, Eq, Structural)]
pub enum FreeStep {
    /// Nothing.
    Kept,
    /// The object is gone from the local store.
    Freed {
        /// Whether it has to be removed from shared memory too. Either way, ask
        /// `free_finished` then.
        delete_from_plasma: bool,
    },
}

/// What finding a value takes.
#[derive(Debug)]
pub enum ResolveStep {
    /// The value is not known.
    Absent,
    /// Wait for the store to change, or the deadline.
    Wait,
    /// The value.
    Done(ResolvedObject),
    /// Read the object from shared memory; then ask `plasma_read`.
    ReadPlasma(PlasmaIndex),
    /// The value cannot be had.
    Failed(CoreError),
}

/// What a read of shared memory leads to.
#[derive(Debug)]
pub enum ReadStep {
    /// The value.
    Done(ResolvedObject),
    /// Ask the recovery store; then ask `recover_and_reseal`.
    AskRecoverer,
    /// The value cannot be had.
    Failed(CoreError),
}

/// What a recovery leads to.
#[derive(Debug)]
pub enum RecoverStep {
    /// Create and seal this object again; then ask `resealed`.
    Reseal(PlasmaWrite),
    /// The value cannot be had.
    Failed(CoreError),
}

/// What reading an object that is to be spilled leads to.
#[derive(Debug)]
pub enum SpillRead {
    /// It is not in shared memory.
    Gone,
    /// Hand these bytes to the recovery store; then ask `spill_stored`.
    Store {
        /// Encoded metadata.
        metadata: Vec<u8>,
        /// Data.
        data: Vec<u8>,
    },
    /// It cannot be spilled.
    Failed(CoreError),
}

/// How the spill of one object ended.
#[derive(Debug, Clone, Copy, PartialEq, Eq, Structural)]
pub enum SpillOutcome {
    /// It was spilled.
    Spilled,
    /// It was gone already.
    Gone,
    /// It failed.
    Failed,
}

/// The mathematical content of a worker.
#[verifier::ext_equal]
pub struct WorkerModel {
    /// The job.
    pub job_id: JobId,
    /// The worker.
    pub worker_id: WorkerId,
    /// Its address.
    pub address: AddressModel,
    /// Its store.
    pub store: StoreModel,
    /// Its reference counter.
    pub refs: RefModel,
    /// Whether shared memory is connected.
    pub has_plasma: bool,
    /// Whether there is a recovery store.
    pub has_recoverer: bool,
    /// Whether someone wants to be told of freed objects.
    pub has_free_callback: bool,
    /// When objects are spilled.
    pub policy: SpillPolicy,
    /// Values of more bytes than this go to shared memory.
    pub inline_threshold: usize,
    /// Number of task identifiers handed out.
    pub counter: u64,
}

impl WorkerModel {
    /// The owner address that goes with objects in shared memory.
    pub open spec fn owner(self) -> AddressBlobModel {
        AddressBlobModel {
            host: self.address.host,
            port: self.address.port,
            worker_id: self.address.worker_id.0@,
        }
    }

    /// Whether a write is that of `data` under `id` with the given encoded metadata.
    pub open spec fn writes(self, w: PlasmaWrite, id: ObjectId, metadata: Seq<u8>, data: Seq<u8>)
        -> bool {
        w.object_id == id && w.metadata@ == metadata && w.data@ == data && w.owner@ == self.owner()
    }

    /// Whether `after` is the worker with a value stored inline as its own.
    pub open spec fn stores_inline(
        self,
        id: ObjectId,
        metadata: Metadata,
        data: Vec<u8>,
        after: WorkerModel,
    ) -> bool {
        exists|obj: Arc<RayObject>|
            {
                &&& obj.metadata == metadata
                &&& obj.data == data
                &&& obj.nested_refs@ == Seq::<ObjectRef>::empty()
                &&& after == (WorkerModel {
                    store: #[trigger] self.store.put(id, StoredEntry::Inline(obj)),
                    refs: ref_counter::ref_step(self.refs, RefOp::AddOwned(id)),
                    ..self
                })
            }
    }

    /// The worker after an object in shared memory became its own.
    pub open spec fn owns_plasma(self, id: ObjectId, index: PlasmaIndex) -> WorkerModel {
        WorkerModel {
            store: self.store.put(id, StoredEntry::Plasma(index)),
            refs: ref_counter::ref_step(self.refs, RefOp::AddOwned(id)),
            ..self
        }
    }

    /// The worker after a pin of `id` was dropped by `op`: where it was the last, the
    /// object leaves the store.
    pub open spec fn unpin(self, op: RefOp) -> WorkerModel {
        let refs = ref_counter::ref_step(self.refs, op);
        WorkerModel {
            refs,
            store: if ref_counter::ref_unpins(self.refs, op) {
                self.store.drop_one(op.id())
            } else {
                self.store
            },
            ..self
        }
    }

    /// The worker once the data of `id` is known to have left shared memory.
    pub open spec fn without_data(self, id: ObjectId) -> WorkerModel {
        WorkerModel { store: self.store.without_data(id), ..self }
    }

    /// The worker once the data of `id` is known to be in shared memory.
    pub open spec fn with_data(self, id: ObjectId) -> WorkerModel {
        WorkerModel { store: self.store.with_data(id), ..self }
    }

    /// What dropping a pin by `op` takes.
    pub open spec fn free_step(self, op: RefOp) -> FreeStep {
        if ref_counter::ref_unpins(self.refs, op) {
            FreeStep::Freed { delete_from_plasma: self.has_plasma }
        } else {
            FreeStep::Kept
        }
    }
}

/// The bytes of task identifier number `n` of a job.
pub open spec fn task_bytes(job: JobId, n: u64) -> Seq<u8> {
    job.0@ + bytes::u64_le(n)
}

/// The root of a process.
#[derive(Debug)]
pub struct CoreWorker {
    job_id: JobId,
    worker_id: WorkerId,
    address: Address,
    store: MemoryStore,
    refs: RefCounter,
    has_plasma: bool,
    has_recoverer: bool,
    has_free_callback: bool,
    spill_policy: SpillPolicy,
    inline_threshold: usize,
    next_task_counter: u64,
}

impl View for CoreWorker {
    type V = WorkerModel;

    closed spec fn view(&self) -> WorkerModel {
        WorkerModel {
            job_id: self.job_id,
            worker_id: self.worker_id,
            address: self.address@,
            store: self.store@,
            refs: self.refs@,
            has_plasma: self.has_plasma,
            has_recoverer: self.has_recoverer,
            has_free_callback: self.has_free_callback,
            policy: self.spill_policy,
            inline_threshold: self.inline_threshold,
            counter: self.next_task_counter,
        }
    }
}

fn resolved(metadata: Metadata, data: Vec<u8>) -> (r: ResolvedObject)
    ensures
        r.metadata == metadata,
        r.data == data,
        r.nested_refs@ == Seq::<ObjectRef>::empty(),
{
    ResolvedObject { metadata, data, nested_refs: Vec::new() }
}

fn copy_refs(refs: &Vec<ObjectRef>) -> (r: Vec<ObjectRef>)
    ensures
        refs_view(r@) == refs_view(refs@),
{
    let mut r: Vec<ObjectRef> = Vec::new();
    let mut i: usize = 0;
    assert(refs_view(r@) =~= refs_view(refs@).take(0));
    while i < refs.len()
        invariant
            i <= refs@.len(),
            refs_view(r@) == refs_view(refs@).take(i as int),
        decreases refs@.len() - i,
    {
        let ghost before = r@;
        let x = refs[i].clone();
        r.push(x);
        proof {
            assert(refs_view(r@) =~= refs_view(before).push(x@));
            assert(refs_view(refs@).take(i + 1) =~= refs_view(refs@).take(i as int).push(
                refs_view(refs@)[i as int],
            ));
        }
        i += 1;
    }
    assert(refs_view(refs@).take(i as int) =~= refs_view(refs@));
    r
}

/// What removing an object from shared memory came to: that it was not there is no
/// failure.
pub fn deletion_outcome(reply: Result<(), PlasmaError>) -> (r: Result<(), CoreError>)
    ensures
        match (reply, r) {
            (Ok(_), Ok(_)) => true,
            (Err(e), Ok(_)) => e.spec_is(ServerErrorKind::NotFound),
            (Err(e), Err(CoreError::Plasma(x))) => !e.spec_is(ServerErrorKind::NotFound) && x == e,
            _ => false,
        },
{
    match reply {
        Ok(()) => Ok(()),
        Err(e) => if e.is(ServerErrorKind::NotFound) {
            Ok(())
        } else {
            Err(CoreError::Plasma(e))
        },
    }
}

impl CoreWorker {
    /// The store and the counter are well formed.
    pub closed spec fn wf(&self) -> bool {
        self.store.wf() && self.refs.wf()
    }

    /// A worker without shared memory and without a recovery store.
    pub fn new(job_id: JobId, worker_id: WorkerId, address: Address) -> (r: Self)
        ensures
            r.wf(),
            r@ == (WorkerModel {
                job_id,
                worker_id,
                address: address@,
                store: StoreModel::empty(),
                refs: RefModel::empty(),
                has_plasma: false,
                has_recoverer: false,
                has_free_callback: false,
                policy: SpillPolicy {
                    budget_bytes: DEFAULT_SPILL_BUDGET_BYTES,
                    threshold_bytes: DEFAULT_SPILL_THRESHOLD_BYTES,
                },
                inline_threshold: INLINE_THRESHOLD_BYTES,
                counter: 0,
            }),
    {
        CoreWorker {
            job_id,
            worker_id,
            address,
            store: MemoryStore::new(),
            refs: RefCounter::new(),
            has_plasma: false,
            has_recoverer: false,
            has_free_callback: false,
            spill_policy: SpillPolicy::default(),
            inline_threshold: INLINE_THRESHOLD_BYTES,
            next_task_counter: 0,
        }
    }

    /// A worker of a fresh job at a placeholder address.
    pub fn new_local() -> (r: Self)
        ensures
            r.wf(),
            r@.address == (AddressModel {
                host: "localhost"@,
                port: 0,
                worker_id: r@.worker_id,
            }),
            r@.store == StoreModel::empty(),
            r@.refs == RefModel::empty(),
            !r@.has_plasma,
            !r@.has_recoverer,
            !r@.has_free_callback,
            r@.inline_threshold == INLINE_THRESHOLD_BYTES,
            r@.policy == (SpillPolicy {
                budget_bytes: DEFAULT_SPILL_BUDGET_BYTES,
                threshold_bytes: DEFAULT_SPILL_THRESHOLD_BYTES,
            }),
            r@.counter == 0,
    {
        let worker_id = WorkerId::random();
        let job_id = JobId::random();
        let address = Address::new("localhost", 0, worker_id);
        Self::new(job_id, worker_id, address)
    }

    /// Records that shared memory is connected.
    pub fn connect_plasma(&mut self)
        requires
            old(self).wf(),
        ensures
            final(self).wf(),
            final(self)@ == (WorkerModel { has_plasma: true, ..old(self)@ }),
    {
        self.has_plasma = true;
    }

    /// Records that there is a recovery store.
    pub fn set_recoverer(&mut self)
        requires
            old(self).wf(),
        ensures
            final(self).wf(),
            final(self)@ == (WorkerModel { has_recoverer: true, ..old(self)@ }),
    {
        self.has_recoverer = true;
    }

    /// Records that someone wants to be told of freed objects.
    pub fn set_free_callback(&mut self)
        requires
            old(self).wf(),
        ensures
            final(self).wf(),
            final(self)@ == (WorkerModel { has_free_callback: true, ..old(self)@ }),
    {
        self.has_free_callback = true;
    }

    /// Ends freeing an object after its removal from shared memory was answered, or was not
    /// asked for: whether someone is to be told of it now.
    pub fn free_finished(&self, reply: Option<Result<(), PlasmaError>>) -> (r: Result<
        bool,
        CoreError,
    >)
        ensures
            match r {
                Ok(tell) => tell == self@.has_free_callback && (reply matches Some(Err(e))
                    ==> e.spec_is(ServerErrorKind::NotFound)),
                Err(CoreError::Plasma(x)) => reply == Some(Err::<(), PlasmaError>(x)) && !x.spec_is(
                    ServerErrorKind::NotFound,
                ),
                Err(_) => false,
            },
    {
        match reply {
            None => Ok(self.has_free_callback),
            Some(reply) => match deletion_outcome(reply) {
                Ok(()) => Ok(self.has_free_callback),
                Err(e) => Err(e),
            },
        }
    }

    /// Sets when objects are spilled.
    pub fn set_spill_policy(&mut self, policy: SpillPolicy)
        requires
            old(self).wf(),
        ensures
            final(self).wf(),
            final(self)@ == (WorkerModel { policy, ..old(self)@ }),
    {
        self.spill_policy = policy;
    }

    /// The store.
    pub fn store(&self) -> (r: &MemoryStore)
        requires
            self.wf(),
        ensures
            r@ == self@.store,
            r.wf(),
    {
        &self.store
    }

    /// Removes objects from the local store, whatever pins them.
    pub fn free(&mut self, ids: &[ObjectId])
        requires
            old(self).wf(),
        ensures
            final(self).wf(),
            final(self)@ == (WorkerModel {
                store: old(self)@.store.drop_all(ids@),
                ..old(self)@
            }),
    {
        self.store.delete(ids);
    }

    /// Records an object in shared memory that another process has sealed.
    pub fn record_plasma(&mut self, id: ObjectId, index: PlasmaIndex)
        requires
            old(self).wf(),
        ensures
            final(self).wf(),
            final(self)@ == (WorkerModel {
                store: old(self)@.store.put(id, StoredEntry::Plasma(index)),
                ..old(self)@
            }),
    {
        self.store.put_plasma(id, index);
    }

    /// The job.
    pub fn job_id(&self) -> (r: &JobId)
        ensures
            *r == self@.job_id,
    {
        &self.job_id
    }

    /// The worker.
    pub fn worker_id(&self) -> (r: &WorkerId)
        ensures
            *r == self@.worker_id,
    {
        &self.worker_id
    }

    /// The address that goes into references produced here.
    pub fn address(&self) -> (r: &Address)
        ensures
            r@ == self@.address,
    {
        &self.address
    }

    /// Whether shared memory is connected.
    pub fn has_plasma(&self) -> (b: bool)
        ensures
            b == self@.has_plasma,
    {
        self.has_plasma
    }

    /// Values of more bytes than this go to shared memory.
    pub fn inline_threshold(&self) -> (n: usize)
        ensures
            n == self@.inline_threshold,
    {
        self.inline_threshold
    }

    /// A fresh task identifier: the job and the next number, from 1.
    pub fn next_task_id(&mut self) -> (r: TaskId)
        requires
            old(self).wf(),
            old(self)@.counter < u64::MAX,
        ensures
            final(self).wf(),
            final(self)@ == (WorkerModel {
                counter: (old(self)@.counter + 1) as u64,
                ..old(self)@
            }),
            r.0@ == task_bytes(old(self)@.job_id, final(self)@.counter),
    {
        let n: u64 = self.next_task_counter + 1;
        self.next_task_counter = n;
        self.numbered_task(n)
    }

    /// The task identifier that comes next; none where all were handed out.
    pub fn upcoming_task_id(&self) -> (r: Option<TaskId>)
        ensures
            match r {
                Some(t) => self@.counter < u64::MAX && t.0@ == task_bytes(
                    self@.job_id,
                    (self@.counter + 1) as u64,
                ),
                None => self@.counter == u64::MAX,
            },
    {
        if self.next_task_counter == u64::MAX {
            None
        } else {
            Some(self.numbered_task(self.next_task_counter + 1))
        }
    }

    /// Task identifier number `n`.
    fn numbered_task(&self, n: u64) -> (r: TaskId)
        ensures
            r.0@ == task_bytes(self@.job_id, n),
    {
        let mut v: Vec<u8> = Vec::new();
        push_bytes(&mut v, self.job_id.as_bytes());
        push_u64_le(&mut v, n);
        assert(v@ =~= task_bytes(self.job_id, n));
        TaskId::from_bytes(to_array(v.as_slice()))
    }

    /// The owner address that goes with objects in shared memory.
    fn address_blob(&self) -> (r: AddressBlob)
        ensures
            r@ == self@.owner(),
    {
        AddressBlob::new(
            self.address.host.clone(),
            self.address.port,
            *self.address.worker_id.as_bytes(),
        )
    }

    /// Begins to store a value in shared memory whatever its size. Once it is sealed, usage is
    /// looked at.
    pub fn seal_value_to_plasma(&self, id: ObjectId, metadata: Metadata, data: Vec<u8>) -> (r:
        Result<PlasmaWrite, CoreError>)
        ensures
            match r {
                Ok(w) => self@.has_plasma && self@.writes(w, id, metadata.wire(), data@)
                    && w.forced,
                Err(e) => !self@.has_plasma && e.says_unavailable(id),
            },
    {
        if !self.has_plasma {
            return Err(CoreError::PlasmaUnavailable { object_id: id.hex() });
        }
        Ok(
            PlasmaWrite {
                object_id: id,
                metadata: metadata.encode(),
                data,
                owner: self.address_blob(),
                forced: true,
            },
        )
    }

    /// Begins to store a value: in shared memory where it is large and shared memory is
    /// connected, inline otherwise.
    pub fn seal_value(&mut self, id: ObjectId, metadata: Metadata, data: Vec<u8>) -> (r: SealStep)
        requires
            old(self).wf(),
            metadata.wire().len() + data@.len() <= usize::MAX,
            ref_counter::entry_or_empty(old(self)@.refs, id).local < u64::MAX,
        ensures
            final(self).wf(),
            match r {
                SealStep::Write(w) => {
                    &&& data@.len() > old(self)@.inline_threshold && old(self)@.has_plasma
                    &&& final(self)@ == old(self)@
                    &&& old(self)@.writes(w, id, metadata.wire(), data@)
                    &&& !w.forced
                },
                SealStep::Stored => {
                    &&& data@.len() <= old(self)@.inline_threshold || !old(self)@.has_plasma
                    &&& old(self)@.stores_inline(id, metadata, data, final(self)@)
                },
            },
    {
        if data.len() > self.inline_threshold && self.has_plasma {
            return SealStep::Write(
                PlasmaWrite {
                    object_id: id,
                    metadata: metadata.encode(),
                    data,
                    owner: self.address_blob(),
                    forced: false,
                },
            );
        }
        let object = RayObject::new(metadata, data);
        let ghost stored = object;
        self.store.put_inline(id, object);
        self.refs.add_owned(id);
        proof {
            let before = old(self)@;
            let obj = choose|obj: Arc<RayObject>|
                *obj == stored && self.store@ == #[trigger] before.store.put(
                    id,
                    StoredEntry::Inline(obj),
                );
            assert(self@ =~= (WorkerModel {
                store: before.store.put(id, StoredEntry::Inline(obj)),
                refs: ref_counter::ref_step(before.refs, RefOp::AddOwned(id)),
                ..before
            }));
        }
        SealStep::Stored
    }

    /// Ends storing a value of `data_size` bytes in shared memory: where it was created
    /// and sealed there, it becomes this worker's own.
    pub fn value_sealed(
        &mut self,
        id: ObjectId,
        metadata: Metadata,
        data_size: u64,
        reply: Result<(), PlasmaError>,
    ) -> (r: Result<u64, CoreError>)
        requires
            old(self).wf(),
            ref_counter::entry_or_empty(old(self)@.refs, id).local < u64::MAX,
        ensures
            final(self).wf(),
            match (reply, r) {
                (Ok(_), Ok(n)) => n == data_size && final(self)@ == old(self)@.owns_plasma(
                    id,
                    PlasmaIndex { metadata, data_size },
                ),
                (Err(e), Err(CoreError::Plasma(x))) => x == e && final(self)@ == old(self)@,
                _ => false,
            },
    {
        match reply {
            Ok(()) => {},
            Err(e) => return Err(CoreError::Plasma(e)),
        }
        self.store.put_plasma(id, PlasmaIndex { metadata, data_size });
        self.refs.add_owned(id);
        Ok(data_size)
    }

    /// The reference counter.
    pub fn refs(&self) -> (r: &RefCounter)
        requires
            self.wf(),
        ensures
            r@ == self@.refs,
            r.wf(),
    {
        &self.refs
    }

    /// A reference was cloned. Returns the new local count, 0 for an object that is not
    /// tracked.
    pub fn inc_local_ref(&mut self, id: ObjectId) -> (n: u64)
        requires
            old(self).wf(),
            ref_counter::entry_or_empty(old(self)@.refs, id).local < u64::MAX,
        ensures
            final(self).wf(),
            final(self)@ == (WorkerModel {
                refs: ref_counter::ref_step(old(self)@.refs, RefOp::IncLocal(id)),
                ..old(self)@
            }),
            n == ref_counter::entry_or_empty(final(self)@.refs, id).local,
    {
        self.refs.inc_local(id)
    }

    /// A reference was dropped; where it was the last pin, the object is freed.
    pub fn dec_local_ref(&mut self, id: ObjectId) -> (r: FreeStep)
        requires
            old(self).wf(),
        ensures
            final(self).wf(),
            final(self)@ == old(self)@.unpin(RefOp::DecLocal(id)),
            r == old(self)@.free_step(RefOp::DecLocal(id)),
    {
        if !self.refs.dec_local(id) {
            return FreeStep::Kept;
        }
        self.free_unpinned(id)
    }

    /// A task that reads `id` was submitted.
    pub fn add_submit_dep(&mut self, id: ObjectId)
        requires
            old(self).wf(),
            ref_counter::entry_or_empty(old(self)@.refs, id).deps < u64::MAX,
        ensures
            final(self).wf(),
            final(self)@ == (WorkerModel {
                refs: ref_counter::ref_step(old(self)@.refs, RefOp::AddSubmitDep(id)),
                ..old(self)@
            }),
    {
        self.refs.add_submit_dep(id);
    }

    /// A worker on another node holds a replica of `id`.
    pub fn add_borrower_pin(&mut self, id: ObjectId, borrower: WorkerId)
        requires
            old(self).wf(),
        ensures
            final(self).wf(),
            final(self)@ == (WorkerModel {
                refs: ref_counter::ref_step(old(self)@.refs, RefOp::AddBorrower(id, borrower)),
                ..old(self)@
            }),
    {
        self.refs.add_borrower(id, borrower);
    }

    /// A worker on another node has dropped its last reference; where it was the last pin,
    /// the object is freed.
    pub fn remove_borrower_pin(&mut self, id: ObjectId, borrower: WorkerId) -> (r: FreeStep)
        requires
            old(self).wf(),
        ensures
            final(self).wf(),
            final(self)@ == old(self)@.unpin(RefOp::RemoveBorrower(id, borrower)),
            r == old(self)@.free_step(RefOp::RemoveBorrower(id, borrower)),
    {
        if !self.refs.remove_borrower(id, borrower) {
            return FreeStep::Kept;
        }
        self.free_unpinned(id)
    }

    /// Removes an object from the local store.
    fn free_unpinned(&mut self, id: ObjectId) -> (r: FreeStep)
        requires
            old(self).wf(),
        ensures
            final(self).wf(),
            final(self)@ == (WorkerModel { store: old(self)@.store.drop_one(id), ..old(self)@ }),
            r == (FreeStep::Freed { delete_from_plasma: old(self)@.has_plasma }),
    {
        self.drop_from_store(id);
        FreeStep::Freed { delete_from_plasma: self.has_plasma }
    }

    fn drop_from_store(&mut self, id: ObjectId)
        requires
            old(self).wf(),
        ensures
            final(self).wf(),
            final(self)@ == (WorkerModel { store: old(self)@.store.drop_one(id), ..old(self)@ }),
    {
        let ids: [ObjectId; 1] = [id];
        let ghost before = self@.store;
        self.store.delete(&ids);
        proof {
            assert(ids@ =~= seq![id]);
            assert(ids@.drop_last() =~= Seq::<ObjectId>::empty());
            assert(before.drop_all(ids@.drop_last()) == before);
        }
    }

    /// Removes an object from the local store whatever pins it, as if it had been lost.
    /// Returns whether it has to be removed from shared memory too.
    pub fn evict_local(&mut self, id: ObjectId) -> (delete_from_plasma: bool)
        requires
            old(self).wf(),
        ensures
            final(self).wf(),
            final(self)@ == (WorkerModel { store: old(self)@.store.drop_one(id), ..old(self)@ }),
            delete_from_plasma == old(self)@.has_plasma,
    {
        self.drop_from_store(id);
        self.has_plasma
    }

    /// Begins to move an object from shared memory to the recovery store: read it from
    /// shared memory, and go on with `spill_read`.
    pub fn spill_to_recoverer(&self, id: ObjectId) -> (r: Result<(), CoreError>)
        ensures
            match r {
                Ok(_) => self@.has_recoverer && self@.has_plasma,
                Err(e) => if !self@.has_recoverer {
                    e.says_recovery(id, "no recoverer registered"@)
                } else {
                    !self@.has_plasma && e.says_unavailable(id)
                },
            },
    {
        if !self.has_recoverer {
            return Err(
                CoreError::Recovery {
                    object_id: id.hex(),
                    reason: "no recoverer registered".to_owned(),
                },
            );
        }
        if !self.has_plasma {
            return Err(CoreError::PlasmaUnavailable { object_id: id.hex() });
        }
        Ok(())
    }

    /// The object that is to be spilled was read.
    pub fn spill_read(
        &mut self,
        id: ObjectId,
        reply: Result<(Vec<u8>, Vec<u8>), PlasmaError>,
    ) -> (r: SpillRead)
        requires
            old(self).wf(),
        ensures
            final(self).wf(),
            match (reply, r) {
                (Ok((m, d)), SpillRead::Store { metadata, data }) => metadata == m && data == d
                    && final(self)@ == old(self)@.with_data(id),
                (Err(e), SpillRead::Gone) => e.spec_is(ServerErrorKind::NotFound) && final(self)@
                    == old(self)@.without_data(id),
                (Err(e), SpillRead::Failed(CoreError::Plasma(x))) => !e.spec_is(
                    ServerErrorKind::NotFound,
                ) && x == e && final(self)@ == old(self)@,
                _ => false,
            },
    {
        match reply {
            Ok((metadata, data)) => {
                self.store.data_back(id);
                SpillRead::Store { metadata, data }
            },
            Err(e) => if e.is(ServerErrorKind::NotFound) {
                self.store.data_left(id);
                SpillRead::Gone
            } else {
                SpillRead::Failed(CoreError::Plasma(e))
            },
        }
    }

    /// The recovery store was handed the object. On success it is to be removed from
    /// shared memory; then ask `spill_deleted`.
    pub fn spill_stored(&self, id: ObjectId, reply: Result<(), RecoveryError>) -> (r: Result<
        (),
        CoreError,
    >)
        ensures
            match (reply, r) {
                (Ok(_), Ok(_)) => true,
                (Err(e), Err(x)) => x.says_recovery(id, e.spec_text()),
                _ => false,
            },
    {
        match reply {
            Ok(()) => Ok(()),
            Err(e) => Err(CoreError::Recovery { object_id: id.hex(), reason: e.text() }),
        }
    }

    /// Shared memory was asked to remove the spilled object: that it was not there is no
    /// failure. The local store keeps its pointer, so that a later read recovers the object,
    /// but does not count its data any more.
    pub fn spill_deleted(&mut self, id: ObjectId, reply: Result<(), PlasmaError>) -> (r: Result<
        (),
        CoreError,
    >)
        requires
            old(self).wf(),
        ensures
            final(self).wf(),
            match r {
                Ok(_) => (reply matches Err(e) ==> e.spec_is(ServerErrorKind::NotFound))
                    && final(self)@ == old(self)@.without_data(id),
                Err(CoreError::Plasma(x)) => reply == Err::<(), PlasmaError>(x) && !x.spec_is(
                    ServerErrorKind::NotFound,
                ) && final(self)@ == old(self)@,
                Err(_) => false,
            },
    {
        match deletion_outcome(reply) {
            Ok(()) => {
                self.store.data_left(id);
                Ok(())
            },
            Err(e) => Err(e),
        }
    }

    /// Begins to spill objects when their data in shared memory exceeds the threshold;
    /// nothing otherwise, and nothing without a recovery store. Objects whose data has left
    /// shared memory neither count nor are spilled again.
    pub fn maybe_spill_for_pressure(&self) -> (r: Option<SpillRun>)
        requires
            self.wf(),
            plasma_total(self@.store) <= u64::MAX,
        ensures
            match r {
                Some(run) => {
                    &&& run.wf()
                    &&& run@.next == 0
                    &&& run@.spilled == 0
                    &&& run@.threshold == self@.policy.threshold_bytes
                    &&& run@.current == plasma_total(self@.store)
                    &&& self@.has_recoverer
                    &&& self@.policy.threshold_bytes != u64::MAX
                    &&& run@.current > run@.threshold
                    &&& exists|order: Seq<ObjectId>|
                        {
                            &&& order.no_duplicates()
                            &&& order.to_set() == self@.store.entries.dom()
                            &&& run@.entries == #[trigger] store::resident_list(self@.store, order)
                        }
                },
                None => !self@.has_recoverer || self@.policy.threshold_bytes == u64::MAX
                    || plasma_total(self@.store) <= self@.policy.threshold_bytes,
            },
    {
        let threshold: u64 = self.spill_policy.threshold_bytes;
        if !self.has_recoverer || threshold == u64::MAX {
            return None;
        }
        let entries = self.store.resident_entries();
        proof {
            self.store.lemma_order();
            lemma_plasma_total(self@.store, self.store.order());
        }
        let mut current: u64 = 0;
        let mut i: usize = 0;
        assert(entries@.take(0) =~= Seq::<(ObjectId, PlasmaIndex)>::empty());
        while i < entries.len()
            invariant
                i <= entries@.len(),
                sizes_sum(entries@) <= u64::MAX,
                current == sizes_sum(entries@.take(i as int)),
            decreases entries@.len() - i,
        {
            proof {
                lemma_sizes_prefix(entries@, i + 1);
                assert(entries@.take(i + 1).drop_last() =~= entries@.take(i as int));
                assert(entries@.take(i + 1).last() == entries@[i as int]);
            }
            current = current + entries[i].1.data_size;
            i += 1;
        }
        assert(entries@.take(i as int) =~= entries@);
        if current <= threshold {
            return None;
        }
        Some(SpillRun { entries, next: 0, current, threshold, spilled: 0 })
    }

    /// Begins to find a value without waiting.
    pub fn resolve_now(&self, id: &ObjectId) -> (r: ResolveStep)
        requires
            self.wf(),
        ensures
            if self@.store.entries.contains_key(*id) {
                self@.resolves(*id, self@.store.entries[*id], r)
            } else {
                r is Absent
            },
    {
        match self.store.get_entry(id) {
            None => ResolveStep::Absent,
            Some(entry) => self.resolve_entry(id, &entry),
        }
    }

    /// One look of finding a value with waiting; `expired` says whether the deadline has
    /// passed.
    pub fn resolve_blocking(&self, id: &ObjectId, expired: bool) -> (r: ResolveStep)
        requires
            self.wf(),
        ensures
            if self@.store.entries.contains_key(*id) {
                self@.resolves(*id, self@.store.entries[*id], r)
            } else if expired {
                r is Absent
            } else {
                r is Wait
            },
    {
        match self.store.get_entry_blocking(id, expired) {
            BlockingRead::Found(entry) => self.resolve_entry(id, &entry),
            BlockingRead::TimedOut => ResolveStep::Absent,
            BlockingRead::Wait => ResolveStep::Wait,
        }
    }

    fn resolve_entry(&self, id: &ObjectId, entry: &StoredEntry) -> (r: ResolveStep)
        ensures
            self@.resolves(*id, *entry, r),
    {
        match entry {
            StoredEntry::Inline(obj) => ResolveStep::Done(
                ResolvedObject {
                    metadata: obj.metadata,
                    data: copy_bytes(obj.data.as_slice()),
                    nested_refs: copy_refs(&obj.nested_refs),
                },
            ),
            StoredEntry::Plasma(idx) => if self.has_plasma {
                ResolveStep::ReadPlasma(*idx)
            } else {
                ResolveStep::Failed(CoreError::PlasmaUnavailable { object_id: id.hex() })
            },
        }
    }

    /// Shared memory was read for a value with pointer `idx`.
    pub fn plasma_read(
        &mut self,
        id: &ObjectId,
        idx: &PlasmaIndex,
        reply: Result<Vec<u8>, PlasmaError>,
    ) -> (r: ReadStep)
        requires
            old(self).wf(),
        ensures
            final(self).wf(),
            final(self)@ == (match reply {
                Ok(_) => old(self)@.with_data(*id),
                Err(e) => if e.spec_is(ServerErrorKind::NotFound) {
                    old(self)@.without_data(*id)
                } else {
                    old(self)@
                },
            }),
            match (reply, r) {
                (Ok(d), ReadStep::Done(v)) => v.metadata == idx.metadata && v.data == d
                    && v.nested_refs@ == Seq::<ObjectRef>::empty(),
                (Err(e), ReadStep::AskRecoverer) => e.spec_is(ServerErrorKind::NotFound)
                    && old(self)@.has_recoverer,
                (Err(e), ReadStep::Failed(x)) => if e.spec_is(ServerErrorKind::NotFound) {
                    !old(self)@.has_recoverer && x.says_lost(
                        *id,
                        " not in plasma and no recoverer registered"@,
                    )
                } else {
                    x == CoreError::Plasma(e)
                },
                _ => false,
            },
    {
        match reply {
            Ok(data) => {
                self.store.data_back(*id);
                ReadStep::Done(resolved(idx.metadata, data))
            },
            Err(e) => {
                if !e.is(ServerErrorKind::NotFound) {
                    return ReadStep::Failed(CoreError::Plasma(e));
                }
                self.store.data_left(*id);
                if self.has_recoverer {
                    return ReadStep::AskRecoverer;
                }
                ReadStep::Failed(lost(id, " not in plasma and no recoverer registered"))
            },
        }
    }

    /// The recovery store was asked for a value.
    pub fn recover_and_reseal(
        &self,
        id: &ObjectId,
        recovered: Result<Option<RecoveredObject>, RecoveryError>,
    ) -> (r: RecoverStep)
        ensures
            match (recovered, r) {
                (Ok(Some(o)), RecoverStep::Reseal(w)) => self@.has_plasma && self@.writes(
                    w,
                    *id,
                    o.metadata@,
                    o.data@,
                ) && !w.forced,
                (Ok(Some(_)), RecoverStep::Failed(x)) => !self@.has_plasma && x.says_unavailable(
                    *id,
                ),
                (Ok(None), RecoverStep::Failed(x)) => x.says_lost(
                    *id,
                    " not in plasma and not held by any recoverer"@,
                ),
                (Err(RecoveryError::Other(why)), RecoverStep::Failed(x)) => x.says_recovery(
                    *id,
                    why@,
                ),
                _ => false,
            },
    {
        match recovered {
            Ok(Some(o)) => {
                if !self.has_plasma {
                    return RecoverStep::Failed(
                        CoreError::PlasmaUnavailable { object_id: id.hex() },
                    );
                }
                RecoverStep::Reseal(
                    PlasmaWrite {
                        object_id: *id,
                        metadata: o.metadata,
                        data: o.data,
                        owner: self.address_blob(),
                        forced: false,
                    },
                )
            },
            Ok(None) => RecoverStep::Failed(
                lost(id, " not in plasma and not held by any recoverer"),
            ),
            Err(RecoveryError::Other(why)) => RecoverStep::Failed(
                CoreError::Recovery { object_id: id.hex(), reason: why },
            ),
        }
    }

    /// A recovered value was created and sealed again, so that its data counts again. That
    /// somebody else did so first is no failure.
    pub fn resealed(
        &mut self,
        idx: &PlasmaIndex,
        write: PlasmaWrite,
        reply: Result<(), PlasmaError>,
    ) -> (r: Result<ResolvedObject, CoreError>)
        requires
            old(self).wf(),
        ensures
            final(self).wf(),
            match r {
                Ok(v) => {
                    &&& final(self)@ == old(self)@.with_data(write.object_id)
                    &&& reply matches Err(e) ==> e.spec_is(ServerErrorKind::AlreadyExists)
                    &&& v.metadata == idx.metadata
                    &&& v.data == write.data
                    &&& v.nested_refs@ == Seq::<ObjectRef>::empty()
                },
                Err(x) => final(self)@ == old(self)@ && (reply matches Err(e) && !e.spec_is(
                    ServerErrorKind::AlreadyExists,
                ) && x == CoreError::Plasma(e)),
            },
    {
        match reply {
            Ok(()) => {},
            Err(e) => {
                if !e.is(ServerErrorKind::AlreadyExists) {
                    return Err(CoreError::Plasma(e));
                }
            },
        }
        self.store.data_back(write.object_id);
        Ok(resolved(idx.metadata, write.data))
    }
}

fn lost(id: &ObjectId, why: &str) -> (r: CoreError)
    ensures
        r.says_lost(*id, why@),
{
    CoreError::Plasma(
        PlasmaError::Server {
            kind: ServerErrorKind::NotFound,
            message: concat3("object ", id.hex().as_str(), why),
        },
    )
}

impl WorkerModel {
    /// Whether `r` is the right step for finding the value of `entry`.
    pub open spec fn resolves(self, id: ObjectId, entry: StoredEntry, r: ResolveStep) -> bool {
        match entry {
            StoredEntry::Inline(obj) => {
                r matches ResolveStep::Done(v) && v.metadata == obj.metadata && v.data@ == obj.data@
                    && refs_view(v.nested_refs@) == refs_view(obj.nested_refs@)
            },
            StoredEntry::Plasma(idx) => if self.has_plasma {
                r == ResolveStep::ReadPlasma(idx)
            } else {
                r matches ResolveStep::Failed(e) && e.says_unavailable(id)
            },
        }
    }
}

/// The bytes of data of listed objects together.
pub open spec fn sizes_sum(entries: Seq<(ObjectId, PlasmaIndex)>) -> nat
    decreases entries.len(),
{
    if entries.len() == 0 {
        0
    } else {
        sizes_sum(entries.drop_last()) + entries.last().1.data_size as nat
    }
}

/// Bytes of data in shared memory that an entry stands for.
pub open spec fn plasma_bytes(e: StoredEntry) -> nat {
    match e {
        StoredEntry::Plasma(idx) => idx.data_size as nat,
        StoredEntry::Inline(_) => 0,
    }
}

/// Bytes of data in shared memory that a store points to; data that has left it does not
/// count.
pub open spec fn plasma_total(s: StoreModel) -> nat {
    crate::util::sums::map_sum(s.entries.remove_keys(s.spilled), |e: StoredEntry| plasma_bytes(e))
}

proof fn lemma_sizes_prefix(entries: Seq<(ObjectId, PlasmaIndex)>, i: int)
    requires
        0 <= i <= entries.len(),
    ensures
        sizes_sum(entries.take(i)) <= sizes_sum(entries),
    decreases entries.len() - i,
{
    if i < entries.len() {
        lemma_sizes_prefix(entries, i + 1);
        assert(entries.take(i + 1).drop_last() =~= entries.take(i));
    } else {
        assert(entries.take(i) =~= entries);
    }
}

/// However the objects are listed, their sizes add up to the same number.
proof fn lemma_plasma_total(s: StoreModel, order: Seq<ObjectId>)
    requires
        order.no_duplicates(),
        order.to_set() == s.entries.dom(),
    ensures
        sizes_sum(store::resident_list(s, order)) == plasma_total(s),
    decreases order.len(),
{
    let f = |e: StoredEntry| plasma_bytes(e);
    order.unique_seq_to_set();
    let held = s.entries.remove_keys(s.spilled);
    assert(held.dom() =~= s.entries.dom().difference(s.spilled));
    if order.len() == 0 {
        assert(s.entries.dom().len() == 0);
        assert(held =~= Map::<ObjectId, StoredEntry>::empty());
    } else {
        let id = order.last();
        let rest = order.drop_last();
        assert(order.to_set().contains(id)) by {
            assert(order[order.len() - 1] == id);
        }
        let t = StoreModel { entries: s.entries.remove(id), ..s };
        if s.spilled.contains(id) {
            assert(t.entries.remove_keys(t.spilled) =~= held);
        } else {
            assert(t.entries.remove_keys(t.spilled) =~= held.remove(id));
            assert(held.contains_key(id));
            crate::util::sums::lemma_sum_remove(held, f, id);
        }
        assert(rest.no_duplicates());
        assert(rest.to_set() =~= t.entries.dom()) by {
            assert forall|x: ObjectId| rest.to_set().contains(x) == t.entries.dom().contains(x) by {
                if rest.contains(x) {
                    let j = rest.index_of(x);
                    assert(order[j] == x);
                    assert(order.to_set().contains(x));
                }
                if t.entries.dom().contains(x) {
                    assert(order.to_set().contains(x));
                    let j = order.index_of(x);
                    assert(rest[j] == x);
                }
            }
        }
        lemma_plasma_total(t, rest);
        assert(!rest.contains(id)) by {
            if rest.contains(id) {
                let j = rest.index_of(id);
                assert(order[j] == id && order[order.len() - 1] == id);
            }
        }
        lemma_list_without(s, rest, id);
        let front = store::resident_list(s, rest);
        match s.entries[id] {
            StoredEntry::Plasma(idx) => {
                assert(front.push((id, idx)).drop_last() =~= front);
            },
            StoredEntry::Inline(_) => {},
        }
    }
}

proof fn lemma_list_without(s: StoreModel, ids: Seq<ObjectId>, id: ObjectId)
    requires
        !ids.contains(id),
        ids.to_set().subset_of(s.entries.dom()),
    ensures
        store::resident_list(StoreModel { entries: s.entries.remove(id), ..s }, ids)
            == store::resident_list(s, ids),
    decreases ids.len(),
{
    if ids.len() > 0 {
        let rest = ids.drop_last();
        assert(ids.last() == ids[ids.len() - 1]);
        assert(!rest.contains(id)) by {
            if rest.contains(id) {
                let j = rest.index_of(id);
                assert(ids[j] == id);
            }
        }
        assert(rest.to_set().subset_of(s.entries.dom())) by {
            assert forall|x: ObjectId| rest.to_set().contains(x) implies s.entries.dom().contains(
                x,
            ) by {
                let j = rest.index_of(x);
                assert(ids[j] == x);
                assert(ids.to_set().contains(x));
            }
        }
        lemma_list_without(s, rest, id);
    }
}

/// A run over the objects in shared memory that spills one after the other until their
/// estimated size is at most the threshold.
#[derive(Debug)]
pub struct SpillRun {
    entries: Vec<(ObjectId, PlasmaIndex)>,
    next: usize,
    current: u64,
    threshold: u64,
    spilled: usize,
}

/// The mathematical content of a `SpillRun`.
#[verifier::ext_equal]
pub struct SpillRunModel {
    /// The objects.
    pub entries: Seq<(ObjectId, PlasmaIndex)>,
    /// How many were tried.
    pub next: nat,
    /// Estimated bytes in use.
    pub current: u64,
    /// The threshold.
    pub threshold: u64,
    /// How many were spilled.
    pub spilled: nat,
}

impl View for SpillRun {
    type V = SpillRunModel;

    closed spec fn view(&self) -> SpillRunModel {
        SpillRunModel {
            entries: self.entries@,
            next: self.next as nat,
            current: self.current,
            threshold: self.threshold,
            spilled: self.spilled as nat,
        }
    }
}

impl SpillRunModel {
    /// The object to spill next; nothing where usage is low enough or all were tried.
    pub open spec fn victim(self) -> Option<ObjectId> {
        if self.current <= self.threshold || self.next >= self.entries.len() {
            None
        } else {
            Some(self.entries[self.next as int].0)
        }
    }

    /// The run after the victim's spill ended.
    pub open spec fn report(self, outcome: SpillOutcome) -> SpillRunModel {
        let size = self.entries[self.next as int].1.data_size as int;
        SpillRunModel {
            next: self.next + 1,
            current: if outcome == SpillOutcome::Failed {
                self.current
            } else {
                store::sat_sub(self.current as int, size) as u64
            },
            spilled: if outcome == SpillOutcome::Spilled {
                self.spilled + 1
            } else {
                self.spilled
            },
            ..self
        }
    }
}

impl SpillRun {
    /// No more were spilled than tried, and no more tried than there are.
    pub closed spec fn wf(&self) -> bool {
        self.spilled <= self.next <= self.entries@.len()
    }

    /// The object to spill next.
    pub fn victim(&self) -> (r: Option<ObjectId>)
        ensures
            r == self@.victim(),
    {
        if self.current <= self.threshold || self.next >= self.entries.len() {
            None
        } else {
            Some(self.entries[self.next].0)
        }
    }

    /// The spill of the victim ended.
    pub fn report(&mut self, outcome: SpillOutcome)
        requires
            old(self).wf(),
            old(self)@.victim() is Some,
        ensures
            final(self).wf(),
            final(self)@ == old(self)@.report(outcome),
    {
        let size: u64 = self.entries[self.next].1.data_size;
        assert(self.next < self.entries.len());
        match outcome {
            SpillOutcome::Spilled => {
                self.current = self.current.saturating_sub(size);
                self.spilled = self.spilled + 1;
            },
            SpillOutcome::Gone => {
                self.current = self.current.saturating_sub(size);
            },
            SpillOutcome::Failed => {},
        }
        self.next = self.next + 1;
    }

    /// How many objects were spilled.
    pub fn spilled(&self) -> (n: usize)
        ensures
            n == self@.spilled,
    {
        self.spilled
    }
}

/// A run ends: with every report fewer objects are left.
pub proof fn law_spill_run_ends(run: SpillRunModel, outcome: SpillOutcome)
    requires
        run.victim() is Some,
    ensures
        run.entries.len() - run.report(outcome).next < run.entries.len() - run.next,
        run.report(outcome).next <= run.entries.len(),
        run.report(outcome).spilled <= run.spilled + 1,
{
}

/// When a run ends, usage is at most the threshold or every object was tried.
pub proof fn law_spill_run_goal(run: SpillRunModel)
    requires
        run.victim() is None,
    ensures
        run.current <= run.threshold || run.next >= run.entries.len(),
{
}

/// The data of an object that was spilled does not count until it is back.
pub proof fn law_spilled_data_does_not_count(s: StoreModel, id: ObjectId)
    requires
        s.entries.dom().finite(),
        s.entries.contains_key(id),
        s.entries[id] is Plasma,
        !s.spilled.contains(id),
    ensures
        plasma_total(s.without_data(id)) + plasma_bytes(s.entries[id]) == plasma_total(s),
        plasma_total(s.without_data(id).with_data(id)) == plasma_total(s),
        plasma_total(s.without_data(id).put(id, s.entries[id])) == plasma_total(s),
{
    let held = s.entries.remove_keys(s.spilled);
    assert(held.dom() =~= s.entries.dom().difference(s.spilled));
    let f = |e: StoredEntry| plasma_bytes(e);
    let less = s.without_data(id);
    assert(less.entries.remove_keys(less.spilled) =~= held.remove(id));
    crate::util::sums::lemma_sum_remove(held, f, id);
    let back = less.with_data(id);
    assert(back.entries.remove_keys(back.spilled) =~= held);
    let again = less.put(id, s.entries[id]);
    assert(again.entries.remove_keys(again.spilled) =~= held);
}

/// Whatever order the objects are listed in, none of those whose data has left shared memory
/// is spilled again.
pub proof fn law_spilled_objects_are_passed_over(s: StoreModel, order: Seq<ObjectId>, i: int)
    requires
        0 <= i < store::resident_list(s, order).len(),
    ensures
        !s.spilled.contains(store::resident_list(s, order)[i].0),
        order.contains(store::resident_list(s, order)[i].0),
    decreases order.len(),
{
    let rest = order.drop_last();
    let front = store::resident_list(s, rest);
    assert(order[order.len() - 1] == order.last());
    if i < front.len() {
        law_spilled_objects_are_passed_over(s, rest, i);
        let x = front[i].0;
        let j = rest.index_of(x);
        assert(order[j] == x);
    }
}

/// Task identifiers of a job carry the job in front, and different numbers give different
/// identifiers.
pub proof fn law_task_ids_distinct(job: JobId, a: u64, b: u64)
    ensures
        task_bytes(job, a).subrange(0, 16) == job.0@,
        bytes::le_u64(task_bytes(job, a).skip(16)) == a,
        a != b ==> task_bytes(job, a) != task_bytes(job, b),
{
    assert(task_bytes(job, a).subrange(0, 16) =~= job.0@);
    assert(task_bytes(job, a).skip(16) =~= bytes::u64_le(a) + Seq::<u8>::empty());
    assert(task_bytes(job, b).skip(16) =~= bytes::u64_le(b) + Seq::<u8>::empty());
    bytes::lemma_u64_round_trip(a, Seq::<u8>::empty());
    bytes::lemma_u64_round_trip(b, Seq::<u8>::empty());
}

/// An object leaves the store by a dropped pin exactly when that was its last pin.
pub proof fn law_free_on_last_pin(m: WorkerModel, op: RefOp)
    requires
        op is DecLocal || op is RemoveBorrower,
        m.store.entries.contains_key(op.id()),
    ensures
        !m.unpin(op).store.entries.contains_key(op.id()) <==> ref_counter::ref_unpins(m.refs, op),
        m.free_step(op) is Freed <==> ref_counter::ref_unpins(m.refs, op),
{
}

/// An object that was recorded in shared memory is looked for there, and what is read is
/// handed out under the recorded metadata.
pub proof fn law_plasma_value_is_read_back(m: WorkerModel, id: ObjectId, index: PlasmaIndex)
    requires
        m.has_plasma,
    ensures
        m.owns_plasma(id, index).resolves(
            id,
            m.owns_plasma(id, index).store.entries[id],
            ResolveStep::ReadPlasma(index),
        ),
{
}

/// A run after the given reports, one after the other.
pub open spec fn reported(run: SpillRunModel, outcomes: Seq<SpillOutcome>) -> SpillRunModel
    decreases outcomes.len(),
{
    if outcomes.len() == 0 {
        run
    } else {
        reported(run, outcomes.drop_last()).report(outcomes.last())
    }
}

/// Whether there was an object to spill before every one of the reports.
pub open spec fn all_called_for(run: SpillRunModel, outcomes: Seq<SpillOutcome>) -> bool {
    forall|k: int|
        0 <= k < outcomes.len() ==> (#[trigger] reported(run, outcomes.take(k))).victim() is Some
}

/// Bytes of the objects whose data has left shared memory by the reports.
pub open spec fn bytes_left(
    entries: Seq<(ObjectId, PlasmaIndex)>,
    outcomes: Seq<SpillOutcome>,
) -> nat
    decreases outcomes.len(),
{
    if outcomes.len() == 0 {
        0
    } else {
        bytes_left(entries, outcomes.drop_last()) + (if outcomes.last() is Failed {
            0nat
        } else {
            entries[outcomes.len() - 1].1.data_size as nat
        })
    }
}

/// How many of the reports say that an object was spilled.
pub open spec fn spilled_count(outcomes: Seq<SpillOutcome>) -> nat
    decreases outcomes.len(),
{
    if outcomes.len() == 0 {
        0
    } else {
        spilled_count(outcomes.drop_last()) + (if outcomes.last() is Spilled {
            1nat
        } else {
            0nat
        })
    }
}

proof fn lemma_reported_prefix(run: SpillRunModel, outcomes: Seq<SpillOutcome>)
    requires
        outcomes.len() > 0,
        all_called_for(run, outcomes),
    ensures
        all_called_for(run, outcomes.drop_last()),
        reported(run, outcomes.drop_last()).victim() is Some,
{
    let rest = outcomes.drop_last();
    assert forall|k: int| 0 <= k < rest.len() implies (#[trigger] reported(
        run,
        rest.take(k),
    )).victim() is Some by {
        assert(rest.take(k) =~= outcomes.take(k));
    }
    assert(outcomes.take(outcomes.len() - 1) =~= rest);
    assert(reported(run, outcomes.take(outcomes.len() - 1)).victim() is Some);
}

proof fn lemma_bytes_left(entries: Seq<(ObjectId, PlasmaIndex)>, outcomes: Seq<SpillOutcome>)
    requires
        outcomes.len() <= entries.len(),
    ensures
        bytes_left(entries, outcomes) <= sizes_sum(entries.take(outcomes.len() as int)),
        spilled_count(outcomes) == outcomes.len() ==> bytes_left(entries, outcomes) == sizes_sum(
            entries.take(outcomes.len() as int),
        ),
        spilled_count(outcomes) <= outcomes.len(),
    decreases outcomes.len(),
{
    let n = outcomes.len() as int;
    if n > 0 {
        lemma_bytes_left(entries, outcomes.drop_last());
        assert(entries.take(n).drop_last() =~= entries.take(n - 1));
        assert(entries.take(n).last() == entries[n - 1]);
    } else {
        assert(entries.take(n) =~= Seq::<(ObjectId, PlasmaIndex)>::empty());
    }
}

/// At every point of a run, its estimate is the size of all its objects less that of the
/// objects that were spilled or gone; it has tried as many as there were reports, and counts
/// those that were spilled.
pub proof fn law_spill_estimate(run: SpillRunModel, outcomes: Seq<SpillOutcome>)
    requires
        run.next == 0,
        run.spilled == 0,
        run.current == sizes_sum(run.entries),
        all_called_for(run, outcomes),
    ensures
        reported(run, outcomes).current + bytes_left(run.entries, outcomes) == sizes_sum(
            run.entries,
        ),
        reported(run, outcomes).next == outcomes.len(),
        outcomes.len() <= run.entries.len(),
        reported(run, outcomes).spilled == spilled_count(outcomes),
        reported(run, outcomes).entries == run.entries,
        reported(run, outcomes).threshold == run.threshold,
    decreases outcomes.len(),
{
    if outcomes.len() > 0 {
        let rest = outcomes.drop_last();
        lemma_reported_prefix(run, outcomes);
        law_spill_estimate(run, rest);
        lemma_bytes_left(run.entries, outcomes);
        lemma_sizes_prefix(run.entries, outcomes.len() as int);
        assert(outcomes.len() == rest.len() + 1);
    }
}

proof fn lemma_sizes_split(entries: Seq<(ObjectId, PlasmaIndex)>, k: int)
    requires
        0 <= k <= entries.len(),
    ensures
        sizes_sum(entries) == sizes_sum(entries.take(k)) + sizes_sum(entries.skip(k)),
{
    if k == entries.len() {
        assert(entries.take(k) =~= entries);
        assert(entries.skip(k) =~= Seq::<(ObjectId, PlasmaIndex)>::empty());
    } else {
        lemma_sizes_drop(entries, k);
    }
}

proof fn lemma_sizes_drop(entries: Seq<(ObjectId, PlasmaIndex)>, k: int)
    requires
        0 <= k < entries.len(),
    ensures
        sizes_sum(entries) == sizes_sum(entries.take(k)) + sizes_sum(entries.skip(k)),
    decreases entries.len(),
{
    let rest = entries.drop_last();
    assert(entries.skip(k).drop_last() =~= rest.skip(k));
    assert(entries.skip(k).last() == entries.last());
    assert(entries.take(k) =~= rest.take(k));
    if k < rest.len() {
        lemma_sizes_drop(rest, k);
    } else {
        assert(rest.take(k) =~= rest);
        assert(rest.skip(k) =~= Seq::<(ObjectId, PlasmaIndex)>::empty());
    }
}

/// A run in which every spill succeeded ends with the objects that were not spilled at or
/// below the threshold together, and it spills none while they are.
pub proof fn law_spill_reaches_the_threshold(run: SpillRunModel, outcomes: Seq<SpillOutcome>)
    requires
        run.next == 0,
        run.spilled == 0,
        run.current == sizes_sum(run.entries),
        all_called_for(run, outcomes),
        spilled_count(outcomes) == outcomes.len(),
    ensures
        reported(run, outcomes).victim() is None <==> sizes_sum(
            run.entries.skip(outcomes.len() as int),
        ) <= run.threshold,
        reported(run, outcomes).victim() matches Some(id) ==> id
            == run.entries[outcomes.len() as int].0,
{
    law_spill_estimate(run, outcomes);
    lemma_bytes_left(run.entries, outcomes);
    lemma_sizes_split(run.entries, outcomes.len() as int);
    if outcomes.len() == run.entries.len() {
        assert(run.entries.skip(outcomes.len() as int) =~= Seq::<(ObjectId, PlasmaIndex)>::empty());
    }
}

/// The data of an object in shared memory counts with its size, that of an inline object not
/// at all, and what an identifier stood for before no longer counts.
pub proof fn law_usage_is_counted(s: StoreModel, id: ObjectId, entry: StoredEntry)
    requires
        s.entries.dom().finite(),
    ensures
        plasma_total(s.put(id, entry)) == plasma_total(s.drop_one(id)) + (match entry {
            StoredEntry::Plasma(idx) => idx.data_size as nat,
            StoredEntry::Inline(_) => 0,
        }),
        plasma_total(StoreModel::empty()) == 0,
        !s.entries.contains_key(id) && !s.spilled.contains(id) ==> plasma_total(s.drop_one(id))
            == plasma_total(s),
{
    let f = |e: StoredEntry| plasma_bytes(e);
    let after = s.put(id, entry);
    let held = after.entries.remove_keys(after.spilled);
    assert(held.dom() =~= after.entries.dom().difference(after.spilled));
    assert(held.contains_key(id));
    crate::util::sums::lemma_sum_remove(held, f, id);
    let less = s.drop_one(id);
    assert(held.remove(id) =~= less.entries.remove_keys(less.spilled));
    let none = StoreModel::empty();
    assert(none.entries.remove_keys(none.spilled) =~= Map::<ObjectId, StoredEntry>::empty());
}

/// Sizes add up one by one.
pub proof fn law_sizes_add_up(entries: Seq<(ObjectId, PlasmaIndex)>, id: ObjectId, idx: PlasmaIndex)
    ensures
        sizes_sum(entries.push((id, idx))) == sizes_sum(entries) + idx.data_size,
        sizes_sum(Seq::<(ObjectId, PlasmaIndex)>::empty()) == 0,
{
    assert(entries.push((id, idx)).drop_last() =~= entries);
}

/// Objects that a worker writes to shared memory carry its own address and identifier.
pub proof fn law_writes_carry_the_owner(
    m: WorkerModel,
    w: PlasmaWrite,
    id: ObjectId,
    metadata: Seq<u8>,
    data: Seq<u8>,
)
    ensures
        m.writes(w, id, metadata, data) <==> w.object_id == id && w.metadata@ == metadata && w.data@
            == data && w.owner.host@ == m.address.host && w.owner.port == m.address.port
            && w.owner.worker_id@ == m.address.worker_id.0@,
{
}

/// A value that was sealed in shared memory is found there under its identifier and pinned by
/// one more reference; nothing else of the worker changes.
pub proof fn law_sealed_value_is_owned(
    m: WorkerModel,
    id: ObjectId,
    index: PlasmaIndex,
    other: ObjectId,
)
    requires
        other != id,
    ensures
        ({
            let after = m.owns_plasma(id, index);
            &&& after.store.entries.contains_key(id)
            &&& after.store.entries[id] == StoredEntry::Plasma(index)
            &&& !after.store.spilled.contains(id)
            &&& ref_counter::entry_or_empty(after.refs, id).local
                == ref_counter::entry_or_empty(m.refs, id).local + 1
            &&& ref_counter::entry_or_empty(after.refs, id).borrowers
                == ref_counter::entry_or_empty(m.refs, id).borrowers
            &&& ref_counter::entry_or_empty(after.refs, id).deps == ref_counter::entry_or_empty(
                m.refs,
                id,
            ).deps
            &&& after.store.entries.contains_key(other) == m.store.entries.contains_key(other)
            &&& m.store.entries.contains_key(other) ==> after.store.entries[other]
                == m.store.entries[other]
            &&& ref_counter::entry_or_empty(after.refs, other) == ref_counter::entry_or_empty(
                m.refs,
                other,
            )
            &&& after.counter == m.counter
            &&& after.policy == m.policy
            &&& after.has_plasma == m.has_plasma
            &&& after.has_recoverer == m.has_recoverer
        }),
{
}

/// A value that was stored inline is found with its metadata and its data and pinned by one
/// more reference; nothing else of the worker changes.
pub proof fn law_inline_value_is_owned(
    m: WorkerModel,
    id: ObjectId,
    metadata: Metadata,
    data: Vec<u8>,
    after: WorkerModel,
    other: ObjectId,
)
    requires
        m.stores_inline(id, metadata, data, after),
        other != id,
    ensures
        after.store.entries.contains_key(id),
        after.store.entries[id] matches StoredEntry::Inline(obj) && obj.metadata == metadata
            && obj.data@ == data@ && obj.nested_refs@.len() == 0,
        ref_counter::entry_or_empty(after.refs, id).local == ref_counter::entry_or_empty(
            m.refs,
            id,
        ).local + 1,
        after.store.entries.contains_key(other) == m.store.entries.contains_key(other),
        m.store.entries.contains_key(other) ==> after.store.entries[other]
            == m.store.entries[other],
        ref_counter::entry_or_empty(after.refs, other) == ref_counter::entry_or_empty(
            m.refs,
            other,
        ),
        after.counter == m.counter,
        after.policy == m.policy,
        after.has_plasma == m.has_plasma,
        after.has_recoverer == m.has_recoverer,
{
}

/// A dropped pin that was not the last leaves the store alone; the last one removes its object
/// and no other, and the object is removed from shared memory where that is connected.
pub proof fn law_last_pin_frees_one_object(m: WorkerModel, op: RefOp, other: ObjectId)
    requires
        other != op.id(),
    ensures
        m.unpin(op).refs == ref_counter::ref_step(m.refs, op),
        !ref_counter::ref_unpins(m.refs, op) ==> m.unpin(op).store == m.store && m.free_step(op)
            == FreeStep::Kept,
        ref_counter::ref_unpins(m.refs, op) ==> !m.unpin(op).store.entries.contains_key(op.id())
            && m.free_step(op) == (FreeStep::Freed { delete_from_plasma: m.has_plasma }),
        m.unpin(op).store.entries.contains_key(other) == m.store.entries.contains_key(other),
        m.store.entries.contains_key(other) ==> m.unpin(op).store.entries[other]
            == m.store.entries[other],
{
}

/// Whether the data of an object is in shared memory changes what counts and nothing else: the
/// pointer stays, and so do the pins.
pub proof fn law_spilling_keeps_the_pointer(m: WorkerModel, id: ObjectId)
    ensures
        m.without_data(id).store.entries == m.store.entries,
        m.without_data(id).store.bytes == m.store.bytes,
        m.without_data(id).refs == m.refs,
        m.with_data(id).store.entries == m.store.entries,
        m.with_data(id).store.bytes == m.store.bytes,
        m.with_data(id).refs == m.refs,
        !m.with_data(id).store.spilled.contains(id),
        m.store.entries.contains_key(id) && m.store.entries[id] is Plasma ==> m.without_data(
            id,
        ).store.spilled.contains(id),
        forall|other: ObjectId|
            other != id ==> m.without_data(id).store.spilled.contains(other)
                == #[trigger] m.store.spilled.contains(other) && m.with_data(
                id,
            ).store.spilled.contains(other) == m.store.spilled.contains(other),
{
}

/// An inline value is handed out as it was stored; one in shared memory is read from there, and
/// cannot be had where shared memory is not connected.
pub proof fn law_resolution_is_faithful(
    m: WorkerModel,
    id: ObjectId,
    entry: StoredEntry,
    r: ResolveStep,
)
    requires
        m.resolves(id, entry, r),
    ensures
        entry matches StoredEntry::Inline(obj) ==> (r matches ResolveStep::Done(v) && v.metadata
            == obj.metadata && v.data@ == obj.data@ && v.nested_refs@.len()
            == obj.nested_refs@.len()),
        entry matches StoredEntry::Plasma(idx) ==> (if m.has_plasma {
            r matches ResolveStep::ReadPlasma(i) && i == idx
        } else {
            r matches ResolveStep::Failed(CoreError::PlasmaUnavailable { object_id })
        }),
{
    match (entry, r) {
        (StoredEntry::Inline(obj), ResolveStep::Done(v)) => {
            assert(refs_view(v.nested_refs@).len() == refs_view(obj.nested_refs@).len());
        },
        _ => {},
    }
}

/// Values of more than 100 KiB go to shared memory, of which a GiB may be used by default, and
/// three quarters of it before objects are spilled.
pub proof fn law_limits()
    ensures
        INLINE_THRESHOLD_BYTES == 100 * 1024,
        DEFAULT_SPILL_BUDGET_BYTES == 1024 * 1024 * 1024,
        4 * DEFAULT_SPILL_THRESHOLD_BYTES == 3 * DEFAULT_SPILL_BUDGET_BYTES,
{
}

/// A run goes on exactly while usage is above the threshold and an object is left to try, and
/// takes the objects in their order; one that failed or was gone does not stop it.
pub proof fn law_spill_run_goes_on(run: SpillRunModel, outcome: SpillOutcome)
    ensures
        run.victim() is Some <==> run.current > run.threshold && run.next < run.entries.len(),
        run.victim() matches Some(id) ==> id == run.entries[run.next as int].0,
        run.report(outcome).entries == run.entries,
        run.report(outcome).threshold == run.threshold,
        run.report(outcome).next == run.next + 1,
        outcome is Failed ==> run.report(outcome).current == run.current,
        run.victim() is Some && !(outcome is Failed) && run.entries[run.next as int].1.data_size
            <= run.current ==> run.report(outcome).current + run.entries[run.next as int].1.data_size
            == run.current,
        run.report(outcome).spilled == run.spilled + (if outcome is Spilled {
            1int
        } else {
            0int
        }),
{
}

} // verus!
