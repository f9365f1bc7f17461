//! Values and references as the user of the driver sees them.

use crate::driver::dispatcher;
use crate::driver::dispatcher::{DispatchJob, Dispatcher};
use crate::driver::task_manager;
use crate::driver::task_manager::TaskManager;
use crate::gcs::status;
use crate::gcs::status::wrong_id_message;
use crate::kernel::core_worker;
use crate::kernel::core_worker::{CoreError, CoreWorker, FreeStep, PlasmaWrite, ResolvedObject, SealStep};
use crate::kernel::error_info;
use crate::kernel::error_info::ErrorInfo;
use crate::kernel::error_payload;
use crate::kernel::error_payload::{ErrorPayload, ErrorPayloadCodecError};
use crate::kernel::id::{ObjectId, TaskId};
use crate::kernel::metadata::{ErrorCategory, Metadata, MetadataDecodeError, RefState};
use crate::kernel::object_ref;
use crate::kernel::object_ref::ObjectRef;
use crate::kernel::ref_counter;
use crate::kernel::ref_counter::RefOp;
use crate::kernel::store::PlasmaIndex;
use crate::util::bytes;
use crate::util::bytes::{arrays_equal, copy_bytes, to_array};
use crate::util::hexadecimal;
use crate::util::text;
use crate::util::text::{concat2, concat3, push_decimal, with_number};
use vstd::prelude::*;

verus! {

/// The message about bytes of the wrong number.
pub open spec fn wrong_size(what: Seq<char>, size: nat, got: nat) -> Seq<char> {
    what + " requires "@ + text::decimal_text(size) + " bytes, got "@ + text::decimal_text(got)
}

/// Takes exactly `N` bytes for `what`.
pub fn sized<const N: usize>(b: &[u8], what: &str) -> (r: Result<[u8; N], String>)
    ensures
        match r {
            Ok(a) => a@ == b@,
            Err(m) => b@.len() != N && m@ == wrong_size(what@, N as nat, b@.len()),
        },
{
    if b.len() != N {
        let mut m = what.to_owned();
        m.append(with_number(" requires ", N as u64, " bytes, got ").as_str());
        push_decimal(&mut m, b.len() as u64);
        assert(m@ =~= wrong_size(what@, N as nat, b@.len()));
        return Err(m);
    }
    Ok(to_array(b))
}

/// Takes the identifier of an owner's node, where one is given.
pub fn owner_node(b: Option<&[u8]>) -> (r: Result<Option<[u8; 16]>, String>)
    ensures
        match (b, r) {
            (None, Ok(n)) => n is None,
            (Some(b), Ok(n)) => n matches Some(id) && id@ == b@,
            (Some(b), Err(m)) => b@.len() != 16 && m@ == status::wrong_id_length(
                "owner_node_id"@,
                16,
                b@.len(),
            ),
            _ => false,
        },
{
    match b {
        None => Ok(None),
        Some(b) => if b.len() != 16 {
            Err(wrong_id_message("owner_node_id", 16, b.len()))
        } else {
            Ok(Some(to_array(b)))
        },
    }
}

/// The object that is the only result of task number `n` of a job.
pub open spec fn first_return(w: core_worker::WorkerModel, n: u64) -> Seq<u8> {
    core_worker::task_bytes(w.job_id, n) + bytes::u32_le(0)
}

/// The worker with one more task identifier handed out.
pub open spec fn counted(w: core_worker::WorkerModel) -> core_worker::WorkerModel {
    core_worker::WorkerModel { counter: (w.counter + 1) as u64, ..w }
}

/// What it takes to store a new value.
#[derive(Debug)]
pub struct PutPlan {
    /// The object.
    pub object_id: ObjectId,
    /// Its metadata.
    pub metadata: Metadata,
    /// What is left to do.
    pub seal: Result<SealStep, CoreError>,
    /// The reference for the user.
    pub reference: ObjectRef,
    /// Whether this node is to be noted as a holder once the value is stored.
    pub register_self: bool,
}

/// Whether the references to the object with the given bytes can be counted once more.
pub open spec fn countable(w: core_worker::WorkerModel, object_id: Seq<u8>) -> bool {
    forall|id: ObjectId|
        id.0@ == object_id ==> (#[trigger] ref_counter::entry_or_empty(w.refs, id)).local
            < u64::MAX
}

/// Whether the references to an object can be counted once more.
pub fn can_count(worker: &CoreWorker, id: ObjectId) -> (b: bool)
    requires
        worker.wf(),
    ensures
        b == countable(worker@, id.0@),
{
    let b = match worker.refs().snapshot(id) {
        None => true,
        Some(e) => e.local_count < u64::MAX,
    };
    proof {
        assert(b == (ref_counter::entry_or_empty(worker@.refs, id).local < u64::MAX));
        assert forall|x: ObjectId| x.0@ == id.0@ implies x == id by {
            assert(x.0 =~= id.0);
        }
    }
    b
}

/// Whether a value of `len` bytes can be put: a task identifier is left, references to the
/// object can be counted, and the length goes with that of the metadata.
pub fn can_put(worker: &CoreWorker, len: usize) -> (b: bool)
    requires
        worker.wf(),
    ensures
        b == (worker@.counter < u64::MAX && len + 2 <= usize::MAX && countable(
            worker@,
            first_return(worker@, (worker@.counter + 1) as u64),
        )),
{
    match worker.upcoming_task_id() {
        None => false,
        Some(task_id) => {
            let id = ObjectId::for_return(&task_id, 0);
            len <= usize::MAX - 2 && can_count(worker, id)
        },
    }
}

/// Begins to store a pickled value. On a node of a cluster it always goes to shared memory,
/// so that other nodes can have it.
pub fn put(worker: &mut CoreWorker, pickled: Vec<u8>, local_node_id: Option<[u8; 16]>) -> (r:
    PutPlan)
    requires
        old(worker).wf(),
        old(worker)@.counter < u64::MAX,
        pickled@.len() + 2 <= usize::MAX,
        countable(old(worker)@, first_return(old(worker)@, (old(worker)@.counter + 1) as u64)),
    ensures
        final(worker).wf(),
        r.object_id.0@ == first_return(old(worker)@, (old(worker)@.counter + 1) as u64),
        r.metadata == (Metadata::Pickle5 { has_nested_refs: false }),
        r.reference@ == (object_ref::ObjectRefModel {
            object_id: r.object_id,
            owner: old(worker)@.address,
            owner_node_id: local_node_id,
        }),
        r.register_self == local_node_id is Some,
        local_node_id is Some ==> final(worker)@ == counted(old(worker)@) && match r.seal {
            Ok(SealStep::Write(w)) => old(worker)@.has_plasma && counted(old(worker)@).writes(
                w,
                r.object_id,
                r.metadata.wire(),
                pickled@,
            ) && w.forced,
            Ok(SealStep::Stored) => false,
            Err(e) => !old(worker)@.has_plasma && e.says_unavailable(r.object_id),
        },
        local_node_id is None ==> match r.seal {
            Ok(SealStep::Write(w)) => {
                &&& pickled@.len() > old(worker)@.inline_threshold && old(worker)@.has_plasma
                &&& final(worker)@ == counted(old(worker)@)
                &&& counted(old(worker)@).writes(w, r.object_id, r.metadata.wire(), pickled@)
                &&& !w.forced
            },
            Ok(SealStep::Stored) => {
                &&& pickled@.len() <= old(worker)@.inline_threshold || !old(worker)@.has_plasma
                &&& counted(old(worker)@).stores_inline(
                    r.object_id,
                    r.metadata,
                    pickled,
                    final(worker)@,
                )
            },
            Err(_) => false,
        },
{
    let task_id = worker.next_task_id();
    let object_id = ObjectId::for_return(&task_id, 0);
    let metadata = Metadata::Pickle5 { has_nested_refs: false };
    let owner = worker.address().clone();
    let reference = ObjectRef::new(object_id, owner);
    match local_node_id {
        Some(node_id) => {
            let seal = match worker.seal_value_to_plasma(object_id, metadata, pickled) {
                Ok(w) => Ok(SealStep::Write(w)),
                Err(e) => Err(e),
            };
            PutPlan {
                object_id,
                metadata,
                seal,
                reference: reference.with_owner_node_id(node_id),
                register_self: true,
            }
        },
        None => {
            assert(ref_counter::entry_or_empty(worker@.refs, object_id).local < u64::MAX);
            let seal = Ok(worker.seal_value(object_id, metadata, pickled));
            PutPlan { object_id, metadata, seal, reference, register_self: false }
        },
    }
}

/// The message about a value that could not be stored.
pub fn seal_failed(e: &CoreError) -> (r: String)
    ensures
        r@ == "seal failed: "@ + e.spec_text(),
{
    let shown = e.text();
    concat2("seal failed: ", shown.as_str())
}

/// What is told of a failed object whose payload is read as `p`.
pub open spec fn info_of(category: ErrorCategory, raw_code: u16, p: error_payload::PayloadModel)
    -> error_info::ErrorInfoModel {
    error_info::ErrorInfoModel {
        category,
        message: p.message,
        traceback: p.traceback,
        raw_code,
    }
}

/// The message about a payload that cannot be read.
pub open spec fn corrupted(e: ErrorPayloadCodecError) -> Seq<char> {
    "corrupted error payload: "@ + e.spec_text()
}

fn corrupted_payload(e: &ErrorPayloadCodecError) -> (r: String)
    ensures
        r@ == corrupted(*e),
{
    let shown = e.text();
    concat2("corrupted error payload: ", shown.as_str())
}

/// What is told of a failed object.
pub fn error_info_from_object(category: ErrorCategory, raw_code: u16, data: &[u8]) -> (r: Result<
    ErrorInfo,
    String,
>)
    ensures
        match r {
            Ok(info) => error_payload::parse_payload(data@) is Ok && info@ == info_of(
                category,
                raw_code,
                error_payload::parse_payload(data@)->Ok_0,
            ),
            Err(m) => error_payload::parse_payload(data@) is Err && m@ == corrupted(
                error_payload::parse_payload(data@)->Err_0,
            ),
        },
{
    match ErrorPayload::decode(data) {
        Err(e) => Err(corrupted_payload(&e)),
        Ok(payload) => {
            let info = ErrorInfo::new(category, payload.message.as_str()).with_raw_code(raw_code);
            match &payload.traceback {
                None => Ok(info),
                Some(tb) => Ok(info.with_traceback(tb.as_str())),
            }
        },
    }
}

/// What a user gets of a value that was asked for.
#[derive(Debug)]
pub enum GetOutcome {
    /// A pickled value.
    Pickle(Vec<u8>),
    /// Bytes.
    Raw(Vec<u8>),
    /// The task failed: the pickled exception, where it can be had, else the message.
    Raise {
        /// The pickled exception.
        pickled: Option<Vec<u8>>,
        /// The message.
        message: String,
    },
    /// The value has not come in time.
    TimedOut(String),
    /// The value cannot be read.
    Corrupted(String),
    /// Values of this kind cannot be read yet.
    NotImplemented(String),
}

/// Whether `r` is what a user gets of object `id` that was found to be `resolved`.
pub open spec fn gets(id: ObjectId, resolved: Option<ResolvedObject>, r: GetOutcome) -> bool {
    match resolved {
        None => r matches GetOutcome::TimedOut(m) && m@
            == "rayd.get timed out waiting for ObjectRef("@ + hexadecimal::hex_text(id.0@) + ")"@,
        Some(o) => match o.metadata {
            Metadata::Pickle5 { .. } => r == GetOutcome::Pickle(o.data),
            Metadata::Raw => r == GetOutcome::Raw(o.data),
            Metadata::ActorHandle => r matches GetOutcome::NotImplemented(m) && m@
                == "actor handle deserialization lands in Phase 5"@,
            Metadata::Error { category, .. } => match error_payload::parse_payload(o.data@) {
                Ok(p) => {
                    &&& r matches GetOutcome::Raise { pickled, message } && (match pickled {
                        None => p.pickled is None,
                        Some(b) => p.pickled == Some(b@),
                    }) && message@ == "rayd task failed: category="@ + category.spec_name() + "; "@
                        + p.message
                },
                Err(e) => r matches GetOutcome::Corrupted(m) && m@ == corrupted(e),
            },
        },
    }
}

/// What a user gets of a value that was asked for.
pub fn get_one(id: &ObjectId, resolved: Option<ResolvedObject>) -> (r: GetOutcome)
    ensures
        gets(*id, resolved, r),
{
    let o = match resolved {
        None => {
            let hex = id.hex();
            return GetOutcome::TimedOut(
                concat3("rayd.get timed out waiting for ObjectRef(", hex.as_str(), ")"),
            );
        },
        Some(o) => o,
    };
    match o.metadata {
        Metadata::Pickle5 { .. } => GetOutcome::Pickle(o.data),
        Metadata::Raw => GetOutcome::Raw(o.data),
        Metadata::ActorHandle => GetOutcome::NotImplemented(
            "actor handle deserialization lands in Phase 5".to_owned(),
        ),
        Metadata::Error { category, .. } => match ErrorPayload::decode(o.data.as_slice()) {
            Err(e) => GetOutcome::Corrupted(corrupted_payload(&e)),
            Ok(payload) => {
                let mut message = concat3("rayd task failed: category=", category.name(), "; ");
                message.append(payload.message.as_str());
                GetOutcome::Raise { pickled: payload.pickled_python_exception, message }
            },
        },
    }
}

/// What a user gets of a value that was asked for where failures are values too.
#[derive(Debug)]
pub enum Settled {
    /// The value has not come in time.
    Pending,
    /// The task failed.
    Failed(ErrorInfo),
    /// A pickled value.
    Pickle(Vec<u8>),
    /// Bytes.
    Raw(Vec<u8>),
    /// The value cannot be read.
    Corrupted(String),
    /// Values of this kind cannot be read yet.
    NotImplemented(String),
}

/// Whether `r` is what a user gets of an object that was found to be `resolved`.
pub open spec fn settles(resolved: Option<ResolvedObject>, r: Settled) -> bool {
    match resolved {
        None => r == Settled::Pending,
        Some(o) => match o.metadata {
            Metadata::Pickle5 { .. } => r == Settled::Pickle(o.data),
            Metadata::Raw => r == Settled::Raw(o.data),
            Metadata::ActorHandle => r matches Settled::NotImplemented(m) && m@
                == "actor handle deserialization lands in Phase 5"@,
            Metadata::Error { category, raw_code } => match error_payload::parse_payload(o.data@) {
                Ok(p) => r matches Settled::Failed(info) && info@ == info_of(category, raw_code, p),
                Err(e) => r matches Settled::Corrupted(m) && m@ == corrupted(e),
            },
        },
    }
}

/// What a user gets of a value that was asked for where failures are values too.
pub fn settle(resolved: Option<ResolvedObject>) -> (r: Settled)
    ensures
        settles(resolved, r),
{
    let o = match resolved {
        None => return Settled::Pending,
        Some(o) => o,
    };
    match o.metadata {
        Metadata::Pickle5 { .. } => Settled::Pickle(o.data),
        Metadata::Raw => Settled::Raw(o.data),
        Metadata::ActorHandle => Settled::NotImplemented(
            "actor handle deserialization lands in Phase 5".to_owned(),
        ),
        Metadata::Error { category, raw_code } => match error_info_from_object(
            category,
            raw_code,
            o.data.as_slice(),
        ) {
            Ok(info) => Settled::Failed(info),
            Err(m) => Settled::Corrupted(m),
        },
    }
}

impl Settled {
    /// The label of the outcome; nothing where there is none to give.
    pub fn label(&self) -> (r: Option<&'static str>)
        ensures
            match self {
                Settled::Pending => r matches Some(s) && s@ == "pending"@,
                Settled::Failed(_) => r matches Some(s) && s@ == "err"@,
                Settled::Pickle(_) => r matches Some(s) && s@ == "ok"@,
                Settled::Raw(_) => r matches Some(s) && s@ == "ok"@,
                _ => r is None,
            },
    {
        match self {
            Settled::Pending => Some("pending"),
            Settled::Failed(_) => Some("err"),
            Settled::Pickle(_) => Some("ok"),
            Settled::Raw(_) => Some("ok"),
            _ => None,
        }
    }
}

/// What can be told of a failed object at once: nothing where it has not failed or its
/// payload cannot be read.
pub fn peek_error(resolved: &Option<ResolvedObject>) -> (r: Option<ErrorInfo>)
    ensures
        match r {
            Some(info) => resolved matches Some(o) && (o.metadata matches Metadata::Error {
                category,
                raw_code,
            } && error_payload::parse_payload(o.data@) is Ok && info@ == info_of(
                category,
                raw_code,
                error_payload::parse_payload(o.data@)->Ok_0,
            )),
            None => resolved matches Some(o) ==> !o.metadata.spec_is_error()
                || error_payload::parse_payload(o.data@) is Err,
        },
{
    match resolved {
        None => None,
        Some(o) => match o.metadata {
            Metadata::Error { category, raw_code } => match error_info_from_object(
                category,
                raw_code,
                o.data.as_slice(),
            ) {
                Ok(info) => Some(info),
                Err(_) => None,
            },
            _ => None,
        },
    }
}

/// The pickled exception of a failed object, where it has one.
pub fn exception(resolved: &Option<ResolvedObject>) -> (r: Result<Option<Vec<u8>>, String>)
    ensures
        match resolved {
            None => r == Ok::<Option<Vec<u8>>, String>(None),
            Some(o) => if !o.metadata.spec_is_error() {
                r == Ok::<Option<Vec<u8>>, String>(None)
            } else {
                match error_payload::parse_payload(o.data@) {
                    Ok(p) => r matches Ok(b) && match b {
                        None => p.pickled is None,
                        Some(b) => p.pickled == Some(b@),
                    },
                    Err(e) => r matches Err(m) && m@ == corrupted(e),
                }
            },
        },
{
    match resolved {
        None => Ok(None),
        Some(o) => {
            if !o.metadata.is_error() {
                return Ok(None);
            }
            match ErrorPayload::decode(o.data.as_slice()) {
                Ok(payload) => Ok(payload.pickled_python_exception),
                Err(e) => Err(corrupted_payload(&e)),
            }
        },
    }
}

/// The state of an object as the holder of a reference sees it: one that is not known here
/// but belongs to another node is ready there.
pub fn ref_state(known: RefState, owner_node_id: Option<[u8; 16]>, local_node_id: Option<[u8; 16]>)
    -> (r: RefState)
    ensures
        r == (if known == RefState::Pending && owner_node_id is Some && local_node_id is Some
            && owner_node_id->0 != local_node_id->0 {
            RefState::ReadyRemote
        } else {
            known
        }),
{
    match known {
        RefState::Pending => match (owner_node_id, local_node_id) {
            (Some(owner), Some(local)) => if arrays_equal(&owner, &local) {
                RefState::Pending
            } else {
                RefState::ReadyRemote
            },
            _ => RefState::Pending,
        },
        other => other,
    }
}

/// The states of objects, one for each.
pub fn states(worker: &CoreWorker, ids: &[ObjectId]) -> (r: Vec<RefState>)
    requires
        worker.wf(),
    ensures
        r@ == ids@.map_values(|id: ObjectId| worker@.store.state_of(id)),
{
    let mut r: Vec<RefState> = Vec::new();
    let n: usize = ids.len();
    let mut i: usize = 0;
    while i < n
        invariant
            worker.wf(),
            n == ids@.len(),
            i <= n,
            r@.len() == i,
            forall|j: int| 0 <= j < i ==> r@[j] == worker@.store.state_of(#[trigger] ids@[j]),
        decreases n - i,
    {
        r.push(worker.store().state_of(&ids[i]));
        i += 1;
    }
    assert(r@ =~= ids@.map_values(|id: ObjectId| worker@.store.state_of(id)));
    r
}

/// Which objects are ready, once enough are or the time is over; else nothing, and the
/// caller waits for the store to change.
pub fn wait(worker: &CoreWorker, ids: &[ObjectId], num_returns: usize, expired: bool) -> (r: Option<
    Vec<bool>,
>)
    requires
        worker.wf(),
    ensures
        r is Some == (expired || worker@.store.ready(ids@).len() >= num_returns
            || worker@.store.ready(ids@).len() >= ids@.len()),
        r matches Some(flags) ==> flags@ == ids@.map_values(
            |id: ObjectId| worker@.store.entries.contains_key(id),
        ),
{
    match worker.store().wait(ids, num_returns, expired) {
        None => None,
        Some(_) => {
            let mut flags: Vec<bool> = Vec::new();
            let n: usize = ids.len();
            let mut i: usize = 0;
            while i < n
                invariant
                    worker.wf(),
                    n == ids@.len(),
                    i <= n,
                    flags@.len() == i,
                    forall|j: int|
                        0 <= j < i ==> flags@[j] == worker@.store.entries.contains_key(
                            #[trigger] ids@[j],
                        ),
                decreases n - i,
            {
                flags.push(worker.store().contains(&ids[i]));
                i += 1;
            }
            assert(flags@ =~= ids@.map_values(
                |id: ObjectId| worker@.store.entries.contains_key(id),
            ));
            Some(flags)
        },
    }
}

/// The objects that a task makes.
pub open spec fn makes(task: TaskId, ids: Seq<ObjectId>, num_returns: u32) -> bool {
    &&& ids.len() == num_returns
    &&& forall|i: int|
        0 <= i < ids.len() ==> (#[trigger] ids[i]).0@ == ObjectId::of_return(task, i as u32)
}

fn outputs(task: &TaskId, num_returns: u32) -> (r: Vec<ObjectId>)
    ensures
        makes(*task, r@, num_returns),
{
    let mut r: Vec<ObjectId> = Vec::new();
    let mut i: u32 = 0;
    while i < num_returns
        invariant
            i <= num_returns,
            r@.len() == i,
            forall|j: int|
                0 <= j < i ==> (#[trigger] r@[j]).0@ == ObjectId::of_return(*task, j as u32),
        decreases num_returns - i,
    {
        r.push(ObjectId::for_return(task, i));
        i += 1;
    }
    r
}

/// Submits a task: its results get identifiers, how they come about is noted, and the job is
/// put into the queue.
pub fn submit_task(
    worker: &mut CoreWorker,
    tasks: &mut TaskManager,
    dispatcher: &mut Dispatcher,
    num_returns: u32,
    callable_blob: Vec<u8>,
    args_blob: Vec<u8>,
    kwargs_blob: Option<Vec<u8>>,
) -> (r: Result<Vec<ObjectRef>, String>)
    requires
        old(worker).wf(),
        old(tasks).wf(),
        old(worker)@.counter < u64::MAX,
    ensures
        final(worker).wf(),
        final(tasks).wf(),
        match r {
            Err(m) => {
                &&& num_returns == 0
                &&& m@ == "num_returns must be >= 1"@
                &&& *final(worker) == *old(worker)
                &&& *final(tasks) == *old(tasks)
                &&& *final(dispatcher) == *old(dispatcher)
            },
            Ok(refs) => {
                &&& num_returns >= 1
                &&& final(worker)@ == counted(old(worker)@)
                &&& exists|ids: Seq<ObjectId>, job: DispatchJob|
                    {
                        &&& job.task_id.0@ == core_worker::task_bytes(
                            old(worker)@.job_id,
                            final(worker)@.counter,
                        )
                        &&& job.num_returns == num_returns
                        &&& job.callable_blob@ == callable_blob@
                        &&& job.args_blob@ == args_blob@
                        &&& (job.kwargs_blob is Some == kwargs_blob is Some)
                        &&& job.kwargs_blob is Some ==> job.kwargs_blob->0@ == kwargs_blob->0@
                        &&& #[trigger] makes(job.task_id, ids, num_returns)
                        &&& final(tasks)@ == task_manager::lineage_record(
                            old(tasks)@,
                            ids,
                            task_manager::fresh_record(job@),
                        )
                        &&& final(dispatcher)@ == (if old(dispatcher)@.shutdown {
                            old(dispatcher)@
                        } else {
                            dispatcher::QueueModel {
                                queue: old(dispatcher)@.queue.push(job),
                                ..old(dispatcher)@
                            }
                        })
                        &&& core_worker::refs_view(refs@) == ids.map_values(
                            |id: ObjectId|
                                object_ref::ObjectRefModel {
                                    object_id: id,
                                    owner: old(worker)@.address,
                                    owner_node_id: None,
                                },
                        )
                    }
            },
        },
{
    if num_returns == 0 {
        return Err("num_returns must be >= 1".to_owned());
    }
    let task_id = worker.next_task_id();
    let ids = outputs(&task_id, num_returns);
    let kwargs_copy = match &kwargs_blob {
        None => None,
        Some(b) => Some(copy_bytes(b.as_slice())),
    };
    tasks.record(
        ids.as_slice(),
        task_id,
        num_returns,
        copy_bytes(callable_blob.as_slice()),
        copy_bytes(args_blob.as_slice()),
        kwargs_copy,
    );
    let job = DispatchJob { task_id, num_returns, callable_blob, args_blob, kwargs_blob };
    let ghost sent = job;
    dispatcher.submit(job);
    let mut refs: Vec<ObjectRef> = Vec::new();
    let n: usize = ids.len();
    let mut i: usize = 0;
    while i < n
        invariant
            n == ids@.len(),
            i <= n,
            refs@.len() == i,
            worker@.address == old(worker)@.address,
            forall|j: int|
                0 <= j < i ==> (#[trigger] refs@[j])@ == (object_ref::ObjectRefModel {
                    object_id: ids@[j],
                    owner: old(worker)@.address,
                    owner_node_id: None,
                }),
        decreases n - i,
    {
        let owner = worker.address().clone();
        refs.push(ObjectRef::new(ids[i], owner));
        i += 1;
    }
    proof {
        assert(core_worker::refs_view(refs@) =~= ids@.map_values(
            |id: ObjectId|
                object_ref::ObjectRefModel {
                    object_id: id,
                    owner: old(worker)@.address,
                    owner_node_id: None,
                },
        ));
        assert(makes(sent.task_id, ids@, num_returns));
    }
    Ok(refs)
}

/// Sends the task of a lost object out again, where it may be.
pub fn try_resubmit_for_lineage(
    tasks: &mut TaskManager,
    dispatcher: &mut Dispatcher,
    object_id: ObjectId,
) -> (sent: bool)
    requires
        old(tasks).wf(),
    ensures
        final(tasks).wf(),
        sent == (task_manager::lineage_status_of(old(tasks)@, object_id)
            == task_manager::LineageStatus::ReadyToResubmit),
        !sent ==> *final(tasks) == *old(tasks) && *final(dispatcher) == *old(dispatcher),
        sent ==> {
            let job = old(tasks)@[object_id].job;
            &&& final(tasks)@ == task_manager::lineage_spent(old(tasks)@, job.task_id)
            &&& if old(dispatcher)@.shutdown {
                final(dispatcher)@ == old(dispatcher)@
            } else {
                &&& final(dispatcher)@.queue.len() == old(dispatcher)@.queue.len() + 1
                &&& final(dispatcher)@.queue.last()@ == job
                &&& final(dispatcher)@ == (dispatcher::QueueModel {
                    queue: old(dispatcher)@.queue.push(final(dispatcher)@.queue.last()),
                    ..old(dispatcher)@
                })
            }
        },
{
    match tasks.try_resubmit(object_id) {
        Some(job) => {
            dispatcher.submit(job);
            true
        },
        None => false,
    }
}

/// What dropping a reference takes.
#[derive(Debug)]
pub struct DropPlan {
    /// What is left to do with the object.
    pub freed: FreeStep,
    /// The owner's node that is to be told.
    pub notify: Option<[u8; 16]>,
}

/// A reference goes away. Only a counted one matters: it gives up its pin, and where the
/// object belongs to another node, that node is told.
pub fn drop_ref(
    worker: &mut CoreWorker,
    reference: &ObjectRef,
    owns_count: bool,
    local_node_id: Option<[u8; 16]>,
) -> (r: DropPlan)
    requires
        old(worker).wf(),
    ensures
        final(worker).wf(),
        !owns_count ==> *final(worker) == *old(worker) && r.freed == FreeStep::Kept && r.notify
            is None,
        owns_count ==> {
            let op = RefOp::DecLocal(reference@.object_id);
            let owner = reference@.owner_node_id;
            &&& final(worker)@ == old(worker)@.unpin(op)
            &&& r.freed == old(worker)@.free_step(op)
            &&& r.notify == (if owner is Some && local_node_id is Some && owner->0
                != local_node_id->0 {
                owner
            } else {
                None
            })
        },
{
    if !owns_count {
        return DropPlan { freed: FreeStep::Kept, notify: None };
    }
    let freed = worker.dec_local_ref(*reference.object_id());
    let notify = match (reference.owner_node_id(), local_node_id) {
        (Some(owner), Some(local)) => if arrays_equal(&owner, &local) {
            None
        } else {
            Some(owner)
        },
        _ => None,
    };
    DropPlan { freed, notify }
}

/// A reference to the result of a call to an actor, on a fresh task.
pub fn mint_actor_result_ref(worker: &mut CoreWorker, owner_node_id: Option<&[u8]>) -> (r: Result<
    ObjectRef,
    String,
>)
    requires
        old(worker).wf(),
        old(worker)@.counter < u64::MAX,
    ensures
        final(worker).wf(),
        final(worker)@ == counted(old(worker)@),
        match r {
            Ok(reference) => {
                &&& reference@.object_id.0@ == first_return(
                    old(worker)@,
                    (old(worker)@.counter + 1) as u64,
                )
                &&& reference@.owner == old(worker)@.address
                &&& (reference@.owner_node_id is Some == owner_node_id is Some)
                &&& owner_node_id is Some ==> reference@.owner_node_id->0@ == owner_node_id->0@
            },
            Err(m) => owner_node_id matches Some(b) && b@.len() != 16 && m@ == wrong_size(
                "node_id"@,
                16,
                b@.len(),
            ),
        },
{
    let task_id = worker.next_task_id();
    let owner = worker.address().clone();
    let reference = ObjectRef::new(ObjectId::for_return(&task_id, 0), owner);
    match owner_node_id {
        None => Ok(reference),
        Some(b) => match sized::<16>(b, "node_id") {
            Ok(id) => Ok(reference.with_owner_node_id(id)),
            Err(m) => Err(m),
        },
    }
}

/// Takes note of an object that another process has sealed for this worker.
pub fn record_plasma_seal(
    worker: &mut CoreWorker,
    object_id: &[u8],
    metadata: &[u8],
    data_size: u64,
) -> (r: Result<ObjectId, String>)
    requires
        old(worker).wf(),
        countable(old(worker)@, object_id@),
    ensures
        final(worker).wf(),
        match r {
            Ok(id) => {
                &&& id.0@ == object_id@
                &&& exists|m: Metadata|
                    {
                        &&& #[trigger] Metadata::parses(
                            metadata@,
                            Ok::<Metadata, MetadataDecodeError>(m),
                        )
                        &&& final(worker)@ == old(worker)@.owns_plasma(
                            id,
                            PlasmaIndex { metadata: m, data_size },
                        )
                    }
            },
            Err(message) => {
                &&& *final(worker) == *old(worker)
                &&& if object_id@.len() != 28 {
                    message@ == wrong_size("object_id"@, 28, object_id@.len())
                } else {
                    exists|e: MetadataDecodeError|
                        {
                            &&& #[trigger] Metadata::parses(
                                metadata@,
                                Err::<Metadata, MetadataDecodeError>(e),
                            )
                            &&& message@ == "invalid metadata: "@ + e.spec_text()
                        }
                }
            },
        },
{
    let id = match sized::<28>(object_id, "object_id") {
        Ok(b) => ObjectId::from_bytes(b),
        Err(m) => return Err(m),
    };
    match Metadata::decode(metadata) {
        Err(e) => {
            let shown = e.text();
            Err(concat2("invalid metadata: ", shown.as_str()))
        },
        Ok(m) => {
            assert(ref_counter::entry_or_empty(worker@.refs, id).local < u64::MAX);
            let _ = worker.value_sealed(id, m, data_size, Ok(()));
            Ok(id)
        },
    }
}

/// Begins to seal a value that a worker process made, in its encoded form.
pub fn worker_seal(worker: &CoreWorker, object_id: &[u8], metadata: &[u8], data: Vec<u8>) -> (r:
    Result<PlasmaWrite, String>)
    ensures
        match r {
            Ok(w) => {
                &&& w.object_id.0@ == object_id@
                &&& w.forced
                &&& worker@.has_plasma
                &&& exists|m: Metadata|
                    {
                        &&& #[trigger] Metadata::parses(
                            metadata@,
                            Ok::<Metadata, MetadataDecodeError>(m),
                        )
                        &&& worker@.writes(w, w.object_id, m.wire(), data@)
                    }
            },
            Err(message) => if object_id@.len() != 28 {
                message@ == status::wrong_id_length("object_id"@, 28, object_id@.len())
            } else {
                ||| exists|e: MetadataDecodeError|
                    {
                        &&& #[trigger] Metadata::parses(
                            metadata@,
                            Err::<Metadata, MetadataDecodeError>(e),
                        )
                        &&& message@ == "invalid metadata: "@ + e.spec_text()
                    }
                ||| !worker@.has_plasma && exists|m: Metadata, e: CoreError|
                    {
                        &&& #[trigger] Metadata::parses(
                            metadata@,
                            Ok::<Metadata, MetadataDecodeError>(m),
                        )
                        &&& #[trigger] e.says_unavailable(ObjectId(id_array(object_id@)))
                        &&& message@ == "seal failed: "@ + e.spec_text()
                    }
            },
        },
{
    if object_id.len() != 28 {
        return Err(wrong_id_message("object_id", 28, object_id.len()));
    }
    let id = ObjectId::from_bytes(to_array(object_id));
    let m = match Metadata::decode(metadata) {
        Ok(m) => m,
        Err(e) => {
            let shown = e.text();
            return Err(concat2("invalid metadata: ", shown.as_str()));
        },
    };
    match worker.seal_value_to_plasma(id, m, data) {
        Ok(w) => Ok(w),
        Err(e) => {
            proof {
                lemma_id_array(id.0);
                assert(e.says_unavailable(ObjectId(id_array(object_id@))));
            }
            Err(seal_failed(&e))
        },
    }
}

/// The array of 28 given bytes.
pub open spec fn id_array(b: Seq<u8>) -> [u8; 28] {
    choose|a: [u8; 28]| a@ == b
}

proof fn lemma_id_array(a: [u8; 28])
    ensures
        id_array(a@) == a,
{
    let b = id_array(a@);
    assert(b@ == a@);
    assert(b =~= a);
}

/// Results of one task are different objects, and so are results of different tasks.
pub proof fn law_results_are_distinct(
    task: TaskId,
    other: TaskId,
    ids: Seq<ObjectId>,
    others: Seq<ObjectId>,
    n: u32,
    m: u32,
    i: int,
    j: int,
)
    requires
        makes(task, ids, n),
        makes(other, others, m),
        0 <= i < n,
        0 <= j < m,
        ids[i] == others[j],
    ensures
        task.0@ == other.0@,
        i == j,
{
    let a = ids[i].0@;
    bytes::lemma_u32_round_trip(i as u32, Seq::empty());
    bytes::lemma_u32_round_trip(j as u32, Seq::empty());
    assert(a.take(24) =~= task.0@);
    assert(a.take(24) =~= other.0@);
    assert(a.skip(24) =~= bytes::u32_le(i as u32) + Seq::<u8>::empty());
    assert(a.skip(24) =~= bytes::u32_le(j as u32) + Seq::<u8>::empty());
}

/// A user gets the bytes that were stored, as what they were stored as; a failure raises, with
/// the exception of its payload; and only what is not there times out.
pub proof fn law_get_is_faithful(id: ObjectId, resolved: Option<ResolvedObject>, r: GetOutcome)
    requires
        gets(id, resolved, r),
    ensures
        r is TimedOut <==> resolved is None,
        r matches GetOutcome::Pickle(b) ==> (resolved matches Some(o) && o.metadata is Pickle5
            && b@ == o.data@),
        r matches GetOutcome::Raw(b) ==> (resolved matches Some(o) && o.metadata is Raw && b@
            == o.data@),
        resolved matches Some(o) ==> {
            &&& o.metadata is Pickle5 ==> r is Pickle
            &&& o.metadata is Raw ==> r is Raw
            &&& o.metadata is ActorHandle ==> r is NotImplemented
            &&& o.metadata is Error ==> r is Raise || r is Corrupted
            &&& o.metadata is Error ==> (r is Raise <==> error_payload::parse_payload(
                o.data@,
            ) is Ok)
        },
        r matches GetOutcome::Raise { pickled, message } ==> (resolved matches Some(o) && (
        pickled is Some <==> error_payload::parse_payload(o.data@)->Ok_0.pickled is Some) && (
        pickled matches Some(b) ==> error_payload::parse_payload(o.data@)->Ok_0.pickled == Some(
            b@,
        ))),
{
}

/// Asking with failures as values gives the same as asking without: the same bytes, a failure
/// where that raises, and nothing where that times out.
pub proof fn law_get_and_settle_agree(
    id: ObjectId,
    resolved: Option<ResolvedObject>,
    r: GetOutcome,
    s: Settled,
)
    requires
        gets(id, resolved, r),
        settles(resolved, s),
    ensures
        r is TimedOut <==> s is Pending,
        r is Raise <==> s is Failed,
        r is Corrupted <==> s is Corrupted,
        r is NotImplemented <==> s is NotImplemented,
        r matches GetOutcome::Pickle(b) ==> (s matches Settled::Pickle(c) && b@ == c@),
        r matches GetOutcome::Raw(b) ==> (s matches Settled::Raw(c) && b@ == c@),
        s is Pickle ==> r is Pickle,
        s is Raw ==> r is Raw,
{
}

/// What is told of a failed object is the category and the code of its metadata and the message
/// and the traceback of its payload.
pub proof fn law_error_info_is_faithful(
    category: ErrorCategory,
    raw_code: u16,
    p: error_payload::PayloadModel,
)
    ensures
        info_of(category, raw_code, p).category == category,
        info_of(category, raw_code, p).raw_code == raw_code,
        info_of(category, raw_code, p).message == p.message,
        info_of(category, raw_code, p).traceback == p.traceback,
{
}

/// A value that is put is the first result of a fresh task of the worker's own job, and putting
/// it takes one number and nothing else.
pub proof fn law_put_takes_one_number(w: core_worker::WorkerModel)
    requires
        w.counter < u64::MAX,
    ensures
        counted(w).counter == w.counter + 1,
        counted(w).store == w.store,
        counted(w).refs == w.refs,
        counted(w).address == w.address,
        counted(w).has_plasma == w.has_plasma,
        counted(w).inline_threshold == w.inline_threshold,
        first_return(w, counted(w).counter).len() == 28,
        first_return(w, counted(w).counter).take(16) == w.job_id.0@,
        bytes::le_u64(first_return(w, counted(w).counter).skip(16)) == counted(w).counter,
        bytes::le_u32(first_return(w, counted(w).counter).skip(24)) == 0,
{
    let n = counted(w).counter;
    let b = first_return(w, n);
    bytes::lemma_u64_round_trip(n, bytes::u32_le(0));
    bytes::lemma_u32_round_trip(0, Seq::empty());
    assert(b.take(16) =~= w.job_id.0@);
    assert(b.skip(16) =~= bytes::u64_le(n) + bytes::u32_le(0));
    assert(b.skip(24) =~= bytes::u32_le(0) + Seq::<u8>::empty());
}

/// The results of a task carry the task's identifier and their number, from 0 on.
pub proof fn law_results_carry_their_task(task: TaskId, ids: Seq<ObjectId>, n: u32, i: int)
    requires
        makes(task, ids, n),
        0 <= i < ids.len(),
    ensures
        ids.len() == n,
        ids[i].0@.subrange(0, 24) == task.0@,
        bytes::le_u32(ids[i].0@.skip(24)) == i,
{
    crate::kernel::id::law_return_id_parts(task, i as u32, ids[i]);
}

/// References can be counted exactly while the number of them is not the largest one.
pub proof fn law_countable(w: core_worker::WorkerModel, id: ObjectId)
    ensures
        countable(w, id.0@) <==> ref_counter::entry_or_empty(w.refs, id).local < u64::MAX,
{
    assert forall|x: ObjectId| x.0@ == id.0@ implies x == id by {
        assert(x.0 =~= id.0);
    }
}

} // verus!
