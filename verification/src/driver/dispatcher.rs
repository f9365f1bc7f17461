//! Jobs on their way to workers, and the results that come back.

use crate::driver::task_manager;
use crate::driver::task_manager::TaskManager;
use crate::kernel::core_worker;
use crate::kernel::core_worker::CoreWorker;
use crate::kernel::id::{ObjectId, TaskId};
use crate::kernel::metadata::{Metadata, MetadataDecodeError};
use crate::kernel::store::{PlasmaIndex, StoredEntry};
use crate::util::bytes::to_array;
use crate::util::text;
use crate::util::text::{concat2, str_equal, with_number};
use std::collections::VecDeque;
use vstd::prelude::*;

verus! {

/// Number of workers, unless set otherwise.
pub const DEFAULT_WORKERS: usize = 4;

/// A task to run.
#[derive(Debug)]
pub struct DispatchJob {
    /// The task.
    pub task_id: TaskId,
    /// Number of its results.
    pub num_returns: u32,
    /// The pickled function.
    pub callable_blob: Vec<u8>,
    /// The pickled arguments.
    pub args_blob: Vec<u8>,
    /// The pickled keyword arguments.
    pub kwargs_blob: Option<Vec<u8>>,
}

/// The mathematical content of a `DispatchJob`.
#[verifier::ext_equal]
pub struct DispatchModel {
    /// The task.
    pub task_id: TaskId,
    /// Number of its results.
    pub num_returns: u32,
    /// The pickled function.
    pub callable: Seq<u8>,
    /// The pickled arguments.
    pub args: Seq<u8>,
    /// The pickled keyword arguments.
    pub kwargs: Option<Seq<u8>>,
}

impl View for DispatchJob {
    type V = DispatchModel;

    open spec fn view(&self) -> DispatchModel {
        DispatchModel {
            task_id: self.task_id,
            num_returns: self.num_returns,
            callable: self.callable_blob@,
            args: self.args_blob@,
            kwargs: match self.kwargs_blob {
                None => None,
                Some(b) => Some(b@),
            },
        }
    }
}

/// What a worker's connection does next.
#[derive(Debug)]
pub enum NextJob {
    /// Run this job.
    Run(DispatchJob),
    /// Wait for the queue to change.
    Wait,
    /// Tell the worker to stop.
    Stop,
}

/// The mathematical content of a dispatcher.
#[verifier::ext_equal]
pub struct QueueModel {
    /// The jobs that wait, first to run first.
    pub queue: Seq<DispatchJob>,
    /// Whether the driver stops.
    pub shutdown: bool,
    /// Workers that are expected.
    pub expected: nat,
    /// Workers that have come.
    pub registered: nat,
}

/// The jobs that wait for a worker.
#[derive(Debug)]
pub struct Dispatcher {
    queue: VecDeque<DispatchJob>,
    shutdown: bool,
    expected_workers: usize,
    registered: usize,
}

impl View for Dispatcher {
    type V = QueueModel;

    closed spec fn view(&self) -> QueueModel {
        QueueModel {
            queue: self.queue@,
            shutdown: self.shutdown,
            expected: self.expected_workers as nat,
            registered: self.registered as nat,
        }
    }
}

impl Dispatcher {
    /// No jobs and no workers yet.
    pub fn start(expected_workers: usize) -> (r: Self)
        ensures
            r@ == (QueueModel {
                queue: Seq::empty(),
                shutdown: false,
                expected: expected_workers as nat,
                registered: 0,
            }),
    {
        let r = Dispatcher {
            queue: VecDeque::new(),
            shutdown: false,
            expected_workers,
            registered: 0,
        };
        assert(r@.queue =~= Seq::<DispatchJob>::empty());
        r
    }

    /// Puts a job at the end of the queue, unless the driver stops.
    pub fn submit(&mut self, job: DispatchJob)
        ensures
            final(self)@ == (if old(self)@.shutdown {
                old(self)@
            } else {
                QueueModel { queue: old(self)@.queue.push(job), ..old(self)@ }
            }),
    {
        if self.shutdown {
            return ;
        }
        self.queue.push_back(job);
    }

    /// Number of jobs that wait.
    pub fn pending(&self) -> (n: usize)
        ensures
            n == self@.queue.len(),
    {
        self.queue.len()
    }

    /// Takes the next job. Jobs that wait are run even when the driver stops.
    pub fn next_job(&mut self) -> (r: NextJob)
        ensures
            match r {
                NextJob::Run(job) => old(self)@.queue.len() > 0 && job == old(self)@.queue[0]
                    && final(self)@ == (QueueModel {
                    queue: old(self)@.queue.skip(1),
                    ..old(self)@
                }),
                NextJob::Wait => old(self)@.queue.len() == 0 && !old(self)@.shutdown
                    && final(self)@ == old(self)@,
                NextJob::Stop => old(self)@.queue.len() == 0 && old(self)@.shutdown && final(self)@
                    == old(self)@,
            },
    {
        match self.queue.pop_front() {
            Some(job) => {
                assert(self.queue@ =~= old(self)@.queue.skip(1));
                NextJob::Run(job)
            },
            None => if self.shutdown {
                NextJob::Stop
            } else {
                NextJob::Wait
            },
        }
    }

    /// Puts a job that could not be sent back to the front of the queue.
    pub fn send_failed(&mut self, job: DispatchJob)
        ensures
            final(self)@ == (QueueModel {
                queue: seq![job] + old(self)@.queue,
                ..old(self)@
            }),
    {
        self.queue.push_front(job);
        assert(self.queue@ =~= seq![job] + old(self)@.queue);
    }

    /// A worker has come.
    pub fn worker_registered(&mut self)
        requires
            old(self)@.registered < usize::MAX,
        ensures
            final(self)@ == (QueueModel {
                registered: old(self)@.registered + 1,
                ..old(self)@
            }),
    {
        self.registered = self.registered + 1;
    }

    /// How many workers have come.
    pub fn registered_workers(&self) -> (n: usize)
        ensures
            n == self@.registered,
    {
        self.registered
    }

    /// Whether all expected workers have come.
    pub fn workers_ready(&self) -> (b: bool)
        ensures
            b == (self@.registered >= self@.expected),
    {
        self.registered >= self.expected_workers
    }

    /// The driver stops.
    pub fn shutdown(&mut self)
        ensures
            final(self)@ == (QueueModel { shutdown: true, ..old(self)@ }),
    {
        self.shutdown = true;
    }

    /// Whether the driver stops.
    pub fn is_shutdown(&self) -> (b: bool)
        ensures
            b == self@.shutdown,
    {
        self.shutdown
    }
}

/// One result in a worker's report; nothing stands for a field that is missing.
#[derive(Debug)]
pub struct ReturnEntry {
    /// The object.
    pub object_id: Option<Vec<u8>>,
    /// Its encoded metadata.
    pub metadata: Option<Vec<u8>>,
    /// The size of its payload.
    pub data_size: Option<u64>,
}

/// Whether a result is read as `index` of `id`.
pub open spec fn reads_as(e: ReturnEntry, id: ObjectId, index: PlasmaIndex) -> bool {
    &&& e.object_id matches Some(o) && o@ == id.0@
    &&& e.data_size == Some(index.data_size)
    &&& e.metadata matches Some(m) && Metadata::parses(
        m@,
        Ok::<Metadata, MetadataDecodeError>(index.metadata),
    )
}

/// Whether a result is refused, with the given message.
pub open spec fn refused_with(e: ReturnEntry, message: Seq<char>) -> bool {
    if e.object_id is None {
        message == "missing 'object_id'"@
    } else if e.metadata is None {
        message == "missing 'metadata'"@
    } else if e.data_size is None {
        message == "missing 'data_size'"@
    } else if e.object_id->0@.len() != 28 {
        message == "object_id wrong length: "@ + text::decimal_text(e.object_id->0@.len()) + ""@
    } else {
        exists|error: MetadataDecodeError|
            {
                &&& #[trigger] Metadata::parses(
                    e.metadata->0@,
                    Err::<Metadata, MetadataDecodeError>(error),
                )
                &&& message == "could not decode metadata: "@ + error.spec_text()
            }
    }
}

/// Reads one result.
pub fn parse_return(e: &ReturnEntry) -> (r: Result<(ObjectId, PlasmaIndex), String>)
    ensures
        match r {
            Ok((id, index)) => reads_as(*e, id, index),
            Err(message) => refused_with(*e, message@),
        },
{
    let object_id = match &e.object_id {
        None => return Err("missing 'object_id'".to_owned()),
        Some(b) => b,
    };
    let metadata = match &e.metadata {
        None => return Err("missing 'metadata'".to_owned()),
        Some(b) => b,
    };
    let data_size: u64 = match e.data_size {
        None => return Err("missing 'data_size'".to_owned()),
        Some(n) => n,
    };
    if object_id.len() != 28 {
        return Err(with_number("object_id wrong length: ", object_id.len() as u64, ""));
    }
    let id = ObjectId::from_bytes(to_array(object_id.as_slice()));
    match Metadata::decode(metadata.as_slice()) {
        Ok(metadata) => Ok((id, PlasmaIndex { metadata, data_size })),
        Err(error) => {
            let shown = error.text();
            Err(concat2("could not decode metadata: ", shown.as_str()))
        },
    }
}

/// The worker after results were taken in.
pub open spec fn recorded(
    w: core_worker::WorkerModel,
    results: Seq<(ObjectId, PlasmaIndex)>,
) -> core_worker::WorkerModel
    decreases results.len(),
{
    if results.len() == 0 {
        w
    } else {
        let before = recorded(w, results.drop_last());
        core_worker::WorkerModel {
            store: before.store.put(results.last().0, StoredEntry::Plasma(results.last().1)),
            ..before
        }
    }
}

/// Number of results that are errors.
pub open spec fn error_count(results: Seq<(ObjectId, PlasmaIndex)>) -> nat
    decreases results.len(),
{
    if results.len() == 0 {
        0
    } else {
        error_count(results.drop_last()) + if results.last().1.metadata.spec_is_error() {
            1nat
        } else {
            0nat
        }
    }
}

/// What became of a report.
#[derive(Debug)]
pub struct Ingested {
    /// Results that are values.
    pub completed: usize,
    /// Results that are errors.
    pub failed: usize,
    /// Why the rest was refused.
    pub error: Option<String>,
}

/// What becomes of a report: the worker after it, and the outcome. A report of another kind
/// or without results changes nothing; else the results in front of the first that is
/// refused are taken in.
pub open spec fn ingested(
    before: core_worker::WorkerModel,
    kind: Seq<char>,
    reported: Option<&Vec<ReturnEntry>>,
    after: core_worker::WorkerModel,
    r: Ingested,
) -> bool {
    if kind != "task_complete"@ {
        &&& r.error matches Some(m) && m@ == "expected task_complete, got "@ + kind
        &&& after == before
        &&& r.completed == 0 && r.failed == 0
    } else if reported is None {
        &&& r.error matches Some(m) && m@ == "missing 'returns'"@
        &&& after == before
        &&& r.completed == 0 && r.failed == 0
    } else {
        exists|taken: Seq<(ObjectId, PlasmaIndex)>|
            {
                let entries = reported->0@;
                &&& taken.len() <= entries.len()
                &&& forall|i: int|
                    0 <= i < taken.len() ==> reads_as(
                        #[trigger] entries[i],
                        taken[i].0,
                        taken[i].1,
                    )
                &&& after == #[trigger] recorded(before, taken)
                &&& r.failed == error_count(taken)
                &&& r.completed + r.failed == taken.len()
                &&& match r.error {
                    None => taken.len() == entries.len(),
                    Some(m) => taken.len() < entries.len() && refused_with(
                        entries[taken.len() as int],
                        m@,
                    ),
                }
            }
    }
}

/// Takes a worker's report in: its kind and results, where it has them. Results in front of
/// one that is refused are taken in.
pub fn handle_completion(worker: &mut CoreWorker, kind: &str, reported: Option<&Vec<ReturnEntry>>)
    -> (r: Ingested)
    requires
        old(worker).wf(),
    ensures
        final(worker).wf(),
        ingested(old(worker)@, kind@, reported, final(worker)@, r),
{
    if !str_equal(kind, "task_complete") {
        return Ingested {
            completed: 0,
            failed: 0,
            error: Some(concat2("expected task_complete, got ", kind)),
        };
    }
    let entries = match reported {
        None => return Ingested {
            completed: 0,
            failed: 0,
            error: Some("missing 'returns'".to_owned()),
        },
        Some(entries) => entries,
    };
    let n: usize = entries.len();
    let mut i: usize = 0;
    let mut completed: usize = 0;
    let mut failed: usize = 0;
    let ghost mut taken: Seq<(ObjectId, PlasmaIndex)> = Seq::empty();
    while i < n
        invariant
            worker.wf(),
            n == entries@.len(),
            i <= n,
            taken.len() == i,
            completed + failed == i,
            failed == error_count(taken),
            forall|j: int|
                0 <= j < i ==> reads_as(#[trigger] entries@[j], taken[j].0, taken[j].1),
            worker@ == recorded(old(worker)@, taken),
            reported == Some(entries),
            kind@ == "task_complete"@,
        decreases n - i,
    {
        match parse_return(&entries[i]) {
            Err(message) => {
                assert(worker@ == recorded(old(worker)@, taken));
                return Ingested { completed, failed, error: Some(message) };
            },
            Ok((id, index)) => {
                if index.metadata.is_error() {
                    failed = failed + 1;
                } else {
                    completed = completed + 1;
                }
                worker.record_plasma(id, index);
                proof {
                    let before = taken;
                    taken = taken.push((id, index));
                    assert(taken.drop_last() =~= before);
                }
            },
        }
        i += 1;
    }
    assert(worker@ == recorded(old(worker)@, taken));
    Ingested { completed, failed, error: None }
}

/// Takes the report on a job in. Only a report that was taken in whole counts as the end of
/// the job's task.
pub fn complete_job(
    worker: &mut CoreWorker,
    tasks: &mut TaskManager,
    task_id: TaskId,
    kind: &str,
    reported: Option<&Vec<ReturnEntry>>,
) -> (r: Ingested)
    requires
        old(worker).wf(),
        old(tasks).wf(),
    ensures
        final(worker).wf(),
        final(tasks).wf(),
        ingested(old(worker)@, kind@, reported, final(worker)@, r),
        r.error is None ==> final(tasks)@ == task_manager::lineage_ended(old(tasks)@, task_id),
        r.error is Some ==> *final(tasks) == *old(tasks),
{
    let r = handle_completion(worker, kind, reported);
    if r.error.is_none() {
        tasks.mark_completed(task_id);
    }
    r
}

/// Jobs are run in the order in which they were submitted: of two that wait, the one in
/// front comes out first, and one that is submitted comes out behind all that wait.
pub proof fn law_first_in_first_out(queue: Seq<DispatchJob>, job: DispatchJob)
    ensures
        queue.push(job).last() == job,
        queue.len() > 0 ==> queue.push(job)[0] == queue[0] && queue.push(job).skip(1)
            == queue.skip(1).push(job),
{
    if queue.len() > 0 {
        assert(queue.push(job).skip(1) =~= queue.skip(1).push(job));
    }
}

/// A job that could not be sent takes its old place: the queue is as it was before the job
/// was taken.
pub proof fn law_failed_send_loses_nothing(queue: Seq<DispatchJob>)
    requires
        queue.len() > 0,
    ensures
        seq![queue[0]] + queue.skip(1) == queue,
{
    assert(seq![queue[0]] + queue.skip(1) =~= queue);
}

/// A result that was taken in can be found, and other objects are left alone.
pub proof fn law_results_are_found(
    w: core_worker::WorkerModel,
    results: Seq<(ObjectId, PlasmaIndex)>,
    other: ObjectId,
)
    ensures
        results.len() > 0 ==> recorded(w, results).store.entries.contains_key(results.last().0)
            && recorded(w, results).store.entries[results.last().0] == StoredEntry::Plasma(
            results.last().1,
        ),
        (forall|i: int| 0 <= i < results.len() ==> (#[trigger] results[i]).0 != other)
            ==> recorded(w, results).store.entries.contains_key(other)
            == w.store.entries.contains_key(other) && recorded(w, results).store.entries[other]
            == w.store.entries[other],
        recorded(w, results).refs == w.refs,
    decreases results.len(),
{
    if results.len() > 0 {
        let rest = results.drop_last();
        law_results_are_found(w, rest, other);
        if (forall|i: int| 0 <= i < results.len() ==> (#[trigger] results[i]).0 != other) {
            assert forall|i: int| 0 <= i < rest.len() implies (#[trigger] rest[i]).0 != other by {
                assert(rest[i] == results[i]);
            }
            assert(results[results.len() - 1].0 != other);
        }
    }
}

/// Every result that was taken in is found with its metadata and its size, unless a later one
/// is of the same object; of the worker nothing changes but its store.
pub proof fn law_every_result_is_found(
    w: core_worker::WorkerModel,
    results: Seq<(ObjectId, PlasmaIndex)>,
    i: int,
)
    requires
        0 <= i < results.len(),
        forall|j: int| i < j < results.len() ==> (#[trigger] results[j]).0 != results[i].0,
    ensures
        recorded(w, results).store.entries.contains_key(results[i].0),
        recorded(w, results).store.entries[results[i].0] == StoredEntry::Plasma(results[i].1),
        !recorded(w, results).store.spilled.contains(results[i].0),
        recorded(w, results).counter == w.counter,
        recorded(w, results).has_plasma == w.has_plasma,
        recorded(w, results).has_recoverer == w.has_recoverer,
        recorded(w, results).policy == w.policy,
        recorded(w, results).address == w.address,
    decreases results.len(),
{
    let rest = results.drop_last();
    if i < rest.len() {
        assert(results[results.len() - 1].0 != results[i].0);
        assert forall|j: int| i < j < rest.len() implies (#[trigger] rest[j]).0 != rest[i].0 by {
            assert(rest[j] == results[j]);
        }
        law_every_result_is_found(w, rest, i);
    } else {
        lemma_recorded_keeps(w, rest);
    }
}

proof fn lemma_recorded_keeps(
    w: core_worker::WorkerModel,
    results: Seq<(ObjectId, PlasmaIndex)>,
)
    ensures
        recorded(w, results).counter == w.counter,
        recorded(w, results).has_plasma == w.has_plasma,
        recorded(w, results).has_recoverer == w.has_recoverer,
        recorded(w, results).policy == w.policy,
        recorded(w, results).address == w.address,
    decreases results.len(),
{
    if results.len() > 0 {
        lemma_recorded_keeps(w, results.drop_last());
    }
}

/// The failed results are those whose metadata are an error.
pub proof fn law_errors_are_counted(results: Seq<(ObjectId, PlasmaIndex)>)
    ensures
        error_count(results) == results.filter(
            |r: (ObjectId, PlasmaIndex)| r.1.metadata is Error,
        ).len(),
    decreases results.len(),
{
    reveal(Seq::filter);
    if results.len() > 0 {
        law_errors_are_counted(results.drop_last());
    }
}

/// A result that can be read has an object of 28 bytes, a size and metadata that decode, and is
/// read as these; what can be read is not refused.
pub proof fn law_results_are_read_or_refused(
    e: ReturnEntry,
    id: ObjectId,
    index: PlasmaIndex,
    message: Seq<char>,
)
    requires
        reads_as(e, id, index),
    ensures
        e.object_id matches Some(o) && o@.len() == 28 && o@ == id.0@,
        e.data_size == Some(index.data_size),
        e.metadata matches Some(m) && Metadata::parses(
            m@,
            Ok::<Metadata, MetadataDecodeError>(index.metadata),
        ),
        !refused_with(e, message),
{
    if refused_with(e, message) {
        let error = choose|error: MetadataDecodeError| #[trigger]
            Metadata::parses(e.metadata->0@, Err::<Metadata, MetadataDecodeError>(error));
    }
}

/// A report of another kind, or without results, changes nothing; a report that is taken in
/// whole leaves no error, and every one of its results counts once.
pub proof fn law_reports_count(
    before: core_worker::WorkerModel,
    kind: Seq<char>,
    reported: Option<&Vec<ReturnEntry>>,
    after: core_worker::WorkerModel,
    r: Ingested,
)
    requires
        ingested(before, kind, reported, after, r),
    ensures
        kind != "task_complete"@ || reported is None ==> after == before && r.completed == 0
            && r.failed == 0 && r.error is Some,
        r.error is None ==> reported is Some && r.completed + r.failed == reported->0@.len(),
        r.error is Some && reported is Some && kind == "task_complete"@ ==> r.completed + r.failed
            < reported->0@.len(),
        after.refs == before.refs,
{
    if kind == "task_complete"@ && reported is Some {
        let taken = choose|taken: Seq<(ObjectId, PlasmaIndex)>|
            {
                let entries = reported->0@;
                &&& taken.len() <= entries.len()
                &&& forall|i: int|
                    0 <= i < taken.len() ==> reads_as(
                        #[trigger] entries[i],
                        taken[i].0,
                        taken[i].1,
                    )
                &&& after == #[trigger] recorded(before, taken)
                &&& r.failed == error_count(taken)
                &&& r.completed + r.failed == taken.len()
                &&& match r.error {
                    None => taken.len() == entries.len(),
                    Some(m) => taken.len() < entries.len() && refused_with(
                        entries[taken.len() as int],
                        m@,
                    ),
                }
            };
        law_results_are_found(before, taken, arbitrary());
    }
}

/// A job stands for its task, its number of results and its three pickled parts.
pub proof fn law_jobs_are_modelled(job: DispatchJob)
    ensures
        job@.task_id == job.task_id,
        job@.num_returns == job.num_returns,
        job@.callable == job.callable_blob@,
        job@.args == job.args_blob@,
        job@.kwargs is Some <==> job.kwargs_blob is Some,
        job.kwargs_blob matches Some(b) ==> job@.kwargs == Some(b@),
{
}

} // verus!
