//! How objects came about, so that lost ones can be made again.

use crate::driver::dispatcher;
use crate::driver::dispatcher::DispatchJob;
use crate::kernel::id::{ObjectId, TaskId};
use crate::util::bytes::copy_bytes;
use crate::util::table::Table;
use std::sync::Arc;
use vstd::prelude::*;

verus! {

/// Times that a task is run again at most.
pub const DEFAULT_MAX_RETRIES: u32 = 3;

/// What is needed to run a task again.
#[derive(Debug)]
pub struct TaskRecord {
    /// The task.
    pub task_id: TaskId,
    /// Number of its results.
    pub num_returns: u32,
    /// The pickled function.
    pub callable_blob: Arc<Vec<u8>>,
    /// The pickled arguments.
    pub args_blob: Arc<Vec<u8>>,
    /// The pickled keyword arguments.
    pub kwargs_blob: Option<Arc<Vec<u8>>>,
    /// Times that it may be run again.
    pub retries_remaining: u32,
    /// Whether the latest run has ended.
    pub was_completed: bool,
}

/// The mathematical content of a `TaskRecord`.
#[verifier::ext_equal]
pub struct TaskModel {
    /// What is sent to a worker.
    pub job: dispatcher::DispatchModel,
    /// Times that it may be run again.
    pub retries: u32,
    /// Whether the latest run has ended.
    pub completed: bool,
}

impl View for TaskRecord {
    type V = TaskModel;

    open spec fn view(&self) -> TaskModel {
        TaskModel {
            job: dispatcher::DispatchModel {
                task_id: self.task_id,
                num_returns: self.num_returns,
                callable: (*self.callable_blob)@,
                args: (*self.args_blob)@,
                kwargs: match self.kwargs_blob {
                    None => None,
                    Some(b) => Some((*b)@),
                },
            },
            retries: self.retries_remaining,
            completed: self.was_completed,
        }
    }
}

impl Clone for TaskRecord {
    fn clone(&self) -> (r: Self)
        ensures
            r == *self,
    {
        TaskRecord {
            task_id: self.task_id,
            num_returns: self.num_returns,
            callable_blob: self.callable_blob.clone(),
            args_blob: self.args_blob.clone(),
            kwargs_blob: match &self.kwargs_blob {
                None => None,
                Some(b) => Some(b.clone()),
            },
            retries_remaining: self.retries_remaining,
            was_completed: self.was_completed,
        }
    }
}

/// Whether a lost object can be made again.
#[derive(Debug, Clone, Copy, PartialEq, Eq, Structural)]
pub enum LineageStatus {
    /// It is not known how the object came about.
    NotRecorded,
    /// Its task still runs.
    NotYetCompleted,
    /// Its task can be run again.
    ReadyToResubmit,
    /// Its task has been run as often as allowed.
    BudgetExhausted,
}

impl LineageStatus {
    /// The name of the status.
    pub fn name(self) -> (r: &'static str)
        ensures
            r@ == (match self {
                LineageStatus::NotRecorded => "not_recorded"@,
                LineageStatus::NotYetCompleted => "not_yet_completed"@,
                LineageStatus::ReadyToResubmit => "ready"@,
                LineageStatus::BudgetExhausted => "exhausted"@,
            }),
    {
        match self {
            LineageStatus::NotRecorded => "not_recorded",
            LineageStatus::NotYetCompleted => "not_yet_completed",
            LineageStatus::ReadyToResubmit => "ready",
            LineageStatus::BudgetExhausted => "exhausted",
        }
    }
}

/// Tasks by the objects that they make.
pub type Lineage = Map<ObjectId, TaskModel>;

/// The lineage with `record` for every one of `outputs`.
pub open spec fn lineage_record(m: Lineage, outputs: Seq<ObjectId>, record: TaskModel) -> Lineage
    decreases outputs.len(),
{
    if outputs.len() == 0 {
        m
    } else {
        lineage_record(m, outputs.drop_last(), record).insert(outputs.last(), record)
    }
}

/// A record after a run of `task` has ended.
pub open spec fn ended(r: TaskModel, task: TaskId) -> TaskModel {
    if r.job.task_id == task {
        TaskModel { completed: true, ..r }
    } else {
        r
    }
}

/// A record after `task` was sent out again.
pub open spec fn spent(r: TaskModel, task: TaskId) -> TaskModel {
    if r.job.task_id == task {
        TaskModel {
            retries: if r.retries > 0 {
                (r.retries - 1) as u32
            } else {
                0
            },
            completed: false,
            ..r
        }
    } else {
        r
    }
}

/// The lineage after a run of `task` has ended.
pub open spec fn lineage_ended(m: Lineage, task: TaskId) -> Lineage {
    m.map_values(|r: TaskModel| ended(r, task))
}

/// The lineage after `task` was sent out again.
pub open spec fn lineage_spent(m: Lineage, task: TaskId) -> Lineage {
    m.map_values(|r: TaskModel| spent(r, task))
}

/// Whether an object can be made again.
pub open spec fn lineage_status_of(m: Lineage, id: ObjectId) -> LineageStatus {
    if !m.contains_key(id) {
        LineageStatus::NotRecorded
    } else if !m[id].completed {
        LineageStatus::NotYetCompleted
    } else if m[id].retries == 0 {
        LineageStatus::BudgetExhausted
    } else {
        LineageStatus::ReadyToResubmit
    }
}

/// What is known of the tasks of a driver.
#[derive(Debug)]
pub struct TaskManager {
    by_object: Table<ObjectId, TaskRecord>,
}

impl View for TaskManager {
    type V = Lineage;

    closed spec fn view(&self) -> Lineage {
        self.by_object@.map_values(|r: TaskRecord| r@)
    }
}

impl TaskManager {
    /// The table is well formed.
    pub closed spec fn wf(&self) -> bool {
        self.by_object.wf()
    }

    /// Knows of no tasks.
    pub fn new() -> (r: Self)
        ensures
            r.wf(),
            r@ == Lineage::empty(),
    {
        let r = TaskManager { by_object: Table::new() };
        assert(r@ =~= Lineage::empty());
        r
    }

    /// Number of objects whose task is known.
    pub fn len(&self) -> (n: usize)
        requires
            self.wf(),
        ensures
            n == self@.dom().len(),
    {
        proof {
            self.by_object.lemma_model();
            assert(self@.dom() =~= self.by_object@.dom());
        }
        self.by_object.len()
    }

    /// Notes how `outputs` come about.
    pub fn record(
        &mut self,
        outputs: &[ObjectId],
        task_id: TaskId,
        num_returns: u32,
        callable_blob: Vec<u8>,
        args_blob: Vec<u8>,
        kwargs_blob: Option<Vec<u8>>,
    )
        requires
            old(self).wf(),
        ensures
            final(self).wf(),
            final(self)@ == lineage_record(
                old(self)@,
                outputs@,
                fresh_record(
                    dispatcher::DispatchModel {
                        task_id,
                        num_returns,
                        callable: callable_blob@,
                        args: args_blob@,
                        kwargs: match kwargs_blob {
                            None => None,
                            Some(b) => Some(b@),
                        },
                    },
                ),
            ),
    {
        let record = TaskRecord {
            task_id,
            num_returns,
            callable_blob: Arc::new(callable_blob),
            args_blob: Arc::new(args_blob),
            kwargs_blob: match kwargs_blob {
                None => None,
                Some(b) => Some(Arc::new(b)),
            },
            retries_remaining: DEFAULT_MAX_RETRIES,
            was_completed: false,
        };
        let n: usize = outputs.len();
        let mut i: usize = 0;
        assert(outputs@.take(0) =~= Seq::<ObjectId>::empty());
        while i < n
            invariant
                self.wf(),
                n == outputs@.len(),
                i <= n,
                self@ == lineage_record(old(self)@, outputs@.take(i as int), record@),
            decreases n - i,
        {
            let ghost before = self@;
            let id: ObjectId = outputs[i];
            self.by_object.insert(id, record.clone());
            proof {
                assert(outputs@.take(i + 1).drop_last() =~= outputs@.take(i as int));
                assert(self@ =~= before.insert(id, record@));
            }
            i += 1;
        }
        assert(outputs@.take(n as int) =~= outputs@);
    }

    /// A run of `task_id` has ended.
    pub fn mark_completed(&mut self, task_id: TaskId)
        requires
            old(self).wf(),
        ensures
            final(self).wf(),
            final(self)@ == lineage_ended(old(self)@, task_id),
    {
        let n: usize = self.by_object.len();
        let mut i: usize = 0;
        let ghost order = self.by_object.order();
        let ghost m = self@;
        proof {
            self.by_object.lemma_model();
        }
        while i < n
            invariant
                self.wf(),
                self.by_object.order() == order,
                order.no_duplicates(),
                n == order.len(),
                i <= n,
                m.dom() == order.to_set(),
                self@.dom() == m.dom(),
                forall|j: int| 0 <= j < i ==> self@[#[trigger] order[j]] == ended(m[order[j]], task_id),
                forall|j: int| i <= j < n ==> self@[#[trigger] order[j]] == m[order[j]],
            decreases n - i,
        {
            let ghost before = self@;
            proof {
                assert(order.to_set().contains(order[i as int]));
            }
            let r = self.by_object.value_at(i);
            if r.task_id == task_id {
                let mut done = r.clone();
                done.was_completed = true;
                self.by_object.set_value_at(i, done);
                assert(self@ =~= before.insert(order[i as int], done@));
            }
            i += 1;
        }
        proof {
            assert(self@ =~= lineage_ended(m, task_id)) by {
                assert forall|k: ObjectId| #[trigger] m.contains_key(k) implies self@[k] == ended(
                    m[k],
                    task_id,
                ) by {
                    assert(order.to_set().contains(k));
                    let j = order.index_of(k);
                    assert(order[j] == k);
                }
            }
        }
    }

    /// Whether an object can be made again.
    pub fn lineage_status(&self, object_id: ObjectId) -> (r: LineageStatus)
        requires
            self.wf(),
        ensures
            r == lineage_status_of(self@, object_id),
    {
        match self.by_object.get(&object_id) {
            None => LineageStatus::NotRecorded,
            Some(record) => if !record.was_completed {
                LineageStatus::NotYetCompleted
            } else if record.retries_remaining == 0 {
                LineageStatus::BudgetExhausted
            } else {
                LineageStatus::ReadyToResubmit
            },
        }
    }

    /// The job that makes an object again, where it can be. It counts as sent out.
    pub fn try_resubmit(&mut self, object_id: ObjectId) -> (r: Option<DispatchJob>)
        requires
            old(self).wf(),
        ensures
            final(self).wf(),
            match r {
                Some(job) => {
                    &&& lineage_status_of(old(self)@, object_id) == LineageStatus::ReadyToResubmit
                    &&& job@ == old(self)@[object_id].job
                    &&& final(self)@ == lineage_spent(old(self)@, job.task_id)
                },
                None => {
                    &&& lineage_status_of(old(self)@, object_id) != LineageStatus::ReadyToResubmit
                    &&& *final(self) == *old(self)
                },
            },
    {
        let job = match self.by_object.get(&object_id) {
            None => return None,
            Some(record) => {
                if !record.was_completed || record.retries_remaining == 0 {
                    return None;
                }
                DispatchJob {
                    task_id: record.task_id,
                    num_returns: record.num_returns,
                    callable_blob: copy_bytes(record.callable_blob.as_slice()),
                    args_blob: copy_bytes(record.args_blob.as_slice()),
                    kwargs_blob: match &record.kwargs_blob {
                        None => None,
                        Some(b) => Some(copy_bytes(b.as_slice())),
                    },
                }
            },
        };
        self.spend(job.task_id);
        Some(job)
    }

    /// Notes that a task was sent out again.
    fn spend(&mut self, task_id: TaskId)
        requires
            old(self).wf(),
        ensures
            final(self).wf(),
            final(self)@ == lineage_spent(old(self)@, task_id),
    {
        let n: usize = self.by_object.len();
        let mut i: usize = 0;
        let ghost order = self.by_object.order();
        let ghost m = self@;
        proof {
            self.by_object.lemma_model();
        }
        while i < n
            invariant
                self.wf(),
                self.by_object.order() == order,
                order.no_duplicates(),
                n == order.len(),
                i <= n,
                m.dom() == order.to_set(),
                self@.dom() == m.dom(),
                forall|j: int| 0 <= j < i ==> self@[#[trigger] order[j]] == spent(m[order[j]], task_id),
                forall|j: int| i <= j < n ==> self@[#[trigger] order[j]] == m[order[j]],
            decreases n - i,
        {
            let ghost before = self@;
            proof {
                assert(order.to_set().contains(order[i as int]));
            }
            let r = self.by_object.value_at(i);
            if r.task_id == task_id {
                let mut sent = r.clone();
                if sent.retries_remaining > 0 {
                    sent.retries_remaining = sent.retries_remaining - 1;
                }
                sent.was_completed = false;
                self.by_object.set_value_at(i, sent);
                assert(self@ =~= before.insert(order[i as int], sent@));
            }
            i += 1;
        }
        proof {
            assert(self@ =~= lineage_spent(m, task_id)) by {
                assert forall|k: ObjectId| #[trigger] m.contains_key(k) implies self@[k] == spent(
                    m[k],
                    task_id,
                ) by {
                    assert(order.to_set().contains(k));
                    let j = order.index_of(k);
                    assert(order[j] == k);
                }
            }
        }
    }
}

/// The record of a task that was just sent out for the first time.
pub open spec fn fresh_record(job: dispatcher::DispatchModel) -> TaskModel {
    TaskModel { job, retries: DEFAULT_MAX_RETRIES, completed: false }
}

/// Objects of one task have one and the same record.
pub open spec fn consistent(m: Lineage) -> bool {
    forall|a: ObjectId, b: ObjectId|
        #![trigger m.contains_key(a), m.contains_key(b)]
        m.contains_key(a) && m.contains_key(b) && m[a].job.task_id == m[b].job.task_id ==> m[a]
            == m[b]
}

/// The records after a task was noted: its outputs have the new one, other objects theirs.
pub proof fn law_record_is_exact(m: Lineage, outputs: Seq<ObjectId>, record: TaskModel, id: ObjectId)
    ensures
        lineage_record(m, outputs, record).contains_key(id) == (outputs.contains(id)
            || m.contains_key(id)),
        outputs.contains(id) ==> lineage_record(m, outputs, record)[id] == record,
        !outputs.contains(id) ==> lineage_record(m, outputs, record)[id] == m[id],
    decreases outputs.len(),
{
    if outputs.len() > 0 {
        let rest = outputs.drop_last();
        law_record_is_exact(m, rest, record, id);
        assert(outputs[outputs.len() - 1] == outputs.last());
        if rest.contains(id) {
            assert(outputs[rest.index_of(id)] == id);
        }
        if outputs.contains(id) && id != outputs.last() {
            assert(rest[outputs.index_of(id)] == id);
        }
    }
}

/// Objects of one task share their fate: whatever is done with tasks, each noted once,
/// their records stay the same.
pub proof fn law_outputs_agree(m: Lineage, task: TaskId, outputs: Seq<ObjectId>, record: TaskModel)
    requires
        consistent(m),
        forall|k: ObjectId| #[trigger] m.contains_key(k) ==> m[k].job.task_id != record.job.task_id,
    ensures
        consistent(lineage_ended(m, task)),
        consistent(lineage_spent(m, task)),
        consistent(lineage_record(m, outputs, record)),
{
    let r = lineage_record(m, outputs, record);
    assert forall|a: ObjectId, b: ObjectId|
        #![trigger r.contains_key(a), r.contains_key(b)]
        r.contains_key(a) && r.contains_key(b) && r[a].job.task_id == r[b].job.task_id implies r[a]
        == r[b] by {
        law_record_is_exact(m, outputs, record, a);
        law_record_is_exact(m, outputs, record, b);
    }
}

/// A task that was sent out again is not sent out once more before that run has ended, for
/// none of its objects.
pub proof fn law_no_double_submit(m: Lineage, id: ObjectId, other: ObjectId)
    requires
        lineage_status_of(m, id) == LineageStatus::ReadyToResubmit,
        m.contains_key(other),
        m[other].job.task_id == m[id].job.task_id,
    ensures
        lineage_status_of(lineage_spent(m, m[id].job.task_id), other)
            == LineageStatus::NotYetCompleted,
{
}

/// The lineage after an object was made again `n` times, each run ended.
pub open spec fn rerun(m: Lineage, task: TaskId, n: nat) -> Lineage
    decreases n,
{
    if n == 0 {
        lineage_ended(m, task)
    } else {
        lineage_ended(lineage_spent(rerun(m, task, (n - 1) as nat), task), task)
    }
}

/// A task is run again at most three times, for all its objects together.
pub proof fn law_retry_budget(
    m: Lineage,
    outputs: Seq<ObjectId>,
    record: TaskModel,
    id: ObjectId,
    n: nat,
)
    requires
        outputs.contains(id),
        record == fresh_record(record.job),
        n <= 3,
    ensures
        ({
            let now = rerun(lineage_record(m, outputs, record), record.job.task_id, n);
            &&& now.contains_key(id)
            &&& now[id] == (TaskModel { retries: (3 - n) as u32, completed: true, ..record })
            &&& lineage_status_of(now, id) == (if n < 3 {
                LineageStatus::ReadyToResubmit
            } else {
                LineageStatus::BudgetExhausted
            })
        }),
    decreases n,
{
    if n == 0 {
        law_record_is_exact(m, outputs, record, id);
    } else {
        law_retry_budget(m, outputs, record, id, (n - 1) as nat);
    }
}

/// The end of a run is noted for every object of its task and for no other object, and nothing
/// else changes.
pub proof fn law_run_end_is_exact(m: Lineage, task: TaskId, id: ObjectId)
    ensures
        lineage_ended(m, task).contains_key(id) == m.contains_key(id),
        m.contains_key(id) ==> lineage_ended(m, task)[id].job == m[id].job,
        m.contains_key(id) ==> lineage_ended(m, task)[id].retries == m[id].retries,
        m.contains_key(id) && m[id].job.task_id == task ==> lineage_ended(m, task)[id].completed,
        m.contains_key(id) && m[id].job.task_id != task ==> lineage_ended(m, task)[id] == m[id],
{
}

/// A task that is sent out again runs anew for all of its objects, with one retry less, and
/// the objects of other tasks are left alone.
pub proof fn law_resubmission_is_exact(m: Lineage, task: TaskId, id: ObjectId)
    ensures
        lineage_spent(m, task).contains_key(id) == m.contains_key(id),
        m.contains_key(id) ==> lineage_spent(m, task)[id].job == m[id].job,
        m.contains_key(id) && m[id].job.task_id == task ==> !lineage_spent(m, task)[id].completed,
        m.contains_key(id) && m[id].job.task_id == task && m[id].retries > 0 ==> lineage_spent(
            m,
            task,
        )[id].retries == m[id].retries - 1,
        m.contains_key(id) && m[id].job.task_id == task && m[id].retries == 0 ==> lineage_spent(
            m,
            task,
        )[id].retries == 0,
        m.contains_key(id) && m[id].job.task_id != task ==> lineage_spent(m, task)[id] == m[id],
{
}

/// The news of one task does not change what is said of the objects of another.
pub proof fn law_tasks_do_not_interfere(m: Lineage, task: TaskId, id: ObjectId)
    requires
        m.contains_key(id) ==> m[id].job.task_id != task,
    ensures
        lineage_status_of(lineage_ended(m, task), id) == lineage_status_of(m, id),
        lineage_status_of(lineage_spent(m, task), id) == lineage_status_of(m, id),
{
}

/// An object can be made again exactly where its task is known, has ended, and may be run
/// again; each reason against it has a status of its own.
pub proof fn law_status_tells_why(m: Lineage, id: ObjectId)
    ensures
        lineage_status_of(m, id) is NotRecorded <==> !m.contains_key(id),
        lineage_status_of(m, id) is NotYetCompleted <==> m.contains_key(id) && !m[id].completed,
        lineage_status_of(m, id) is ReadyToResubmit <==> m.contains_key(id) && m[id].completed
            && m[id].retries > 0,
        lineage_status_of(m, id) is BudgetExhausted <==> m.contains_key(id) && m[id].completed
            && m[id].retries == 0,
{
}

/// A task that was just noted runs; once it has ended, it can be run again. The end of another
/// task does not end it.
pub proof fn law_first_run(
    m: Lineage,
    outputs: Seq<ObjectId>,
    job: dispatcher::DispatchModel,
    other: TaskId,
    id: ObjectId,
)
    requires
        outputs.contains(id),
        other != job.task_id,
    ensures
        ({
            let noted = lineage_record(m, outputs, fresh_record(job));
            &&& noted.contains_key(id)
            &&& noted[id].job == job
            &&& lineage_status_of(noted, id) == LineageStatus::NotYetCompleted
            &&& lineage_status_of(lineage_ended(noted, other), id)
                == LineageStatus::NotYetCompleted
            &&& lineage_status_of(lineage_ended(noted, job.task_id), id)
                == LineageStatus::ReadyToResubmit
        }),
{
    law_record_is_exact(m, outputs, fresh_record(job), id);
}

/// What is noted of a task is modelled with all that is needed to run it again.
pub proof fn law_records_are_modelled(r: TaskRecord)
    ensures
        r@.job.task_id == r.task_id,
        r@.job.num_returns == r.num_returns,
        r@.job.callable == (*r.callable_blob)@,
        r@.job.args == (*r.args_blob)@,
        r@.job.kwargs is Some <==> r.kwargs_blob is Some,
        r.kwargs_blob matches Some(b) ==> r@.job.kwargs == Some((*b)@),
        r@.retries == r.retries_remaining,
        r@.completed == r.was_completed,
{
}

} // verus!
