//! The registry of jobs.

use crate::gcs::status;
use crate::gcs::status::{check_optional_id, parse_id, RpcCode, Status};
use crate::kernel::id::random_bytes;
use crate::util::bytes::copy_bytes;
use crate::util::clock::unix_ms;
use crate::util::sums;
use crate::util::table::Table;
use vstd::prelude::*;

verus! {

/// How far a job is.
#[derive(Debug, Clone, Copy, PartialEq, Eq, Structural)]
pub enum JobStatus {
    /// Not known.
    Unspecified,
    /// Its driver runs.
    Running,
    /// Its driver ended well.
    Finished,
    /// Its driver ended badly.
    Failed,
}

impl JobStatus {
    /// The number of the status on the wire.
    pub open spec fn spec_code(self) -> i32 {
        match self {
            JobStatus::Unspecified => 0,
            JobStatus::Running => 1,
            JobStatus::Finished => 2,
            JobStatus::Failed => 3,
        }
    }

    /// The number of the status on the wire.
    pub fn code(self) -> (r: i32)
        ensures
            r == self.spec_code(),
    {
        match self {
            JobStatus::Unspecified => 0,
            JobStatus::Running => 1,
            JobStatus::Finished => 2,
            JobStatus::Failed => 3,
        }
    }
}

/// What is known of a job.
#[derive(Debug, PartialEq, Eq)]
pub struct JobInfo {
    /// The job.
    pub job_id: Vec<u8>,
    /// Host of its driver.
    pub driver_host: String,
    /// Process of its driver.
    pub driver_pid: u32,
    /// Node of its driver; empty where it has none.
    pub node_id: Vec<u8>,
    /// Its status, by number.
    pub status: i32,
    /// When it began.
    pub registered_at_unix_ms: u64,
    /// When it ended; 0 before.
    pub finished_at_unix_ms: u64,
}

/// The mathematical content of a `JobInfo`.
#[verifier::ext_equal]
pub struct JobModel {
    /// The job.
    pub job_id: Seq<u8>,
    /// Host of its driver.
    pub driver_host: Seq<char>,
    /// Process of its driver.
    pub driver_pid: u32,
    /// Node of its driver.
    pub node_id: Seq<u8>,
    /// Its status, by number.
    pub status: i32,
    /// When it began.
    pub registered_at: u64,
    /// When it ended.
    pub finished_at: u64,
}

impl View for JobInfo {
    type V = JobModel;

    open spec fn view(&self) -> JobModel {
        JobModel {
            job_id: self.job_id@,
            driver_host: self.driver_host@,
            driver_pid: self.driver_pid,
            node_id: self.node_id@,
            status: self.status,
            registered_at: self.registered_at_unix_ms,
            finished_at: self.finished_at_unix_ms,
        }
    }
}

impl Clone for JobInfo {
    fn clone(&self) -> (r: Self)
        ensures
            r@ == self@,
    {
        JobInfo {
            job_id: copy_bytes(self.job_id.as_slice()),
            driver_host: self.driver_host.clone(),
            driver_pid: self.driver_pid,
            node_id: copy_bytes(self.node_id.as_slice()),
            status: self.status,
            registered_at_unix_ms: self.registered_at_unix_ms,
            finished_at_unix_ms: self.finished_at_unix_ms,
        }
    }
}

/// A job and why it failed.
#[derive(Debug)]
pub struct JobInfoEntry {
    /// What is known of the job.
    pub info: JobInfo,
    /// Why it failed.
    pub failure_message: Option<String>,
}

/// The mathematical content of a `JobInfoEntry`.
#[verifier::ext_equal]
pub struct JobEntryModel {
    /// What is known of the job.
    pub info: JobModel,
    /// Why it failed.
    pub failure: Option<Seq<char>>,
}

impl View for JobInfoEntry {
    type V = JobEntryModel;

    open spec fn view(&self) -> JobEntryModel {
        JobEntryModel {
            info: self.info@,
            failure: match self.failure_message {
                None => None,
                Some(m) => Some(m@),
            },
        }
    }
}

/// The request of a driver to begin a job.
#[derive(Debug)]
pub struct AddJobRequest {
    /// Host of the driver.
    pub driver_host: String,
    /// Process of the driver.
    pub driver_pid: u32,
    /// Node of the driver; may be empty.
    pub node_id: Vec<u8>,
}

/// The job that a request begins.
pub open spec fn new_job(req: AddJobRequest, job_id: Seq<u8>, now: u64) -> JobEntryModel {
    JobEntryModel {
        info: JobModel {
            job_id,
            driver_host: req.driver_host@,
            driver_pid: req.driver_pid,
            node_id: req.node_id@,
            status: 1,
            registered_at: now,
            finished_at: 0,
        },
        failure: None,
    }
}

/// A job after it ended at `now`: well where `message` is empty, else badly.
pub open spec fn ended_job(j: JobEntryModel, message: Seq<char>, now: u64) -> JobEntryModel {
    JobEntryModel {
        info: JobModel {
            status: if message.len() == 0 {
                2
            } else {
                3
            },
            finished_at: now,
            ..j.info
        },
        failure: if message.len() == 0 {
            j.failure
        } else {
            Some(message)
        },
    }
}

/// 1 for a running job, 0 for another.
pub open spec fn running_weight(j: JobEntryModel) -> nat {
    if j.info.status == 1 {
        1
    } else {
        0
    }
}

/// Number of running jobs.
pub open spec fn running(jobs: Map<Seq<u8>, JobEntryModel>) -> nat {
    sums::map_sum(jobs, |j: JobEntryModel| running_weight(j))
}

/// Why a request to begin a job is refused.
pub open spec fn add_job_error(req: AddJobRequest) -> Option<(RpcCode, Seq<char>)> {
    if req.driver_host@.len() == 0 {
        Some((RpcCode::InvalidArgument, "driver_host must not be empty"@))
    } else if req.node_id@.len() != 0 && req.node_id@.len() != 16 {
        Some(
            (
                RpcCode::InvalidArgument,
                status::wrong_optional_id_length("node_id"@, req.node_id@.len()),
            ),
        )
    } else {
        None
    }
}

/// Why a request to end a job is refused.
pub open spec fn finish_error(jobs: Map<Seq<u8>, JobEntryModel>, job_id: Seq<u8>) -> Option<
    (RpcCode, Seq<char>),
> {
    if job_id.len() != 16 {
        Some((RpcCode::InvalidArgument, status::wrong_id_length("job_id"@, 16, job_id.len())))
    } else if !jobs.contains_key(job_id) {
        Some((RpcCode::NotFound, "unknown job_id"@))
    } else {
        None
    }
}

/// The registry of jobs.
#[derive(Debug)]
pub struct JobsRegistry {
    jobs: Table<[u8; 16], JobInfoEntry>,
}

impl View for JobsRegistry {
    type V = Map<Seq<u8>, JobEntryModel>;

    closed spec fn view(&self) -> Map<Seq<u8>, JobEntryModel> {
        self.jobs@.map_values(|j: JobInfoEntry| j@)
    }
}

impl JobsRegistry {
    /// The table is well formed.
    pub closed spec fn wf(&self) -> bool {
        self.jobs.wf()
    }

    /// The jobs in the order in which they began.
    pub closed spec fn order(&self) -> Seq<Seq<u8>> {
        self.jobs.order()
    }

    /// The order lists every job once.
    pub proof fn lemma_model(&self)
        requires
            self.wf(),
        ensures
            self.order().no_duplicates(),
            self@.dom() == self.order().to_set(),
            self@.dom().finite(),
            self@.dom().len() == self.order().len(),
    {
        self.jobs.lemma_model();
        assert(self@.dom() =~= self.jobs@.dom());
    }

    /// A registry without jobs.
    pub fn new() -> (r: Self)
        ensures
            r.wf(),
            r@ == Map::<Seq<u8>, JobEntryModel>::empty(),
            r.order() == Seq::<Seq<u8>>::empty(),
    {
        let r = JobsRegistry { jobs: Table::new() };
        assert(r@ =~= Map::<Seq<u8>, JobEntryModel>::empty());
        proof {
            r.lemma_model();
            assert(r.order() =~= Seq::<Seq<u8>>::empty());
        }
        r
    }

    /// All jobs.
    pub fn snapshot(&self) -> (r: Vec<JobInfo>)
        requires
            self.wf(),
        ensures
            r@.map_values(|j: JobInfo| j@) == self.order().map_values(|k: Seq<u8>| self@[k].info),
    {
        let mut r: Vec<JobInfo> = Vec::new();
        let n: usize = self.jobs.len();
        let mut i: usize = 0;
        let ghost f = |j: JobInfo| j@;
        let ghost want = self.order().map_values(|k: Seq<u8>| self@[k].info);
        assert(r@.map_values(f) =~= want.take(0));
        while i < n
            invariant
                self.wf(),
                n == self.order().len(),
                i <= n,
                f == (|j: JobInfo| j@),
                want == self.order().map_values(|k: Seq<u8>| self@[k].info),
                r@.map_values(f) == want.take(i as int),
            decreases n - i,
        {
            let ghost before = r@;
            let x = self.jobs.value_at(i).info.clone();
            r.push(x);
            proof {
                assert(r@.map_values(f) =~= before.map_values(f).push(x@));
                assert(want.take(i + 1) =~= want.take(i as int).push(want[i as int]));
            }
            i += 1;
        }
        assert(want.take(n as int) =~= want);
        r
    }

    /// Number of jobs.
    pub fn len(&self) -> (n: usize)
        requires
            self.wf(),
        ensures
            n == self@.dom().len(),
    {
        proof {
            self.lemma_model();
        }
        self.jobs.len()
    }

    /// Why a job failed, where it did.
    pub fn failure_message(&self, job_id: &[u8; 16]) -> (r: Option<String>)
        requires
            self.wf(),
        ensures
            match r {
                Some(m) => self@.contains_key(job_id@) && self@[job_id@].failure == Some(m@),
                None => !self@.contains_key(job_id@) || self@[job_id@].failure is None,
            },
    {
        match self.jobs.get(job_id) {
            None => None,
            Some(entry) => match &entry.failure_message {
                None => None,
                Some(m) => Some(m.clone()),
            },
        }
    }

    /// Begins a job under `job_id` at time `now_ms`.
    pub fn add_job_as(&mut self, req: AddJobRequest, job_id: [u8; 16], now_ms: u64) -> (r: Result<
        [u8; 16],
        Status,
    >)
        requires
            old(self).wf(),
        ensures
            final(self).wf(),
            match r {
                Ok(id) => {
                    &&& add_job_error(req) is None
                    &&& id@ == job_id@
                    &&& final(self)@ == old(self)@.insert(job_id@, new_job(req, job_id@, now_ms))
                    &&& final(self).order() == (if old(self)@.contains_key(job_id@) {
                        old(self).order()
                    } else {
                        old(self).order().push(job_id@)
                    })
                },
                Err(e) => add_job_error(req) == Some(e@) && *final(self) == *old(self),
            },
    {
        if req.driver_host.as_str().unicode_len() == 0 {
            return Err(Status::invalid_argument("driver_host must not be empty"));
        }
        match check_optional_id(req.node_id.as_slice(), "node_id") {
            Ok(()) => {},
            Err(e) => return Err(e),
        }
        let entry = JobInfoEntry {
            info: JobInfo {
                job_id: copy_bytes(&job_id),
                driver_host: req.driver_host,
                driver_pid: req.driver_pid,
                node_id: req.node_id,
                status: JobStatus::Running.code(),
                registered_at_unix_ms: now_ms,
                finished_at_unix_ms: 0,
            },
            failure_message: None,
        };
        assert(entry.info.job_id@ =~= job_id@);
        assert(entry@ == new_job(req, job_id@, now_ms));
        self.jobs.insert(job_id, entry);
        assert(self@ =~= old(self)@.insert(job_id@, entry@));
        Ok(job_id)
    }

    /// Begins a job under a fresh random identifier at the present time.
    pub fn add_job(&mut self, req: AddJobRequest) -> (r: Result<[u8; 16], Status>)
        requires
            old(self).wf(),
        ensures
            final(self).wf(),
            match r {
                Ok(id) => add_job_error(req) is None && exists|now: u64|
                    final(self)@ == old(self)@.insert(id@, #[trigger] new_job(req, id@, now)),
                Err(e) => add_job_error(req) == Some(e@) && *final(self) == *old(self),
            },
    {
        let job_id: [u8; 16] = random_bytes();
        let now: u64 = unix_ms();
        self.add_job_as(req, job_id, now)
    }

    /// Ends a job at time `now_ms`: well where `failure_message` is empty, else badly.
    /// Gives back whether it was running until now.
    pub fn mark_job_finished_at(&mut self, job_id: &[u8], failure_message: String, now_ms: u64)
        -> (r: Result<bool, Status>)
        requires
            old(self).wf(),
        ensures
            final(self).wf(),
            final(self).order() == old(self).order(),
            match r {
                Ok(was_running) => {
                    &&& finish_error(old(self)@, job_id@) is None
                    &&& was_running == (old(self)@[job_id@].info.status == 1)
                    &&& final(self)@ == old(self)@.insert(
                        job_id@,
                        ended_job(old(self)@[job_id@], failure_message@, now_ms),
                    )
                },
                Err(e) => finish_error(old(self)@, job_id@) == Some(e@) && *final(self) == *old(
                    self,
                ),
            },
    {
        let id: [u8; 16] = match parse_id(job_id, "job_id") {
            Ok(id) => id,
            Err(e) => return Err(e),
        };
        let (info, kept) = match self.jobs.get(&id) {
            None => return Err(Status::not_found("unknown job_id")),
            Some(entry) => (
                entry.info.clone(),
                match &entry.failure_message {
                    None => None,
                    Some(m) => Some(m.clone()),
                },
            ),
        };
        let was_running = info.status == JobStatus::Running.code();
        let failed = failure_message.as_str().unicode_len() != 0;
        let entry = JobInfoEntry {
            info: JobInfo {
                finished_at_unix_ms: now_ms,
                status: if failed {
                    JobStatus::Failed.code()
                } else {
                    JobStatus::Finished.code()
                },
                ..info
            },
            failure_message: if failed {
                Some(failure_message)
            } else {
                kept
            },
        };
        assert(entry@ == ended_job(old(self)@[job_id@], failure_message@, now_ms));
        self.jobs.insert(id, entry);
        assert(self@ =~= old(self)@.insert(job_id@, entry@));
        Ok(was_running)
    }

    /// Ends a job at the present time.
    pub fn mark_job_finished(&mut self, job_id: &[u8], failure_message: String) -> (r: Result<
        bool,
        Status,
    >)
        requires
            old(self).wf(),
        ensures
            final(self).wf(),
            final(self).order() == old(self).order(),
            match r {
                Ok(was_running) => {
                    &&& finish_error(old(self)@, job_id@) is None
                    &&& was_running == (old(self)@[job_id@].info.status == 1)
                    &&& exists|now: u64|
                        final(self)@ == old(self)@.insert(
                            job_id@,
                            #[trigger] ended_job(old(self)@[job_id@], failure_message@, now),
                        )
                },
                Err(e) => finish_error(old(self)@, job_id@) == Some(e@) && *final(self) == *old(
                    self,
                ),
            },
    {
        let now: u64 = unix_ms();
        self.mark_job_finished_at(job_id, failure_message, now)
    }
}

/// A new job adds one to the running ones; a job that ends takes one away where it was
/// running until then.
pub proof fn law_running_count(
    jobs: Map<Seq<u8>, JobEntryModel>,
    req: AddJobRequest,
    id: Seq<u8>,
    message: Seq<char>,
    now: u64,
)
    requires
        jobs.dom().finite(),
    ensures
        !jobs.contains_key(id) ==> running(jobs.insert(id, new_job(req, id, now))) == running(jobs)
            + 1,
        jobs.contains_key(id) ==> running(jobs.insert(id, ended_job(jobs[id], message, now)))
            + running_weight(jobs[id]) == running(jobs),
{
    let f = |j: JobEntryModel| running_weight(j);
    sums::lemma_sum_insert(jobs, f, id, new_job(req, id, now));
    if jobs.contains_key(id) {
        sums::lemma_sum_insert(jobs, f, id, ended_job(jobs[id], message, now));
        sums::lemma_sum_remove(jobs, f, id);
    } else {
        assert(jobs.remove(id) =~= jobs);
    }
}

/// A job that ended does not run again: ending it once more only changes how and when it
/// ended, and the first reason of a failure stays until another is given.
pub proof fn law_ended_stays_ended(j: JobEntryModel, first: Seq<char>, second: Seq<char>, t1: u64, t2: u64)
    ensures
        running_weight(ended_job(ended_job(j, first, t1), second, t2)) == 0,
        second.len() == 0 && first.len() > 0 ==> ended_job(
            ended_job(j, first, t1),
            second,
            t2,
        ).failure == Some(first),
        ended_job(ended_job(j, first, t1), second, t2).info == ended_job(j, second, t2).info,
{
}

/// A new job has the host, the process and the node of its request, runs, and has not ended.
pub proof fn law_job_keeps_the_request(req: AddJobRequest, job_id: Seq<u8>, now: u64)
    ensures
        ({
            let job = new_job(req, job_id, now);
            &&& job.info.job_id == job_id
            &&& job.info.driver_host == req.driver_host@
            &&& job.info.driver_pid == req.driver_pid
            &&& job.info.node_id == req.node_id@
            &&& job.info.status == JobStatus::Running.spec_code()
            &&& job.info.registered_at == now
            &&& job.info.finished_at == 0
            &&& job.failure is None
        }),
{
}

/// A job ends well without a message and badly with one, which is kept; who drives it, where
/// and since when stays as it was.
pub proof fn law_end_of_a_job(j: JobEntryModel, message: Seq<char>, now: u64)
    ensures
        ({
            let after = ended_job(j, message, now);
            &&& after.info.finished_at == now
            &&& message.len() == 0 ==> after.info.status == JobStatus::Finished.spec_code()
                && after.failure == j.failure
            &&& message.len() > 0 ==> after.info.status == JobStatus::Failed.spec_code()
                && after.failure == Some(message)
            &&& after.info.job_id == j.info.job_id
            &&& after.info.driver_host == j.info.driver_host
            &&& after.info.driver_pid == j.info.driver_pid
            &&& after.info.node_id == j.info.node_id
            &&& after.info.registered_at == j.info.registered_at
        }),
{
}

/// A job is refused exactly where it has no host, or a node whose identifier has not 16 bytes;
/// its end exactly where its identifier has not 16 bytes or is not known.
pub proof fn law_job_is_refused_for_a_reason(
    req: AddJobRequest,
    jobs: Map<Seq<u8>, JobEntryModel>,
    job_id: Seq<u8>,
)
    ensures
        add_job_error(req) is None <==> req.driver_host@.len() > 0 && (req.node_id@.len() == 0
            || req.node_id@.len() == 16),
        add_job_error(req) matches Some(e) ==> e.0 == RpcCode::InvalidArgument,
        finish_error(jobs, job_id) is None <==> job_id.len() == 16 && jobs.contains_key(job_id),
        (finish_error(jobs, job_id) matches Some(e) && e.0 == RpcCode::NotFound) <==> job_id.len()
            == 16 && !jobs.contains_key(job_id),
        (finish_error(jobs, job_id) matches Some(e) && e.0 == RpcCode::InvalidArgument)
            <==> job_id.len() != 16,
{
}

/// The states of a job have the numbers from 0 on, in the order in which they are declared.
pub proof fn law_job_status_codes()
    ensures
        JobStatus::Unspecified.spec_code() == 0,
        JobStatus::Running.spec_code() == JobStatus::Unspecified.spec_code() + 1,
        JobStatus::Finished.spec_code() == JobStatus::Running.spec_code() + 1,
        JobStatus::Failed.spec_code() == JobStatus::Finished.spec_code() + 1,
{
}

/// A job counts as running exactly while its status says so.
pub proof fn law_running_weight(j: JobEntryModel)
    ensures
        running_weight(j) == 1 <==> j.info.status == JobStatus::Running.spec_code(),
        running_weight(j) <= 1,
{
}

/// A job is modelled with all that is known of it.
pub proof fn law_jobs_are_modelled(j: JobInfo)
    ensures
        j@.job_id == j.job_id@,
        j@.driver_host == j.driver_host@,
        j@.driver_pid == j.driver_pid,
        j@.node_id == j.node_id@,
        j@.status == j.status,
        j@.registered_at == j.registered_at_unix_ms,
        j@.finished_at == j.finished_at_unix_ms,
{
}

} // verus!
