//! The job queue.
//!
//! The queue is a plain value: whoever shares one between threads puts it
//! behind a lock. Time is a number of nanoseconds on a monotonic clock, and the
//! caller says what it is.

use std::collections::VecDeque;

use vstd::multiset::Multiset;
use vstd::prelude::*;

use crate::protocol::{
    Backend, JobSpec, JobSpecView, ResultSummary, ResultSummaryView, TrustClass, PROTOCOL_VERSION,
};
use crate::text::{copy_text, same_text};

verus! {

/// How long a lease is held before the job returns to the queue.
pub const LEASE_SECONDS: u64 = 120;

/// The same in nanoseconds.
pub const LEASE_NANOS: u128 = 120_000_000_000;

/// Seconds a worker should wait before re-polling an empty queue.
pub const EMPTY_QUEUE_BACKOFF_SECONDS: u32 = 5;

/// Maximum jobs one lease request may claim.
pub const MAX_LEASE_CAPACITY: u32 = 32;

/// A job waiting to be judged, or being judged.
#[derive(Debug)]
pub struct QueuedJob {
    /// The job specification, minus the hidden-test decision.
    pub spec: JobSpec,
    /// Whether the referenced package actually contains hidden tests.
    ///
    /// Kept separate from [`JobSpec::includes_hidden_tests`] on purpose: the
    /// spec field is *what this worker is told*, and it is computed per lease
    /// from the leasing worker's trust class. Storing them apart makes it
    /// impossible to accidentally hand a volunteer the queue's own copy.
    pub package_has_hidden_tests: bool,
}

/// What a [`QueuedJob`] says.
#[verifier::ext_equal]
pub struct QueuedJobView {
    pub spec: JobSpecView,
    pub package_has_hidden_tests: bool,
}

impl View for QueuedJob {
    type V = QueuedJobView;

    open spec fn view(&self) -> QueuedJobView {
        QueuedJobView {
            spec: self.spec@,
            package_has_hidden_tests: self.package_has_hidden_tests,
        }
    }
}

impl Clone for QueuedJob {
    fn clone(&self) -> (copy: QueuedJob)
        ensures
            copy@ == self@,
    {
        QueuedJob {
            spec: self.spec.clone(),
            package_has_hidden_tests: self.package_has_hidden_tests,
        }
    }
}

#[derive(Debug)]
struct Lease {
    job: QueuedJob,
    worker_id: String,
    expires_at: u128,
}

/// What a lease says.
#[verifier::ext_equal]
pub struct LeaseView {
    pub job: QueuedJobView,
    pub worker_id: Seq<char>,
    pub expires_at: u128,
}

impl Lease {
    spec fn said(self) -> LeaseView {
        LeaseView { job: self.job@, worker_id: self.worker_id@, expires_at: self.expires_at }
    }
}

/// An in-memory job queue.
#[derive(Debug)]
pub struct Queue {
    waiting: VecDeque<QueuedJob>,
    leased: Vec<Lease>,
    /// Job id paired with the summary that finalised it. Keeping the id here is
    /// what makes a duplicate report distinguishable from an unknown job.
    finished: Vec<(String, ResultSummary)>,
}

/// What a [`Queue`] holds.
#[verifier::ext_equal]
pub struct QueueView {
    /// The jobs that wait, the next one first.
    pub waiting: Seq<QueuedJobView>,
    /// The jobs that are leased.
    pub leased: Seq<LeaseView>,
    /// The ids of the jobs that have finished, each with its result.
    pub finished: Seq<(Seq<char>, ResultSummaryView)>,
}

/// What the jobs of a list say.
pub open spec fn job_views(jobs: Seq<QueuedJob>) -> Seq<QueuedJobView> {
    Seq::new(jobs.len(), |i: int| jobs[i]@)
}

/// What the specifications of a list say.
pub open spec fn spec_views(specs: Seq<JobSpec>) -> Seq<JobSpecView> {
    Seq::new(specs.len(), |i: int| specs[i]@)
}

/// What the summaries of a list say.
pub open spec fn summary_views(summaries: Seq<ResultSummary>) -> Seq<ResultSummaryView> {
    Seq::new(summaries.len(), |i: int| summaries[i]@)
}

spec fn lease_views(leases: Seq<Lease>) -> Seq<LeaseView> {
    Seq::new(leases.len(), |i: int| leases[i].said())
}

spec fn finished_views(finished: Seq<(String, ResultSummary)>) -> Seq<
    (Seq<char>, ResultSummaryView),
> {
    Seq::new(finished.len(), |i: int| (finished[i].0@, finished[i].1@))
}

impl View for Queue {
    type V = QueueView;

    closed spec fn view(&self) -> QueueView {
        QueueView {
            waiting: job_views(self.waiting@),
            leased: lease_views(self.leased@),
            finished: finished_views(self.finished@),
        }
    }
}

/// Why a result report was rejected.
#[derive(Debug, Clone, Copy, PartialEq, Eq, Structural)]
pub enum ReportError {
    /// No such job is leased.
    UnknownJob,
    /// The job is leased by a different worker.
    NotLeaseHolder,
    /// The reporting worker speaks a different protocol version.
    ProtocolMismatch,
    /// The result is about another package than the leased job.
    PackageMismatch,
}

impl ReportError {
    /// What is said of a rejected report.
    pub open spec fn shown(self) -> Seq<char> {
        match self {
            ReportError::UnknownJob => "no such leased job"@,
            ReportError::NotLeaseHolder => "job is leased by another worker"@,
            ReportError::ProtocolMismatch => "unsupported protocol version"@,
            ReportError::PackageMismatch => "result package does not match leased job"@,
        }
    }

    /// What is said of a rejected report.
    pub fn to_string(&self) -> (shown: String)
        ensures
            shown@ == self.shown(),
    {
        match self {
            ReportError::UnknownJob => "no such leased job".to_owned(),
            ReportError::NotLeaseHolder => "job is leased by another worker".to_owned(),
            ReportError::ProtocolMismatch => "unsupported protocol version".to_owned(),
            ReportError::PackageMismatch => "result package does not match leased job".to_owned(),
        }
    }
}

// ---------------------------------------------------------------------------
// What each operation does
// ---------------------------------------------------------------------------

/// The leases that have not expired.
pub open spec fn live(leases: Seq<LeaseView>, now: u128) -> Seq<LeaseView>
    decreases leases.len(),
{
    if leases.len() == 0 {
        seq![]
    } else if leases.last().expires_at > now {
        live(leases.drop_last(), now).push(leases.last())
    } else {
        live(leases.drop_last(), now)
    }
}

/// The jobs of the leases that have expired, the last one first.
pub open spec fn reclaimed(leases: Seq<LeaseView>, now: u128) -> Seq<QueuedJobView>
    decreases leases.len(),
{
    if leases.len() == 0 {
        seq![]
    } else if leases.last().expires_at > now {
        reclaimed(leases.drop_last(), now)
    } else {
        seq![leases.last().job] + reclaimed(leases.drop_last(), now)
    }
}

/// How many jobs a worker that asks for `capacity` of them gets at most.
pub open spec fn clamped(capacity: u32) -> int {
    if capacity < 1 {
        1
    } else if capacity > MAX_LEASE_CAPACITY {
        MAX_LEASE_CAPACITY as int
    } else {
        capacity as int
    }
}

/// What a worker of a class is told of a job.
pub open spec fn offered(job: QueuedJobView, trust_class: TrustClass) -> JobSpecView {
    JobSpecView {
        protocol_version: PROTOCOL_VERSION,
        backend: Backend::Wasmtime,
        includes_hidden_tests: job.package_has_hidden_tests && trust_class == TrustClass::Trusted,
        ..job.spec
    }
}

/// The lease on a job that a worker holds from `now` on.
pub open spec fn lease_of(job: QueuedJobView, worker_id: Seq<char>, now: u128) -> LeaseView {
    LeaseView { job, worker_id, expires_at: (now + LEASE_NANOS) as u128 }
}

/// Where a job is leased first.
pub open spec fn lease_index(leases: Seq<LeaseView>, job_id: Seq<char>) -> int
    decreases leases.len(),
{
    if leases.len() == 0 || leases[0].job.spec.job_id == job_id {
        0
    } else {
        1 + lease_index(leases.drop_first(), job_id)
    }
}

/// Whether a job is leased.
pub open spec fn is_leased(leases: Seq<LeaseView>, job_id: Seq<char>) -> bool {
    exists|i: int| 0 <= i < leases.len() && #[trigger] leases[i].job.spec.job_id == job_id
}

/// The result recorded for a job, the first one where there are several.
pub open spec fn recorded(
    finished: Seq<(Seq<char>, ResultSummaryView)>,
    job_id: Seq<char>,
) -> Option<ResultSummaryView>
    decreases finished.len(),
{
    if finished.len() == 0 {
        None
    } else if finished[0].0 == job_id {
        Some(finished[0].1)
    } else {
        recorded(finished.drop_first(), job_id)
    }
}

impl QueueView {
    /// The queue after a job was submitted.
    pub open spec fn after_submit(self, job: QueuedJobView) -> QueueView {
        QueueView { waiting: self.waiting.push(job), ..self }
    }

    /// The queue once expired leases have been given up. A job that was leased
    /// comes back in front of the jobs that wait.
    pub open spec fn swept(self, now: u128) -> QueueView {
        QueueView {
            waiting: reclaimed(self.leased, now) + self.waiting,
            leased: live(self.leased, now),
            finished: self.finished,
        }
    }

    /// How many jobs a lease request gets.
    pub open spec fn lease_count(self, capacity: u32, now: u128) -> int {
        let waiting = self.swept(now).waiting.len() as int;
        if clamped(capacity) < waiting {
            clamped(capacity)
        } else {
            waiting
        }
    }

    /// The jobs a lease request gets, in their order.
    pub open spec fn next_jobs(self, capacity: u32, now: u128) -> Seq<QueuedJobView> {
        self.swept(now).waiting.take(self.lease_count(capacity, now))
    }

    /// The queue after a lease request.
    pub open spec fn after_lease(
        self,
        worker_id: Seq<char>,
        capacity: u32,
        now: u128,
    ) -> QueueView {
        QueueView {
            waiting: self.swept(now).waiting.skip(self.lease_count(capacity, now)),
            leased: self.swept(now).leased + self.next_jobs(capacity, now).map_values(
                |job: QueuedJobView| lease_of(job, worker_id, now),
            ),
            finished: self.finished,
        }
    }

    /// What comes of a report.
    pub open spec fn report_result(
        self,
        job_id: Seq<char>,
        summary: ResultSummaryView,
    ) -> Result<bool, ReportError> {
        if summary.protocol_version != PROTOCOL_VERSION {
            Err(ReportError::ProtocolMismatch)
        } else if !is_leased(self.leased, job_id) {
            if recorded(self.finished, job_id) is Some {
                Ok(false)
            } else {
                Err(ReportError::UnknownJob)
            }
        } else if self.leased[lease_index(self.leased, job_id)].worker_id != summary.worker_id {
            Err(ReportError::NotLeaseHolder)
        } else {
            Ok(true)
        }
    }

    /// The queue after a report.
    pub open spec fn after_report(
        self,
        job_id: Seq<char>,
        summary: ResultSummaryView,
    ) -> QueueView {
        if self.report_result(job_id, summary) == Ok::<bool, ReportError>(true) {
            QueueView {
                waiting: self.waiting,
                leased: self.leased.remove(lease_index(self.leased, job_id)),
                finished: self.finished.push((job_id, summary)),
            }
        } else {
            self
        }
    }
}

impl Default for Queue {
    fn default() -> (queue: Queue)
        ensures
            queue@ == QueueView::empty(),
    {
        Queue::new()
    }
}

impl Queue {
    /// An empty queue.
    pub fn new() -> (queue: Queue)
        ensures
            queue@ == QueueView::empty(),
    {
        Queue { waiting: VecDeque::new(), leased: Vec::new(), finished: Vec::new() }
    }

    /// Enqueue a job.
    pub fn submit(&mut self, job: QueuedJob)
        ensures
            final(self)@ == old(self)@.after_submit(job@),
    {
        self.waiting.push_back(job);
        assert(self@.waiting == old(self)@.waiting.push(job@));
    }

    /// Number of jobs waiting to be leased.
    pub fn depth(&self) -> (count: usize)
        ensures
            count == self@.waiting.len(),
    {
        self.waiting.len()
    }

    /// Number of jobs currently leased.
    pub fn in_flight(&self) -> (count: usize)
        ensures
            count == self@.leased.len(),
    {
        self.leased.len()
    }

    /// Number of jobs that have finished.
    pub fn finished_count(&self) -> (count: usize)
        ensures
            count == self@.finished.len(),
    {
        self.finished.len()
    }

    /// Results reported so far, in the order they were finalised.
    pub fn results(&self) -> (results: Vec<ResultSummary>)
        ensures
            summary_views(results@) == self@.finished.map_values(
                |entry: (Seq<char>, ResultSummaryView)| entry.1,
            ),
    {
        let ghost all = self@.finished.map_values(|entry: (Seq<char>, ResultSummaryView)| entry.1);
        let mut results: Vec<ResultSummary> = Vec::new();
        let mut i: usize = 0;
        while i < self.finished.len()
            invariant
                i <= self.finished@.len(),
                all == self@.finished.map_values(
                    |entry: (Seq<char>, ResultSummaryView)| entry.1,
                ),
                summary_views(results@) == all.take(i as int),
            decreases self.finished@.len() - i,
        {
            let ghost before = results@;
            let one = self.finished[i].1.clone();
            results.push(one);
            assert(summary_views(results@) == summary_views(before).push(one@));
            assert(all[i as int] == one@);
            i += 1;
        }
        assert(all.take(i as int) == all);
        results
    }

    /// The result recorded for `job_id`, if it has finished.
    pub fn result_for(&self, job_id: &str) -> (result: Option<ResultSummary>)
        ensures
            match result {
                Some(summary) => recorded(self@.finished, job_id@) == Some(summary@),
                None => recorded(self@.finished, job_id@) is None,
            },
    {
        let ghost all = self@.finished;
        let mut i: usize = 0;
        assert(all.skip(0) == all);
        while i < self.finished.len()
            invariant
                i <= self.finished@.len(),
                all == self@.finished,
                recorded(all.skip(i as int), job_id@) == recorded(all, job_id@),
            decreases self.finished@.len() - i,
        {
            assert(all.skip(i as int)[0] == all[i as int]);
            if same_text(self.finished[i].0.as_str(), job_id) {
                return Some(self.finished[i].1.clone());
            }
            assert(all.skip(i as int).drop_first() == all.skip(i + 1));
            i += 1;
        }
        None
    }

    /// Give up the leases that have expired: a worker that vanished mid-job must
    /// not strand the submission.
    fn sweep(&mut self, now: u128)
        ensures
            final(self)@ == old(self)@.swept(now),
    {
        let ghost all = self@.leased;
        let ghost before = self@.waiting;
        let ghost mut seen: int = 0;
        let mut i: usize = 0;
        assert(live(all.take(0), now) + all.skip(0) == all);
        assert(reclaimed(all.take(0), now) + before == before);
        while i < self.leased.len()
            invariant
                0 <= seen <= all.len(),
                i == live(all.take(seen), now).len(),
                self@.leased == live(all.take(seen), now) + all.skip(seen),
                self@.waiting == reclaimed(all.take(seen), now) + before,
                self@.finished == old(self)@.finished,
            decreases self.leased@.len() - i,
        {
            let ghost kept = live(all.take(seen), now);
            let ghost next = all.take(seen + 1);
            assert(self@.leased[i as int] == all[seen]);
            assert(self.leased@[i as int].said() == all[seen]);
            assert(next.drop_last() == all.take(seen));
            assert(next.last() == all[seen]);
            let ghost prior = self@;
            if self.leased[i].expires_at <= now {
                let lease = self.leased.remove(i);
                self.waiting.push_front(lease.job);
                assert(self@.leased == prior.leased.remove(i as int));
                assert(self@.leased == kept + all.skip(seen + 1));
                assert(self@.waiting == seq![lease.job@] + prior.waiting);
                assert(self@.waiting == reclaimed(next, now) + before);
            } else {
                assert(self@.leased == kept.push(all[seen]) + all.skip(seen + 1));
                i += 1;
            }
            proof {
                seen = seen + 1;
            }
        }
        assert(all.take(seen) == all);
        assert(self@.leased == live(all, now));
    }

    /// Lease up to `capacity` jobs for `worker_id`.
    ///
    /// The returned [`JobSpec`]s have `includes_hidden_tests` set from
    /// `trust_class`, never from the queue's own record. A non-trusted worker
    /// therefore cannot be told a package has hidden tests, and the worker's own
    /// [`JobSpec::validate`] refuses the job if it somehow is.
    pub fn lease(
        &mut self,
        worker_id: &str,
        trust_class: TrustClass,
        capacity: u32,
        now: u128,
    ) -> (jobs: Vec<JobSpec>)
        requires
            now + LEASE_NANOS <= u128::MAX,
        ensures
            spec_views(jobs@) == old(self)@.next_jobs(capacity, now).map_values(
                |job: QueuedJobView| offered(job, trust_class),
            ),
            final(self)@ == old(self)@.after_lease(worker_id@, capacity, now),
    {
        self.sweep(now);
        let ghost swept = self@;
        let ghost tell = |job: QueuedJobView| offered(job, trust_class);
        let ghost hold = |job: QueuedJobView| lease_of(job, worker_id@, now);

        let wanted: usize = if capacity < 1 {
            1
        } else if capacity > MAX_LEASE_CAPACITY {
            MAX_LEASE_CAPACITY as usize
        } else {
            capacity as usize
        };
        let take: usize = if wanted < self.waiting.len() { wanted } else { self.waiting.len() };
        let mut jobs: Vec<JobSpec> = Vec::new();
        let mut i: usize = 0;
        assert(swept.waiting.skip(0) == swept.waiting);
        assert(swept.leased + swept.waiting.take(0).map_values(hold) == swept.leased);
        while i < take
            invariant
                i <= take <= swept.waiting.len(),
                now + LEASE_NANOS <= u128::MAX,
                tell == (|job: QueuedJobView| offered(job, trust_class)),
                hold == (|job: QueuedJobView| lease_of(job, worker_id@, now)),
                self@.waiting == swept.waiting.skip(i as int),
                self@.leased == swept.leased + swept.waiting.take(i as int).map_values(hold),
                self@.finished == swept.finished,
                spec_views(jobs@) == swept.waiting.take(i as int).map_values(tell),
            decreases take - i,
        {
            let ghost prior = self@;
            let ghost told = jobs@;
            assert(prior.waiting.len() > 0);
            let popped = self.waiting.pop_front();
            let job = match popped {
                Some(job) => job,
                None => {
                    return jobs;
                },
            };
            assert(prior.waiting[0] == job@);
            assert(swept.waiting[i as int] == job@);
            let mut spec = job.spec.clone();
            spec.protocol_version = PROTOCOL_VERSION;
            spec.backend = Backend::Wasmtime;
            // The single place this decision is made.
            spec.includes_hidden_tests = job.package_has_hidden_tests
                && trust_class.may_receive_hidden_tests();
            assert(spec@ == offered(job@, trust_class));
            let lease = Lease {
                job,
                worker_id: copy_text(worker_id),
                expires_at: now + LEASE_NANOS,
            };
            let ghost made = lease.said();
            self.leased.push(lease);
            jobs.push(spec);
            proof {
                let done = swept.waiting.take(i as int);
                let next = swept.waiting.take(i + 1);
                assert(next == done.push(job@));
                assert(spec_views(jobs@) == spec_views(told).push(spec@));
                assert(next.map_values(tell) == done.map_values(tell).push(spec@));
                assert(self@.leased == prior.leased.push(made));
                assert(next.map_values(hold) == done.map_values(hold).push(made));
                assert(self@.waiting == prior.waiting.skip(1));
                assert(self@.waiting == swept.waiting.skip(i + 1));
            }
            i += 1;
        }
        jobs
    }

    /// Record the result for `job_id`.
    ///
    /// Idempotent: a second report for a job that already finished is a no-op
    /// that succeeds and returns `false`, so a worker retrying after a network
    /// blip cannot produce two verdicts.
    pub fn report_for(&mut self, job_id: &str, summary: ResultSummary) -> (result: Result<
        bool,
        ReportError,
    >)
        ensures
            result == old(self)@.report_result(job_id@, summary@),
            final(self)@ == old(self)@.after_report(job_id@, summary@),
    {
        if summary.protocol_version != PROTOCOL_VERSION {
            return Err(ReportError::ProtocolMismatch);
        }
        let index = self.find_lease(job_id);
        match index {
            None => {
                if self.result_for(job_id).is_some() {
                    return Ok(false);
                }
                Err(ReportError::UnknownJob)
            },
            Some(at) => {
                assert(self@.leased[at as int] == self.leased@[at as int].said());
                if !same_text(self.leased[at].worker_id.as_str(), summary.worker_id.as_str()) {
                    return Err(ReportError::NotLeaseHolder);
                }
                let ghost prior = self@;
                let ghost said = summary@;
                self.leased.remove(at);
                self.finished.push((copy_text(job_id), summary));
                assert(self@.leased == prior.leased.remove(at as int));
                assert(self@.finished == prior.finished.push((job_id@, said)));
                Ok(true)
            },
        }
    }

    fn find_lease(&self, job_id: &str) -> (index: Option<usize>)
        ensures
            match index {
                Some(at) => at < self@.leased.len() && at == lease_index(self@.leased, job_id@)
                    && is_leased(self@.leased, job_id@),
                None => !is_leased(self@.leased, job_id@),
            },
    {
        let ghost all = self@.leased;
        let mut i: usize = 0;
        assert(all.skip(0) == all);
        while i < self.leased.len()
            invariant
                i <= self.leased@.len(),
                all == self@.leased,
                lease_index(all, job_id@) == i + lease_index(all.skip(i as int), job_id@),
                forall|j: int| 0 <= j < i ==> #[trigger] all[j].job.spec.job_id != job_id@,
            decreases self.leased@.len() - i,
        {
            assert(all[i as int] == self.leased@[i as int].said());
            assert(all.skip(i as int)[0] == all[i as int]);
            if same_text(self.leased[i].job.spec.job_id.as_str(), job_id) {
                assert(all[i as int].job.spec.job_id == job_id@);
                return Some(i);
            }
            assert(all.skip(i as int).drop_first() == all.skip(i + 1));
            i += 1;
        }
        None
    }
}

// ---------------------------------------------------------------------------
// What the queue promises
// ---------------------------------------------------------------------------

/// The jobs that some leases are about.
pub open spec fn leased_jobs(leases: Seq<LeaseView>) -> Seq<QueuedJobView> {
    leases.map_values(|lease: LeaseView| lease.job)
}

impl QueueView {
    /// Every job that has not finished, waiting or leased.
    pub open spec fn open_jobs(self) -> Multiset<QueuedJobView> {
        self.waiting.to_multiset().add(leased_jobs(self.leased).to_multiset())
    }
}

proof fn lemma_sweep_keeps_jobs(leases: Seq<LeaseView>, now: u128)
    ensures
        reclaimed(leases, now).to_multiset().add(leased_jobs(live(leases, now)).to_multiset())
            == leased_jobs(leases).to_multiset(),
    decreases leases.len(),
{
    broadcast use vstd::seq_lib::group_to_multiset_ensures;

    if leases.len() > 0 {
        let init = leases.drop_last();
        let last = leases.last();
        lemma_sweep_keeps_jobs(init, now);
        assert(leased_jobs(leases) == leased_jobs(init).push(last.job));
        if last.expires_at > now {
            assert(leased_jobs(live(leases, now)) == leased_jobs(live(init, now)).push(last.job));
            assert(reclaimed(leases, now).to_multiset().add(
                leased_jobs(live(leases, now)).to_multiset(),
            ) == leased_jobs(leases).to_multiset());
        } else {
            let one = seq![last.job];
            assert(one == Seq::<QueuedJobView>::empty().push(last.job));
            vstd::seq_lib::lemma_multiset_commutative(one, reclaimed(init, now));
            assert(one.to_multiset() == Multiset::<QueuedJobView>::empty().insert(last.job));
            assert(reclaimed(leases, now).to_multiset().add(
                leased_jobs(live(leases, now)).to_multiset(),
            ) == leased_jobs(leases).to_multiset());
        }
    } else {
        assert(leased_jobs(leases) == Seq::<QueuedJobView>::empty());
        assert(leased_jobs(live(leases, now)) == Seq::<QueuedJobView>::empty());
        assert(reclaimed(leases, now).to_multiset().add(
            leased_jobs(live(leases, now)).to_multiset(),
        ) == leased_jobs(leases).to_multiset());
    }
}

/// Leasing loses no job and makes none up: whatever expires and whoever asks,
/// the jobs that wait or are leased are the same ones, each as often as before.
pub proof fn leasing_conserves_jobs(
    queue: QueueView,
    worker_id: Seq<char>,
    capacity: u32,
    now: u128,
)
    ensures
        queue.after_lease(worker_id, capacity, now).open_jobs() == queue.open_jobs(),
{
    broadcast use vstd::seq_lib::group_to_multiset_ensures;

    let swept = queue.swept(now);
    let after = queue.after_lease(worker_id, capacity, now);
    let n = queue.lease_count(capacity, now);
    let taken = swept.waiting.take(n);
    let hold = |job: QueuedJobView| lease_of(job, worker_id, now);
    lemma_sweep_keeps_jobs(queue.leased, now);
    vstd::seq_lib::lemma_multiset_commutative(reclaimed(queue.leased, now), queue.waiting);
    vstd::seq_lib::lemma_multiset_commutative(taken, swept.waiting.skip(n));
    assert(taken + swept.waiting.skip(n) == swept.waiting);
    assert(leased_jobs(after.leased) == leased_jobs(swept.leased) + taken);
    vstd::seq_lib::lemma_multiset_commutative(leased_jobs(swept.leased), taken);
    let back = reclaimed(queue.leased, now).to_multiset();
    let held = leased_jobs(swept.leased).to_multiset();
    let rest = swept.waiting.skip(n).to_multiset();
    let new = taken.to_multiset();
    assert(leased_jobs(queue.leased).to_multiset() == back.add(held));
    assert(swept.waiting.to_multiset() == back.add(queue.waiting.to_multiset()));
    assert(swept.waiting.to_multiset() == new.add(rest));
    assert(leased_jobs(after.leased).to_multiset() == held.add(new));
    assert(rest.add(held.add(new)) == new.add(rest).add(held));
    assert(queue.waiting.to_multiset().add(back.add(held)) == back.add(
        queue.waiting.to_multiset(),
    ).add(held));
}

/// Submitting a job adds that job and nothing else, behind those that wait.
pub proof fn submitting_adds_one_job(queue: QueueView, job: QueuedJobView)
    ensures
        queue.after_submit(job).open_jobs() == queue.open_jobs().insert(job),
        queue.after_submit(job).leased == queue.leased,
        queue.after_submit(job).finished == queue.finished,
{
    broadcast use vstd::seq_lib::group_to_multiset_ensures;

    let waiting = queue.waiting.to_multiset();
    let leased = leased_jobs(queue.leased).to_multiset();
    assert(waiting.insert(job).add(leased) == waiting.add(leased).insert(job));
}

/// A report that finalises a job moves one job of that id from leased to
/// finished, and every other job stays what it was: what was open is that job
/// and what is still open, and the report is recorded behind the earlier ones.
pub proof fn reporting_finishes_one_job(
    queue: QueueView,
    job_id: Seq<char>,
    summary: ResultSummaryView,
)
    requires
        queue.report_result(job_id, summary) == Ok::<bool, ReportError>(true),
    ensures
        exists|job: QueuedJobView|
            {
                &&& job.spec.job_id == job_id
                &&& leased_jobs(queue.leased).contains(job)
                &&& queue.open_jobs() == #[trigger] queue.after_report(
                    job_id,
                    summary,
                ).open_jobs().insert(job)
            },
        queue.after_report(job_id, summary).waiting == queue.waiting,
        queue.after_report(job_id, summary).finished == queue.finished.push((job_id, summary)),
{
    broadcast use vstd::seq_lib::group_to_multiset_ensures;

    let at = lease_index(queue.leased, job_id);
    lemma_lease_index(queue.leased, job_id);
    let before = leased_jobs(queue.leased);
    let after = queue.after_report(job_id, summary);
    let job = queue.leased[at].job;
    assert(before[at] == job);
    assert(leased_jobs(after.leased) == before.remove(at));
    assert(before.remove(at).insert(at, job) == before);
    assert(before.to_multiset() == before.remove(at).to_multiset().insert(job));
    assert(queue.open_jobs() == after.open_jobs().insert(job));
}

/// Something that is asked of a queue.
#[verifier::ext_equal]
pub enum QueueCallView {
    Submit { job: QueuedJobView },
    Lease { worker_id: Seq<char>, capacity: u32, now: u128 },
    Report { job_id: Seq<char>, summary: ResultSummaryView },
}

impl QueueView {
    /// A queue that nothing has been asked of.
    pub open spec fn empty() -> QueueView {
        QueueView { waiting: seq![], leased: seq![], finished: seq![] }
    }

    /// The queue after something was asked of it.
    pub open spec fn after_call(self, call: QueueCallView) -> QueueView {
        match call {
            QueueCallView::Submit { job } => self.after_submit(job),
            QueueCallView::Lease { worker_id, capacity, now } => self.after_lease(
                worker_id,
                capacity,
                now,
            ),
            QueueCallView::Report { job_id, summary } => self.after_report(job_id, summary),
        }
    }

    /// The queue after several things were asked of it, one after another.
    pub open spec fn after_calls(self, calls: Seq<QueueCallView>) -> QueueView
        decreases calls.len(),
    {
        if calls.len() == 0 {
            self
        } else {
            self.after_calls(calls.drop_last()).after_call(calls.last())
        }
    }

    /// How many jobs of an id have not finished.
    pub open spec fn open_count(self, job_id: Seq<char>) -> nat {
        self.open_jobs().filter(|job: QueuedJobView| job.spec.job_id == job_id).len()
    }

    /// How many jobs of an id have finished.
    pub open spec fn finished_with_id(self, job_id: Seq<char>) -> nat {
        self.finished.filter(
            |entry: (Seq<char>, ResultSummaryView)| entry.0 == job_id,
        ).len()
    }
}

/// The jobs that were submitted, in their order.
pub open spec fn submissions(calls: Seq<QueueCallView>) -> Seq<QueuedJobView>
    decreases calls.len(),
{
    if calls.len() == 0 {
        Seq::empty()
    } else {
        let before = submissions(calls.drop_last());
        match calls.last() {
            QueueCallView::Submit { job } => before.push(job),
            _ => before,
        }
    }
}

/// How many jobs of an id there are.
pub open spec fn count_of(jobs: Seq<QueuedJobView>, job_id: Seq<char>) -> nat {
    jobs.filter(|job: QueuedJobView| job.spec.job_id == job_id).len()
}

proof fn lemma_open_len(queue: QueueView)
    ensures
        queue.open_jobs().len() == queue.waiting.len() + queue.leased.len(),
{
    broadcast use vstd::seq_lib::group_to_multiset_ensures;

}

proof fn lemma_open_insert(jobs: Multiset<QueuedJobView>, job: QueuedJobView, job_id: Seq<char>)
    ensures
        jobs.insert(job).filter(|job: QueuedJobView| job.spec.job_id == job_id).len()
            == jobs.filter(|job: QueuedJobView| job.spec.job_id == job_id).len() + (
        if job.spec.job_id == job_id {
            1nat
        } else {
            0
        }),
{
    let of_id = |job: QueuedJobView| job.spec.job_id == job_id;
    if of_id(job) {
        assert(jobs.insert(job).filter(of_id) =~= jobs.filter(of_id).insert(job));
    } else {
        assert(jobs.insert(job).filter(of_id) =~= jobs.filter(of_id));
    }
}

/// No job is lost, made up or stranded, whatever is asked of a queue and however
/// leases expire in between: each job that was submitted waits, is leased or has
/// finished, so that these add up to what was submitted, in all and for every id.
pub proof fn every_job_is_accounted_for(calls: Seq<QueueCallView>, job_id: Seq<char>)
    ensures
        ({
            let queue = QueueView::empty().after_calls(calls);
            &&& queue.waiting.len() + queue.leased.len() + queue.finished.len() == submissions(
                calls,
            ).len()
            &&& queue.open_count(job_id) + queue.finished_with_id(job_id) == count_of(
                submissions(calls),
                job_id,
            )
        }),
    decreases calls.len(),
{
    broadcast use vstd::seq_lib::group_to_multiset_ensures;

    let queue = QueueView::empty().after_calls(calls);
    let of_id = |job: QueuedJobView| job.spec.job_id == job_id;
    let finished_of_id = |entry: (Seq<char>, ResultSummaryView)| entry.0 == job_id;
    lemma_open_len(queue);
    if calls.len() == 0 {
        assert(leased_jobs(queue.leased) == Seq::<QueuedJobView>::empty());
        assert(queue.open_jobs().filter(of_id) =~= Multiset::empty());
        assert(queue.finished.filter(finished_of_id).len() == 0) by {
            reveal(Seq::filter);
        }
        assert(submissions(calls).filter(of_id).len() == 0) by {
            reveal(Seq::filter);
        }
    } else {
        let earlier = calls.drop_last();
        let before = QueueView::empty().after_calls(earlier);
        every_job_is_accounted_for(earlier, job_id);
        lemma_open_len(before);
        match calls.last() {
            QueueCallView::Submit { job } => {
                submitting_adds_one_job(before, job);
                lemma_open_insert(before.open_jobs(), job, job_id);
                assert(submissions(calls).drop_last() == submissions(earlier));
                reveal(Seq::filter);
            },
            QueueCallView::Lease { worker_id, capacity, now } => {
                leasing_conserves_jobs(before, worker_id, capacity, now);
            },
            QueueCallView::Report { job_id: reported, summary } => {
                if before.report_result(reported, summary) == Ok::<bool, ReportError>(true) {
                    reporting_finishes_one_job(before, reported, summary);
                    let job = choose|job: QueuedJobView|
                        {
                            &&& job.spec.job_id == reported
                            &&& leased_jobs(before.leased).contains(job)
                            &&& before.open_jobs() == #[trigger] queue.open_jobs().insert(job)
                        };
                    lemma_open_insert(queue.open_jobs(), job, job_id);
                    assert(queue.finished.drop_last() == before.finished);
                    reveal(Seq::filter);
                }
            },
        }
    }
}

/// A job with hidden tests is offered as such to trusted workers alone, and a
/// worker has no reason to refuse what it is offered but for missing bounds.
pub proof fn offers_respect_trust(job: QueuedJobView, trust_class: TrustClass)
    ensures
        offered(job, trust_class).includes_hidden_tests ==> trust_class == TrustClass::Trusted,
        offered(job, trust_class).includes_hidden_tests ==> job.package_has_hidden_tests,
        offered(job, trust_class).refusal(trust_class) is None <==> job.spec.limits.bounded(),
        offered(job, trust_class).job_id == job.spec.job_id,
{
}

/// What a worker that is not trusted is offered does not depend on whether the
/// package has hidden tests, nor on what the queue's own record says of them.
pub proof fn offers_reveal_nothing_hidden(a: QueuedJobView, b: QueuedJobView, trust_class: TrustClass)
    requires
        trust_class != TrustClass::Trusted,
        (JobSpecView { includes_hidden_tests: b.spec.includes_hidden_tests, ..a.spec }) == b.spec,
    ensures
        offered(a, trust_class) == offered(b, trust_class),
{
}

/// While no lease has expired, jobs are leased in the order in which they were
/// submitted.
pub proof fn jobs_are_leased_first_come_first_served(
    queue: QueueView,
    worker_id: Seq<char>,
    capacity: u32,
    now: u128,
)
    requires
        forall|i: int| 0 <= i < queue.leased.len() ==> #[trigger] queue.leased[i].expires_at > now,
    ensures
        queue.next_jobs(capacity, now) + queue.after_lease(worker_id, capacity, now).waiting
            == queue.waiting,
        queue.after_lease(worker_id, capacity, now).leased.take(queue.leased.len() as int)
            == queue.leased,
{
    lemma_all_live(queue.leased, now);
    assert(queue.swept(now).waiting == queue.waiting);
}

proof fn lemma_all_live(leases: Seq<LeaseView>, now: u128)
    requires
        forall|i: int| 0 <= i < leases.len() ==> #[trigger] leases[i].expires_at > now,
    ensures
        live(leases, now) == leases,
        reclaimed(leases, now) == Seq::<QueuedJobView>::empty(),
    decreases leases.len(),
{
    if leases.len() > 0 {
        let init = leases.drop_last();
        assert forall|i: int| 0 <= i < init.len() implies #[trigger] init[i].expires_at > now by {
            assert(init[i] == leases[i]);
        }
        lemma_all_live(init, now);
        assert(leases[leases.len() - 1].expires_at > now);
        assert(init.push(leases.last()) == leases);
    }
}

/// A lease request is never answered with nothing while a job waits, and never
/// with more jobs than a worker may hold at once.
pub proof fn leases_make_progress(queue: QueueView, capacity: u32, now: u128)
    ensures
        queue.next_jobs(capacity, now).len() <= MAX_LEASE_CAPACITY,
        queue.next_jobs(capacity, now).len() == 0 <==> queue.swept(now).waiting.len() == 0,
        queue.waiting.len() > 0 ==> queue.next_jobs(capacity, now).len() > 0,
{
}

/// A lease runs out once it is as old as leases get, and not before.
pub proof fn leases_run_out_in_time(
    job: QueuedJobView,
    worker_id: Seq<char>,
    leased: u128,
    now: u128,
)
    requires
        leased + LEASE_NANOS <= u128::MAX,
    ensures
        lease_of(job, worker_id, leased).expires_at <= now <==> now - leased >= LEASE_NANOS,
{
}

/// A worker that vanishes does not strand its job: once the lease has run out,
/// the job comes back ahead of those that wait, and the next request for enough
/// jobs gets it again.
pub proof fn expired_jobs_are_leased_again(queue: QueueView, i: int, now: u128)
    requires
        0 <= i < queue.leased.len(),
        queue.leased[i].expires_at <= now,
    ensures
        reclaimed(queue.leased, now).contains(queue.leased[i].job),
        queue.swept(now).waiting == reclaimed(queue.leased, now) + queue.waiting,
        forall|capacity: u32|
            reclaimed(queue.leased, now).len() <= clamped(capacity)
                ==> #[trigger] queue.next_jobs(capacity, now).contains(queue.leased[i].job),
        forall|j: int|
            0 <= j < live(queue.leased, now).len() ==> #[trigger] live(queue.leased, now)[j].expires_at
                > now,
{
    lemma_live(queue.leased, now);
    lemma_reclaimed_has(queue.leased, i, now);
    let at = choose|at: int|
        0 <= at < reclaimed(queue.leased, now).len() && reclaimed(queue.leased, now)[at]
            == queue.leased[i].job;
    assert(queue.swept(now).waiting[at] == queue.leased[i].job);
    assert forall|capacity: u32|
        reclaimed(queue.leased, now).len() <= clamped(
            capacity,
        ) implies #[trigger] queue.next_jobs(capacity, now).contains(queue.leased[i].job) by {
        assert(queue.next_jobs(capacity, now)[at] == queue.leased[i].job);
    }
}

proof fn lemma_live(leases: Seq<LeaseView>, now: u128)
    ensures
        forall|j: int|
            0 <= j < live(leases, now).len() ==> #[trigger] live(leases, now)[j].expires_at > now,
    decreases leases.len(),
{
    if leases.len() > 0 {
        lemma_live(leases.drop_last(), now);
    }
}

proof fn lemma_reclaimed_has(leases: Seq<LeaseView>, i: int, now: u128)
    requires
        0 <= i < leases.len(),
        leases[i].expires_at <= now,
    ensures
        exists|at: int|
            0 <= at < reclaimed(leases, now).len() && #[trigger] reclaimed(leases, now)[at]
                == leases[i].job,
    decreases leases.len(),
{
    let init = leases.drop_last();
    let rest = reclaimed(init, now);
    if i == leases.len() - 1 {
        assert(reclaimed(leases, now)[0] == leases[i].job);
    } else {
        assert(init[i] == leases[i]);
        lemma_reclaimed_has(init, i, now);
        let at = choose|at: int| 0 <= at < rest.len() && #[trigger] rest[at] == leases[i].job;
        if leases.last().expires_at > now {
            assert(reclaimed(leases, now)[at] == leases[i].job);
        } else {
            assert(reclaimed(leases, now)[at + 1] == rest[at]);
        }
    }
}

proof fn lemma_lease_index(leases: Seq<LeaseView>, job_id: Seq<char>)
    requires
        is_leased(leases, job_id),
    ensures
        0 <= lease_index(leases, job_id) < leases.len(),
        leases[lease_index(leases, job_id)].job.spec.job_id == job_id,
    decreases leases.len(),
{
    if leases[0].job.spec.job_id != job_id {
        let rest = leases.drop_first();
        let i = choose|i: int|
            0 <= i < leases.len() && #[trigger] leases[i].job.spec.job_id == job_id;
        assert(rest[i - 1] == leases[i]);
        lemma_lease_index(rest, job_id);
        assert(rest[lease_index(rest, job_id)] == leases[lease_index(leases, job_id)]);
    }
}

proof fn lemma_recorded_push(
    finished: Seq<(Seq<char>, ResultSummaryView)>,
    entry: (Seq<char>, ResultSummaryView),
    job_id: Seq<char>,
)
    ensures
        recorded(finished.push(entry), job_id) == if recorded(finished, job_id) is Some {
            recorded(finished, job_id)
        } else if entry.0 == job_id {
            Some(entry.1)
        } else {
            None
        },
    decreases finished.len(),
{
    let longer = finished.push(entry);
    if finished.len() > 0 {
        assert(longer[0] == finished[0]);
        assert(longer.drop_first() == finished.drop_first().push(entry));
        if finished[0].0 != job_id {
            lemma_recorded_push(finished.drop_first(), entry, job_id);
        }
    } else {
        assert(longer.drop_first() == Seq::<(Seq<char>, ResultSummaryView)>::empty());
        assert(longer[0] == entry);
        assert(recorded(longer.drop_first(), job_id) is None);
    }
}

/// Whether a job is leased once.
pub open spec fn leased_once(leases: Seq<LeaseView>, job_id: Seq<char>) -> bool {
    forall|i: int, j: int|
        0 <= i < j < leases.len() ==> !(#[trigger] leases[i].job.spec.job_id == job_id
            && #[trigger] leases[j].job.spec.job_id == job_id)
}

/// Reporting twice is the same as reporting once: where a report finalises a
/// job that was leased once, any further report by a worker that speaks the
/// protocol succeeds, says that it changed nothing, and changes nothing.
pub proof fn reporting_twice_changes_nothing(
    queue: QueueView,
    job_id: Seq<char>,
    summary: ResultSummaryView,
    again: ResultSummaryView,
)
    requires
        queue.report_result(job_id, summary) == Ok::<bool, ReportError>(true),
        leased_once(queue.leased, job_id),
        again.protocol_version == PROTOCOL_VERSION,
    ensures
        queue.after_report(job_id, summary).report_result(job_id, again) == Ok::<bool, ReportError>(
            false,
        ),
        queue.after_report(job_id, summary).after_report(job_id, again) == queue.after_report(
            job_id,
            summary,
        ),
{
    let at = lease_index(queue.leased, job_id);
    let after = queue.after_report(job_id, summary);
    lemma_lease_index(queue.leased, job_id);
    lemma_recorded_push(queue.finished, (job_id, summary), job_id);
    assert forall|i: int| 0 <= i < after.leased.len() implies #[trigger] after.leased[i].job.spec.job_id
        != job_id by {
        let from = if i < at { i } else { i + 1 };
        assert(after.leased[i] == queue.leased[from]);
        assert(queue.leased[at].job.spec.job_id == job_id);
    }
    assert(!is_leased(after.leased, job_id));
}

/// Only the worker that holds the lease finalises a job, and what it reports is
/// what is recorded; a result that is recorded already is never replaced.
pub proof fn only_the_lease_holder_finalises(
    queue: QueueView,
    job_id: Seq<char>,
    summary: ResultSummaryView,
)
    ensures
        queue.report_result(job_id, summary) == Ok::<bool, ReportError>(true) ==> {
            &&& exists|i: int|
                0 <= i < queue.leased.len() && #[trigger] queue.leased[i].job.spec.job_id == job_id
                    && queue.leased[i].worker_id == summary.worker_id
            &&& recorded(queue.after_report(job_id, summary).finished, job_id) is Some
            &&& recorded(queue.finished, job_id) is None ==> recorded(
                queue.after_report(job_id, summary).finished,
                job_id,
            ) == Some(summary)
        },
        forall|other: Seq<char>|
            #![trigger recorded(queue.finished, other)]
            recorded(queue.finished, other) is Some ==> recorded(
                queue.after_report(job_id, summary).finished,
                other,
            ) == recorded(queue.finished, other),
{
    if queue.report_result(job_id, summary) == Ok::<bool, ReportError>(true) {
        lemma_lease_index(queue.leased, job_id);
        let at = lease_index(queue.leased, job_id);
        assert(queue.leased[at].job.spec.job_id == job_id);
        lemma_recorded_push(queue.finished, (job_id, summary), job_id);
    }
    assert forall|other: Seq<char>|
        #![trigger recorded(queue.finished, other)]
        recorded(queue.finished, other) is Some implies recorded(
        queue.after_report(job_id, summary).finished,
        other,
    ) == recorded(queue.finished, other) by {
        lemma_recorded_push(queue.finished, (job_id, summary), other);
    }
}

/// A report that is not accepted leaves the queue as it was.
pub proof fn refused_reports_change_nothing(
    queue: QueueView,
    job_id: Seq<char>,
    summary: ResultSummaryView,
)
    requires
        queue.report_result(job_id, summary) != Ok::<bool, ReportError>(true),
    ensures
        queue.after_report(job_id, summary) == queue,
{
}

// ---------------------------------------------------------------------------
// What each operation comes to, in full
// ---------------------------------------------------------------------------

/// What a worker is offered is the job that was submitted: the same job, source,
/// package, version, environment and limits. Only the protocol and the backend
/// are the broker's own, and hidden tests are those of the package, for a trusted
/// worker alone.
pub proof fn offers_are_of_the_job_that_was_submitted(job: QueuedJobView, trust_class: TrustClass)
    ensures
        ({
            let offer = offered(job, trust_class);
            &&& offer.job_id == job.spec.job_id
            &&& offer.source_cid == job.spec.source_cid
            &&& offer.trial_package_cid == job.spec.trial_package_cid
            &&& offer.trial_version == job.spec.trial_version
            &&& offer.environment_id == job.spec.environment_id
            &&& offer.limits == job.spec.limits
            &&& offer.protocol_version == 1
            &&& offer.backend == Backend::Wasmtime
            &&& offer.includes_hidden_tests <==> job.package_has_hidden_tests && trust_class
                == TrustClass::Trusted
        }),
{
}

/// A worker gets as many jobs as it asks for, but at least one and at most
/// thirty-two, and no more than there are: those that have waited longest, and
/// they no longer wait.
pub proof fn how_many_jobs_a_worker_gets(
    queue: QueueView,
    worker_id: Seq<char>,
    capacity: u32,
    now: u128,
)
    ensures
        ({
            let waiting = queue.swept(now).waiting;
            let given = queue.next_jobs(capacity, now);
            let after = queue.after_lease(worker_id, capacity, now);
            let most = if capacity == 0 {
                1int
            } else if capacity > 32 {
                32
            } else {
                capacity as int
            };
            &&& given.len() == if most < waiting.len() {
                most
            } else {
                waiting.len() as int
            }
            &&& forall|i: int| 0 <= i < given.len() ==> #[trigger] given[i] == waiting[i]
            &&& after.waiting.len() == waiting.len() - given.len()
            &&& forall|i: int|
                0 <= i < after.waiting.len() ==> #[trigger] after.waiting[i] == waiting[i
                    + given.len()]
            &&& after.finished == queue.finished
        }),
{
}

/// What a worker got it holds, in its own name and for two minutes, behind the
/// leases that still run; and those stay what they were.
pub proof fn what_a_worker_gets_it_holds(
    queue: QueueView,
    worker_id: Seq<char>,
    capacity: u32,
    now: u128,
)
    requires
        now + 120_000_000_000 <= u128::MAX,
    ensures
        ({
            let running = queue.leased.filter(|lease: LeaseView| lease.expires_at > now);
            let given = queue.next_jobs(capacity, now);
            let after = queue.after_lease(worker_id, capacity, now);
            &&& after.leased.len() == running.len() + given.len()
            &&& forall|i: int| 0 <= i < running.len() ==> #[trigger] after.leased[i] == running[i]
            &&& forall|i: int|
                0 <= i < given.len() ==> {
                    let lease = #[trigger] after.leased[running.len() + i];
                    &&& lease.job == given[i]
                    &&& lease.worker_id == worker_id
                    &&& lease.expires_at == now + 120_000_000_000
                }
        }),
{
    lemma_live_filter(queue.leased, now);
}

proof fn lemma_live_filter(leases: Seq<LeaseView>, now: u128)
    ensures
        live(leases, now) == leases.filter(|lease: LeaseView| lease.expires_at > now),
    decreases leases.len(),
{
    reveal(Seq::filter);
    if leases.len() > 0 {
        lemma_live_filter(leases.drop_last(), now);
    }
}

/// Before anything is leased, the jobs whose leases have run out come back, the
/// one leased last in front, and ahead of every job that waits; no other lease is
/// touched, and nothing that has finished.
pub proof fn what_has_run_out_comes_back(queue: QueueView, now: u128)
    ensures
        ({
            let over = queue.leased.filter(|lease: LeaseView| !(lease.expires_at > now));
            let swept = queue.swept(now);
            &&& swept.waiting.len() == over.len() + queue.waiting.len()
            &&& forall|i: int|
                0 <= i < over.len() ==> #[trigger] swept.waiting[i] == over[over.len() - 1 - i].job
            &&& forall|i: int|
                0 <= i < queue.waiting.len() ==> #[trigger] swept.waiting[over.len() + i]
                    == queue.waiting[i]
            &&& swept.leased == queue.leased.filter(|lease: LeaseView| lease.expires_at > now)
            &&& swept.finished == queue.finished
        }),
{
    lemma_live_filter(queue.leased, now);
    lemma_reclaimed_filter(queue.leased, now);
}

proof fn lemma_reclaimed_filter(leases: Seq<LeaseView>, now: u128)
    ensures
        ({
            let over = leases.filter(|lease: LeaseView| !(lease.expires_at > now));
            &&& reclaimed(leases, now).len() == over.len()
            &&& forall|i: int|
                0 <= i < over.len() ==> #[trigger] reclaimed(leases, now)[i] == over[over.len() - 1
                    - i].job
        }),
    decreases leases.len(),
{
    reveal(Seq::filter);
    if leases.len() > 0 {
        lemma_reclaimed_filter(leases.drop_last(), now);
    }
}

/// Whether the `i`-th lease is the first on a job.
pub open spec fn first_lease_on(leases: Seq<LeaseView>, job_id: Seq<char>, i: int) -> bool {
    &&& 0 <= i < leases.len()
    &&& leases[i].job.spec.job_id == job_id
    &&& forall|j: int| 0 <= j < i ==> #[trigger] leases[j].job.spec.job_id != job_id
}

proof fn lemma_first_lease(leases: Seq<LeaseView>, job_id: Seq<char>, i: int)
    requires
        first_lease_on(leases, job_id, i),
    ensures
        lease_index(leases, job_id) == i,
        is_leased(leases, job_id),
    decreases leases.len(),
{
    assert(leases[i].job.spec.job_id == job_id);
    if i > 0 {
        let rest = leases.drop_first();
        assert(leases[0].job.spec.job_id != job_id);
        assert forall|j: int| 0 <= j < i - 1 implies #[trigger] rest[j].job.spec.job_id != job_id by {
            assert(rest[j] == leases[j + 1]);
        }
        lemma_first_lease(rest, job_id, i - 1);
    }
}

/// What becomes of a report on a job that is leased: one in another protocol is
/// turned away, and so is one by a worker that does not hold the lease; the
/// holder's is recorded, behind the earlier ones, and its lease is gone, and no
/// other.
pub proof fn reports_on_leased_jobs(
    queue: QueueView,
    job_id: Seq<char>,
    summary: ResultSummaryView,
    i: int,
)
    requires
        first_lease_on(queue.leased, job_id, i),
    ensures
        ({
            let result = queue.report_result(job_id, summary);
            let after = queue.after_report(job_id, summary);
            let spoken = summary.protocol_version == 1;
            let holder = queue.leased[i].worker_id == summary.worker_id;
            &&& !spoken ==> result == Err::<bool, ReportError>(ReportError::ProtocolMismatch)
            &&& spoken && !holder ==> result == Err::<bool, ReportError>(
                ReportError::NotLeaseHolder,
            )
            &&& spoken && holder ==> {
                &&& result == Ok::<bool, ReportError>(true)
                &&& after.waiting == queue.waiting
                &&& after.finished == queue.finished.push((job_id, summary))
                &&& after.leased.len() == queue.leased.len() - 1
                &&& forall|j: int| 0 <= j < i ==> #[trigger] after.leased[j] == queue.leased[j]
                &&& forall|j: int|
                    i <= j < after.leased.len() ==> #[trigger] after.leased[j] == queue.leased[j
                        + 1]
            }
            &&& !(spoken && holder) ==> after == queue
        }),
{
    lemma_first_lease(queue.leased, job_id, i);
}

/// What becomes of a report on a job that is not leased: one that has finished is
/// a duplicate, which changes nothing, and any other is unknown.
pub proof fn reports_on_other_jobs(
    queue: QueueView,
    job_id: Seq<char>,
    summary: ResultSummaryView,
)
    requires
        forall|i: int|
            0 <= i < queue.leased.len() ==> #[trigger] queue.leased[i].job.spec.job_id != job_id,
    ensures
        ({
            let result = queue.report_result(job_id, summary);
            let known = exists|i: int|
                0 <= i < queue.finished.len() && (#[trigger] queue.finished[i]).0 == job_id;
            &&& summary.protocol_version != 1 ==> result == Err::<bool, ReportError>(
                ReportError::ProtocolMismatch,
            )
            &&& summary.protocol_version == 1 && known ==> result == Ok::<bool, ReportError>(false)
            &&& summary.protocol_version == 1 && !known ==> result == Err::<bool, ReportError>(
                ReportError::UnknownJob,
            )
            &&& queue.after_report(job_id, summary) == queue
        }),
{
    lemma_recorded(queue.finished, job_id);
}

proof fn lemma_recorded(finished: Seq<(Seq<char>, ResultSummaryView)>, job_id: Seq<char>)
    ensures
        recorded(finished, job_id) is Some <==> exists|i: int|
            0 <= i < finished.len() && (#[trigger] finished[i]).0 == job_id,
        recorded(finished, job_id) matches Some(summary) ==> exists|i: int|
            {
                &&& 0 <= i < finished.len()
                &&& #[trigger] finished[i] == (job_id, summary)
                &&& forall|j: int| 0 <= j < i ==> (#[trigger] finished[j]).0 != job_id
            },
    decreases finished.len(),
{
    if finished.len() > 0 {
        let rest = finished.drop_first();
        lemma_recorded(rest, job_id);
        if finished[0].0 == job_id {
            assert(finished[0] == (job_id, finished[0].1));
        } else {
            if let Some(summary) = recorded(rest, job_id) {
                let i = choose|i: int|
                    {
                        &&& 0 <= i < rest.len()
                        &&& #[trigger] rest[i] == (job_id, summary)
                        &&& forall|j: int| 0 <= j < i ==> (#[trigger] rest[j]).0 != job_id
                    };
                assert(finished[i + 1] == (job_id, summary));
                assert forall|j: int| 0 <= j < i + 1 implies (#[trigger] finished[j]).0 != job_id by {
                    if j > 0 {
                        assert(rest[j - 1] == finished[j]);
                    }
                }
            }
            if exists|i: int| 0 <= i < finished.len() && (#[trigger] finished[i]).0 == job_id {
                let i = choose|i: int|
                    0 <= i < finished.len() && (#[trigger] finished[i]).0 == job_id;
                assert(rest[i - 1] == finished[i]);
            }
        }
    }
}

/// The result of a job is what was recorded for it first, and a job that nothing
/// was recorded for has none.
pub proof fn the_first_result_counts(
    finished: Seq<(Seq<char>, ResultSummaryView)>,
    job_id: Seq<char>,
)
    ensures
        recorded(finished, job_id) is Some <==> exists|i: int|
            0 <= i < finished.len() && (#[trigger] finished[i]).0 == job_id,
        recorded(finished, job_id) matches Some(summary) ==> exists|i: int|
            {
                &&& 0 <= i < finished.len()
                &&& #[trigger] finished[i] == (job_id, summary)
                &&& forall|j: int| 0 <= j < i ==> (#[trigger] finished[j]).0 != job_id
            },
{
    lemma_recorded(finished, job_id);
}

/// What is said of a rejected report says why.
pub proof fn rejected_reports_are_told_why(error: ReportError)
    ensures
        error == ReportError::UnknownJob ==> error.shown() == "no such leased job"@,
        error == ReportError::NotLeaseHolder ==> error.shown()
            == "job is leased by another worker"@,
        error == ReportError::ProtocolMismatch ==> error.shown() == "unsupported protocol version"@,
        error == ReportError::PackageMismatch ==> error.shown()
            == "result package does not match leased job"@,
{
}

/// A queued job says what it holds.
pub proof fn queued_jobs_say_what_they_hold(job: QueuedJob)
    ensures
        job@.spec == job.spec@,
        job@.package_has_hidden_tests == job.package_has_hidden_tests,
{
}

/// Lists of jobs, specifications and summaries say what each entry says, in the
/// same order.
pub proof fn lists_of_records_say_what_they_hold(
    jobs: Seq<QueuedJob>,
    specs: Seq<JobSpec>,
    summaries: Seq<ResultSummary>,
)
    ensures
        job_views(jobs).len() == jobs.len(),
        forall|i: int| 0 <= i < jobs.len() ==> #[trigger] job_views(jobs)[i] == jobs[i]@,
        spec_views(specs).len() == specs.len(),
        forall|i: int| 0 <= i < specs.len() ==> #[trigger] spec_views(specs)[i] == specs[i]@,
        summary_views(summaries).len() == summaries.len(),
        forall|i: int|
            0 <= i < summaries.len() ==> #[trigger] summary_views(summaries)[i] == summaries[i]@,
{
}

} // verus!
