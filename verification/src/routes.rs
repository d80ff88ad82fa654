//! What the broker answers, request by request.
//!
//! Each function is one route of the judge broker protocol, from the decoded
//! request to the status code and the body of the reply.

use vstd::prelude::*;

use crate::protocol::{
    JobSpec, ResultSummary, ResultSummaryView, TrustClass, PROTOCOL_VERSION,
};
use crate::queue::{
    offered, spec_views, Queue, QueueView, QueuedJob, QueuedJobView, ReportError,
    EMPTY_QUEUE_BACKOFF_SECONDS, LEASE_NANOS,
};
use crate::text::copy_text;

verus! {

/// A request was taken on.
pub const ACCEPTED: u16 = 202;

/// A request makes no sense to this broker.
pub const BAD_REQUEST: u16 = 400;

/// A request is not this worker's to make.
pub const FORBIDDEN: u16 = 403;

/// A request is about something that does not exist.
pub const NOT_FOUND: u16 = 404;

/// A worker's request for work.
#[derive(Debug, Clone)]
pub struct LeaseRequest {
    /// Protocol version the worker speaks.
    pub protocol_version: u32,
    /// Worker identifier.
    pub worker_id: String,
    /// Declared trust class.
    ///
    /// This broker has no credentials, so the declaration is taken at face
    /// value. That is exactly why it must only be exposed on a trusted network,
    /// and why hidden tests are still filtered structurally by the queue: a
    /// misconfiguration degrades to "no hidden tests dispatched", never to
    /// "hidden tests leaked".
    pub trust_class: TrustClass,
    /// Jobs requested.
    pub capacity: u32,
}

/// Leased work.
#[derive(Debug, Clone)]
pub struct LeaseResponse {
    /// Leased jobs, possibly empty.
    pub jobs: Vec<JobSpec>,
    /// Seconds to wait before re-polling an empty queue.
    pub poll_after_seconds: u32,
}

/// Broker health and queue depth.
#[derive(Debug, Clone)]
pub struct StatusResponse {
    /// Always `"ok"` if the process is serving.
    pub status: &'static str,
    /// Protocol version this broker speaks.
    pub protocol_version: u32,
    /// Jobs waiting to be leased.
    pub queue_depth: usize,
    /// Jobs currently leased.
    pub in_flight: usize,
    /// Jobs finished.
    pub finished: usize,
}

/// Enqueue a job. Used by an operator or a test harness, not by workers.
#[derive(Debug, Clone)]
pub struct SubmitRequest {
    /// The job.
    pub spec: JobSpec,
    /// Whether the referenced package contains hidden tests.
    pub package_has_hidden_tests: bool,
}

/// Acknowledgement of a submitted job.
#[derive(Debug, Clone)]
pub struct SubmitAck {
    /// The job identifier.
    pub job_id: String,
    /// Queue depth after enqueueing.
    pub queue_depth: usize,
}

/// Acknowledgement of a reported result.
#[derive(Debug, Clone)]
pub struct ReportAck {
    /// Whether this report finalised the job. `false` means it was a duplicate.
    pub accepted: bool,
}

/// A uniform error body.
#[derive(Debug, Clone)]
pub struct ErrorBody {
    /// Human-readable message.
    pub message: String,
}

/// The status code a rejected report is answered with.
pub open spec fn report_status(error: ReportError) -> u16 {
    match error {
        ReportError::UnknownJob => NOT_FOUND,
        ReportError::NotLeaseHolder => FORBIDDEN,
        ReportError::ProtocolMismatch | ReportError::PackageMismatch => BAD_REQUEST,
    }
}

/// Say how the broker is doing.
pub fn status(queue: &Queue) -> (response: StatusResponse)
    ensures
        response.status@ == "ok"@,
        response.protocol_version == PROTOCOL_VERSION,
        response.queue_depth == queue@.waiting.len(),
        response.in_flight == queue@.leased.len(),
        response.finished == queue@.finished.len(),
{
    StatusResponse {
        status: "ok",
        protocol_version: PROTOCOL_VERSION,
        queue_depth: queue.depth(),
        in_flight: queue.in_flight(),
        finished: queue.finished_count(),
    }
}

/// Lease work to a worker that speaks the protocol.
pub fn lease(queue: &mut Queue, body: &LeaseRequest, now: u128) -> (reply: Result<
    LeaseResponse,
    (u16, ErrorBody),
>)
    requires
        now + LEASE_NANOS <= u128::MAX,
    ensures
        reply is Ok <==> body.protocol_version == PROTOCOL_VERSION,
        match reply {
            Ok(response) => {
                &&& response.poll_after_seconds == EMPTY_QUEUE_BACKOFF_SECONDS
                &&& spec_views(response.jobs@) == old(queue)@.next_jobs(
                    body.capacity,
                    now,
                ).map_values(|job: QueuedJobView| offered(job, body.trust_class))
                &&& final(queue)@ == old(queue)@.after_lease(body.worker_id@, body.capacity, now)
            },
            Err(refusal) => {
                &&& refusal.0 == BAD_REQUEST
                &&& refusal.1.message@ == "this broker speaks protocol v1"@
                &&& final(queue)@ == old(queue)@
            },
        },
{
    if body.protocol_version != PROTOCOL_VERSION {
        return Err(
            (BAD_REQUEST, ErrorBody { message: "this broker speaks protocol v1".to_owned() }),
        );
    }
    let jobs = queue.lease(body.worker_id.as_str(), body.trust_class, body.capacity, now);
    Ok(LeaseResponse { jobs, poll_after_seconds: EMPTY_QUEUE_BACKOFF_SECONDS })
}

/// The reply to a report, once the queue has decided on it.
pub fn report_reply(result: Result<bool, ReportError>) -> (reply: Result<ReportAck, (u16, ErrorBody)>)
    ensures
        match result {
            Ok(accepted) => reply == Ok::<ReportAck, (u16, ErrorBody)>(ReportAck { accepted }),
            Err(error) => reply matches Err(refusal) && refusal.0 == report_status(error)
                && refusal.1.message@ == error.shown(),
        },
{
    match result {
        Ok(accepted) => Ok(ReportAck { accepted }),
        Err(error) => {
            let status: u16 = match error {
                ReportError::UnknownJob => NOT_FOUND,
                ReportError::NotLeaseHolder => FORBIDDEN,
                ReportError::ProtocolMismatch => BAD_REQUEST,
                ReportError::PackageMismatch => BAD_REQUEST,
            };
            Err((status, ErrorBody { message: error.to_string() }))
        },
    }
}

/// Record a result.
pub fn report(queue: &mut Queue, job_id: &str, summary: ResultSummary) -> (reply: Result<
    ReportAck,
    (u16, ErrorBody),
>)
    ensures
        final(queue)@ == old(queue)@.after_report(job_id@, summary@),
        match old(queue)@.report_result(job_id@, summary@) {
            Ok(accepted) => reply == Ok::<ReportAck, (u16, ErrorBody)>(ReportAck { accepted }),
            Err(error) => reply matches Err(refusal) && refusal.0 == report_status(error)
                && refusal.1.message@ == error.shown(),
        },
{
    report_reply(queue.report_for(job_id, summary))
}

/// Take on a job.
pub fn submit(queue: &mut Queue, body: SubmitRequest) -> (reply: (u16, SubmitAck))
    ensures
        final(queue)@ == old(queue)@.after_submit(
            (QueuedJobView {
                spec: body.spec@,
                package_has_hidden_tests: body.package_has_hidden_tests,
            }),
        ),
        reply.0 == ACCEPTED,
        reply.1.job_id@ == body.spec@.job_id,
        reply.1.queue_depth == old(queue)@.waiting.len() + 1,
{
    let job_id = copy_text(body.spec.job_id.as_str());
    queue.submit(
        QueuedJob {
            spec: body.spec,
            package_has_hidden_tests: body.package_has_hidden_tests,
        },
    );
    (ACCEPTED, SubmitAck { job_id, queue_depth: queue.depth() })
}

/// A job that is submitted to an idle broker, leased and reported by a worker
/// that speaks the protocol comes to an end: it is leased to the worker as it
/// was submitted but for what only trusted workers learn, the report is
/// accepted, and nothing is left waiting or leased.
pub proof fn a_job_goes_through_its_cycle(
    job: QueuedJobView,
    worker_id: Seq<char>,
    capacity: u32,
    now: u128,
    summary: ResultSummaryView,
)
    requires
        summary.protocol_version == PROTOCOL_VERSION,
        summary.worker_id == worker_id,
    ensures
        ({
            let submitted = QueueView { waiting: seq![job], leased: seq![], finished: seq![] };
            let leased = submitted.after_lease(worker_id, capacity, now);
            let done = leased.after_report(job.spec.job_id, summary);
            &&& submitted.next_jobs(capacity, now) == seq![job]
            &&& leased.waiting.len() == 0 && leased.leased.len() == 1
            &&& leased.report_result(job.spec.job_id, summary) == Ok::<bool, ReportError>(true)
            &&& done.waiting.len() == 0 && done.leased.len() == 0
            &&& crate::queue::recorded(done.finished, job.spec.job_id) == Some(summary)
        }),
{
    let submitted = QueueView { waiting: seq![job], leased: seq![], finished: seq![] };
    let leased = submitted.after_lease(worker_id, capacity, now);
    let swept = submitted.swept(now);
    assert(swept.waiting == seq![job]);
    assert(submitted.lease_count(capacity, now) == 1);
    assert(submitted.next_jobs(capacity, now) == seq![job]);
    assert(leased.leased[0] == crate::queue::lease_of(job, worker_id, now));
    assert(leased.leased[0].job.spec.job_id == job.spec.job_id);
    assert(crate::queue::is_leased(leased.leased, job.spec.job_id));
    crate::queue::only_the_lease_holder_finalises(leased, job.spec.job_id, summary);
}

/// A rejected report is answered by what is wrong with it: what is not there, what
/// is not the worker's, and what makes no sense.
pub proof fn rejected_reports_have_their_status(error: ReportError)
    ensures
        report_status(error) == 404 <==> error == ReportError::UnknownJob,
        report_status(error) == 403 <==> error == ReportError::NotLeaseHolder,
        report_status(error) == 400 <==> error == ReportError::ProtocolMismatch || error
            == ReportError::PackageMismatch,
        ACCEPTED == 202,
        EMPTY_QUEUE_BACKOFF_SECONDS == 5,
{
}

} // verus!
