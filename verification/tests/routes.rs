//! What the broker answers, request by request.

use rustly_judge::limits::Limits;
use rustly_judge::protocol::{Backend, JobSpec, ResultSummary, TrustClass, PROTOCOL_VERSION};
use rustly_judge::queue::{Queue, ReportError};
use rustly_judge::routes::{
    lease, report, report_reply, status, submit, LeaseRequest, SubmitRequest, ACCEPTED,
    BAD_REQUEST, FORBIDDEN, NOT_FOUND,
};
use rustly_judge::verdict::Verdict;

fn spec(job_id: &str) -> JobSpec {
    JobSpec {
        protocol_version: PROTOCOL_VERSION,
        job_id: job_id.into(),
        source_cid: "b3:source".into(),
        trial_package_cid: "b3:package".into(),
        trial_version: 1,
        environment_id: "rust-1.88-wasm32-wasip1".into(),
        limits: Limits::default(),
        backend: Backend::Wasmtime,
        includes_hidden_tests: false,
    }
}

fn asking(worker_id: &str, trust_class: TrustClass, capacity: u32) -> LeaseRequest {
    LeaseRequest {
        protocol_version: PROTOCOL_VERSION,
        worker_id: worker_id.into(),
        trust_class,
        capacity,
    }
}

fn summary(worker_id: &str) -> ResultSummary {
    ResultSummary {
        protocol_version: PROTOCOL_VERSION,
        worker_id: worker_id.into(),
        trial_package_cid: "b3:package".into(),
        verdict: Verdict::Accepted,
        result_manifest_hash: "b3:manifest".into(),
        peak_memory_bytes: 65_536,
        execution_ms: 4,
        compile_ms: 700,
        used_cached_artifact: false,
    }
}

#[test]
fn status_reports_protocol_version_and_queue_depth() {
    let body = status(&Queue::new());
    assert_eq!(body.status, "ok");
    assert_eq!(body.protocol_version, PROTOCOL_VERSION);
    assert_eq!(body.queue_depth, 0);
}

#[test]
fn the_full_submit_lease_report_cycle_works_over_http() {
    let mut queue = Queue::new();

    let (code, ack) = submit(
        &mut queue,
        SubmitRequest {
            spec: spec("job-1"),
            package_has_hidden_tests: true,
        },
    );
    assert_eq!(code, ACCEPTED);
    assert_eq!(code, 202);
    assert_eq!(ack.job_id, "job-1");
    assert_eq!(ack.queue_depth, 1);

    let leased = lease(&mut queue, &asking("worker-1", TrustClass::Trusted, 4), 0).unwrap();
    assert_eq!(leased.jobs.len(), 1);
    assert_eq!(leased.jobs[0].job_id, "job-1");
    assert!(leased.jobs[0].includes_hidden_tests);
    assert_eq!(leased.jobs[0].backend, Backend::Wasmtime);

    let ack = report(&mut queue, "job-1", summary("worker-1")).unwrap();
    assert!(ack.accepted);

    let body = status(&queue);
    assert_eq!(body.queue_depth, 0);
    assert_eq!(body.in_flight, 0);
    assert_eq!(body.finished, 1);
}

#[test]
fn a_volunteer_worker_is_never_offered_hidden_tests_over_the_wire() {
    let mut queue = Queue::new();
    submit(
        &mut queue,
        SubmitRequest {
            spec: spec("job-1"),
            package_has_hidden_tests: true,
        },
    );
    let leased = lease(
        &mut queue,
        &asking("volunteer-1", TrustClass::Volunteer, 1),
        0,
    )
    .unwrap();
    assert!(!leased.jobs[0].includes_hidden_tests);
}

#[test]
fn only_the_lease_holder_may_report_a_result() {
    let mut queue = Queue::new();
    submit(
        &mut queue,
        SubmitRequest {
            spec: spec("job-1"),
            package_has_hidden_tests: false,
        },
    );
    lease(&mut queue, &asking("worker-1", TrustClass::Trusted, 1), 0).unwrap();

    let (code, _) = report(&mut queue, "job-1", summary("worker-2")).unwrap_err();
    assert_eq!(code, FORBIDDEN);
    assert_eq!(code, 403);
}

#[test]
fn reporting_an_unknown_job_is_a_404() {
    let (code, body) = report(&mut Queue::new(), "nope", summary("w")).unwrap_err();
    assert_eq!(code, NOT_FOUND);
    assert_eq!(code, 404);
    assert_eq!(body.message, "no such leased job");
}

#[test]
fn a_worker_speaking_a_different_protocol_version_is_refused() {
    let mut asked = asking("w", TrustClass::Trusted, 1);
    asked.protocol_version = 99;
    let (code, body) = lease(&mut Queue::new(), &asked, 0).unwrap_err();
    assert_eq!(code, BAD_REQUEST);
    assert_eq!(code, 400);
    assert_eq!(body.message, "this broker speaks protocol v1");
}

#[test]
fn an_empty_queue_returns_no_jobs_and_a_backoff() {
    let leased = lease(&mut Queue::new(), &asking("w", TrustClass::Trusted, 8), 0).unwrap();
    assert!(leased.jobs.is_empty());
    assert!(leased.poll_after_seconds >= 1);
    assert_eq!(leased.poll_after_seconds, 5);
}

#[test]
fn every_rejected_report_has_a_status() {
    let expected = [
        (ReportError::UnknownJob, 404),
        (ReportError::NotLeaseHolder, 403),
        (ReportError::ProtocolMismatch, 400),
        (ReportError::PackageMismatch, 400),
    ];
    for (error, code) in expected {
        let reply = report_reply(Err(error)).unwrap_err();
        assert_eq!(reply.0, code);
        assert_eq!(reply.1.message, error.to_string());
    }
    assert!(!report_reply(Ok(false)).unwrap().accepted);
}
