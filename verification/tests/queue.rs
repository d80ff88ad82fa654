//! The job queue.

use rustly_judge::limits::Limits;
use rustly_judge::protocol::{Backend, JobSpec, ResultSummary, TrustClass, PROTOCOL_VERSION};
use rustly_judge::queue::{Queue, QueuedJob, ReportError, LEASE_NANOS, MAX_LEASE_CAPACITY};
use rustly_judge::verdict::Verdict;

fn job(id: &str, hidden: bool) -> QueuedJob {
    QueuedJob {
        spec: JobSpec {
            protocol_version: PROTOCOL_VERSION,
            job_id: id.into(),
            source_cid: "b3:source".into(),
            trial_package_cid: "b3:package".into(),
            trial_version: 1,
            environment_id: "rust-1.88-wasm32-wasip1".into(),
            limits: Limits::default(),
            backend: Backend::Wasmtime,
            includes_hidden_tests: false,
        },
        package_has_hidden_tests: hidden,
    }
}

fn summary(worker: &str) -> ResultSummary {
    ResultSummary {
        protocol_version: PROTOCOL_VERSION,
        worker_id: worker.into(),
        trial_package_cid: "b3:package".into(),
        verdict: Verdict::Accepted,
        result_manifest_hash: "b3:manifest".into(),
        peak_memory_bytes: 1024,
        execution_ms: 5,
        compile_ms: 500,
        used_cached_artifact: false,
    }
}

fn ids(jobs: &[JobSpec]) -> Vec<&str> {
    jobs.iter().map(|j| j.job_id.as_str()).collect()
}

#[test]
fn jobs_are_leased_in_submission_order() {
    let mut queue = Queue::new();
    for id in ["a", "b", "c"] {
        queue.submit(job(id, false));
    }
    assert_eq!(queue.depth(), 3);

    let leased = queue.lease("w1", TrustClass::Trusted, 2, 0);
    assert_eq!(
        leased.iter().map(|j| j.job_id.as_str()).collect::<Vec<_>>(),
        ["a", "b"]
    );
    assert_eq!(queue.depth(), 1);
    assert_eq!(queue.in_flight(), 2);
}

#[test]
fn hidden_tests_are_offered_only_to_a_trusted_worker() {
    for (class, expected) in [
        (TrustClass::Volunteer, false),
        (TrustClass::Community, false),
        (TrustClass::Trusted, true),
    ] {
        let mut queue = Queue::new();
        queue.submit(job("j", true));
        let leased = queue.lease("w", class, 1, 0);
        assert_eq!(
            leased[0].includes_hidden_tests,
            expected,
            "{class:?} must{} be offered hidden tests",
            if expected { "" } else { " not" }
        );
    }
}

#[test]
fn a_package_without_hidden_tests_never_claims_to_have_them() {
    let mut queue = Queue::new();
    queue.submit(job("j", false));
    let leased = queue.lease("w", TrustClass::Trusted, 1, 0);
    assert!(!leased[0].includes_hidden_tests);
}

#[test]
fn a_lease_always_selects_the_qualified_backend() {
    let mut queue = Queue::new();
    let mut queued = job("j", false);
    queued.spec.backend = Backend::Native;
    queue.submit(queued);

    let leased = queue.lease("w", TrustClass::Trusted, 1, 0);
    assert_eq!(
        leased[0].backend,
        Backend::Wasmtime,
        "the broker must not dispatch to the unqualified native backend"
    );
}

#[test]
fn capacity_is_clamped() {
    let mut queue = Queue::new();
    for i in 0..100 {
        queue.submit(job(&format!("j{i}"), false));
    }
    assert_eq!(
        queue.lease("w", TrustClass::Trusted, u32::MAX, 0).len(),
        MAX_LEASE_CAPACITY as usize
    );
    assert_eq!(
        queue.lease("w", TrustClass::Trusted, 0, 0).len(),
        1,
        "zero means one, not none"
    );
}

#[test]
fn leasing_an_empty_queue_returns_nothing_rather_than_blocking() {
    assert!(Queue::new()
        .lease("w", TrustClass::Trusted, 4, 0)
        .is_empty());
}

#[test]
fn only_the_lease_holder_may_report() {
    let mut queue = Queue::new();
    queue.submit(job("j", false));
    queue.lease("w1", TrustClass::Trusted, 1, 0);

    assert_eq!(
        queue.report_for("j", summary("w2")),
        Err(ReportError::NotLeaseHolder)
    );
    assert_eq!(queue.report_for("j", summary("w1")), Ok(true));
    assert_eq!(queue.results().len(), 1);
    assert_eq!(queue.in_flight(), 0);
}

#[test]
fn reporting_twice_is_idempotent_rather_than_an_error() {
    let mut queue = Queue::new();
    queue.submit(job("j", false));
    queue.lease("w1", TrustClass::Trusted, 1, 0);

    assert_eq!(queue.report_for("j", summary("w1")), Ok(true));
    assert_eq!(
        queue.report_for("j", summary("w1")),
        Ok(false),
        "a retry after a network blip must not create a second verdict"
    );
    assert_eq!(queue.results().len(), 1);
}

#[test]
fn reporting_an_unknown_job_is_rejected() {
    assert_eq!(
        Queue::new().report_for("nope", summary("w1")),
        Err(ReportError::UnknownJob)
    );
}

#[test]
fn a_mismatched_protocol_version_is_rejected() {
    let mut queue = Queue::new();
    queue.submit(job("j", false));
    queue.lease("w1", TrustClass::Trusted, 1, 0);

    let mut bad = summary("w1");
    bad.protocol_version = 99;
    assert_eq!(
        queue.report_for("j", bad),
        Err(ReportError::ProtocolMismatch)
    );
}

#[test]
fn a_lease_that_has_run_out_is_given_to_someone_else() {
    let mut queue = Queue::new();
    queue.submit(job("j", false));
    assert_eq!(ids(&queue.lease("w1", TrustClass::Trusted, 1, 0)), ["j"]);
    assert!(queue
        .lease("w2", TrustClass::Trusted, 1, LEASE_NANOS - 1)
        .is_empty());
    assert_eq!(
        ids(&queue.lease("w2", TrustClass::Trusted, 1, LEASE_NANOS)),
        ["j"]
    );
    assert_eq!(
        queue.report_for("j", summary("w1")),
        Err(ReportError::NotLeaseHolder),
        "the first worker has lost its lease"
    );
    assert_eq!(queue.report_for("j", summary("w2")), Ok(true));
    assert_eq!(queue.result_for("j"), Some(summary("w2")));
    assert_eq!(queue.result_for("other"), None);
}

#[test]
fn reclaimed_jobs_come_before_waiting_ones_the_last_lease_first() {
    let mut queue = Queue::new();
    for id in ["a", "b", "c", "d"] {
        queue.submit(job(id, false));
    }
    queue.lease("w1", TrustClass::Trusted, 2, 0);
    queue.lease("w2", TrustClass::Trusted, 1, 1);
    let again = queue.lease("w3", TrustClass::Trusted, 9, LEASE_NANOS);
    assert_eq!(ids(&again), ["b", "a", "d"]);
    assert_eq!(queue.in_flight(), 4);
    assert_eq!(queue.depth(), 0);
}

#[test]
fn leasing_loses_no_job() {
    let mut queue = Queue::new();
    for i in 0..50 {
        queue.submit(job(&format!("j{i}"), false));
    }
    for step in 0..20 {
        queue.lease("w", TrustClass::Community, step % 5, u128::from(step) * LEASE_NANOS / 3);
        assert_eq!(queue.depth() + queue.in_flight(), 50);
    }
}

#[test]
fn rejections_are_explained() {
    assert_eq!(ReportError::UnknownJob.to_string(), "no such leased job");
    assert_eq!(
        ReportError::NotLeaseHolder.to_string(),
        "job is leased by another worker"
    );
    assert_eq!(
        ReportError::ProtocolMismatch.to_string(),
        "unsupported protocol version"
    );
    assert_eq!(
        ReportError::PackageMismatch.to_string(),
        "result package does not match leased job"
    );
}

#[test]
fn every_job_is_waiting_leased_or_finished() {
    let mut queue = Queue::new();
    for (n, id) in ["a", "b", "c", "d"].iter().enumerate() {
        queue.submit(job(id, false));
        assert_eq!(queue.depth(), n + 1);
        assert_eq!(queue.in_flight() + queue.finished_count(), 0);
    }
    queue.lease("w", TrustClass::Trusted, 3, 0);
    assert_eq!((queue.depth(), queue.in_flight()), (1, 3));

    assert_eq!(queue.report_for("b", summary("w")), Ok(true));
    assert_eq!((queue.depth(), queue.in_flight(), queue.finished_count()), (1, 2, 1));
    assert!(queue.report_for("d", summary("w")).is_err());
    assert_eq!((queue.depth(), queue.in_flight(), queue.finished_count()), (1, 2, 1));

    let rest = queue.lease("v", TrustClass::Trusted, 8, LEASE_NANOS);
    assert_eq!(ids(&rest), ["c", "a", "d"]);
    assert_eq!((queue.depth(), queue.in_flight(), queue.finished_count()), (0, 3, 1));
}
