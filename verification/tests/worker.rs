//! What a worker decides around the pipeline.

use rustly_judge::digest::is_cid;
use rustly_judge::error::JudgeError;
use rustly_judge::limits::Limits;
use rustly_judge::grader::manifest_for_error;
use rustly_judge::pipeline::{artifact_key, JobReport};
use rustly_judge::problem_format::{
    Checker, Environment, Mode, Scoring, TestCase, TrialPackage, Visibility, FORMAT_VERSION,
};
use rustly_judge::protocol::{Backend, JobSpec, TrustClass, PROTOCOL_VERSION};
use rustly_judge::verdict::Verdict;
use rustly_judge::routes::LeaseResponse;
use rustly_judge::worker::{
    after_lease, align_with_package, failure_summary, is_local_address, job_summary,
    lease_request, lease_url, local_job, parse_trust, poll_delay, result_url, NextMove,
};

#[test]
fn the_artifact_key_separates_toolchains_and_compilers() {
    let base = artifact_key("b3:source", "rust-1.88-wasm32-wasip1", "cargo");
    assert_ne!(
        base,
        artifact_key("b3:other", "rust-1.88-wasm32-wasip1", "cargo")
    );
    assert_ne!(
        base,
        artifact_key("b3:source", "rust-1.90-wasm32-wasip1", "cargo"),
        "a different toolchain must not reuse an artifact"
    );
    assert_ne!(
        base,
        artifact_key("b3:source", "rust-1.88-wasm32-wasip1", "precompiled"),
        "a different compiler must not reuse an artifact"
    );
    assert_eq!(
        base,
        artifact_key("b3:source", "rust-1.88-wasm32-wasip1", "cargo")
    );
    assert!(is_cid(&base));
}

#[test]
fn the_key_is_not_trivially_confusable_by_field_concatenation() {
    // "ab" + "c" must not collide with "a" + "bc".
    assert_ne!(artifact_key("ab", "c", "x"), artifact_key("a", "bc", "x"));
}

#[test]
fn the_key_is_the_digest_of_its_parts_between_nuls() {
    let mut hasher = blake3::Hasher::new();
    hasher.update(b"rustly-artifact-v1\0");
    hasher.update(b"b3:source");
    hasher.update(b"\0");
    hasher.update(b"env");
    hasher.update(b"\0");
    hasher.update(b"cargo");
    assert_eq!(
        artifact_key("b3:source", "env", "cargo"),
        format!("b3:{}", hasher.finalize().to_hex())
    );
}

#[test]
fn trust_classes_are_read_from_words() {
    assert_eq!(parse_trust("volunteer"), Ok(TrustClass::Volunteer));
    assert_eq!(parse_trust("community"), Ok(TrustClass::Community));
    assert_eq!(parse_trust("trusted"), Ok(TrustClass::Trusted));
    assert_eq!(
        parse_trust("Trusted"),
        Err("unknown trust class \"Trusted\"".into())
    );
}

fn package() -> TrialPackage {
    TrialPackage {
        format_version: FORMAT_VERSION,
        slug: "s".into(),
        version: 7,
        mode: Mode::Batch,
        environment: Environment::default(),
        limits: Limits::tiny(),
        checker: Checker::Exact,
        scoring: Scoring::AllOrNothing,
        fail_fast: true,
        groups: vec![],
        tests: vec![TestCase {
            id: "a".into(),
            visibility: Visibility::Public,
            stdin: String::new(),
            expected_stdout: String::new(),
            args: vec![],
            group: None,
            limits: None,
        }],
    }
}

#[test]
fn a_local_job_is_aligned_with_its_package() {
    let spec = local_job("s", "p", TrustClass::Trusted, false);
    assert_eq!(
        spec,
        JobSpec {
            protocol_version: PROTOCOL_VERSION,
            job_id: "local".into(),
            source_cid: "s".into(),
            trial_package_cid: "p".into(),
            trial_version: 0,
            environment_id: String::new(),
            limits: Limits::default(),
            backend: Backend::Wasmtime,
            includes_hidden_tests: false,
        }
    );
    let aligned = align_with_package(spec.clone(), &package());
    assert_eq!(aligned.environment_id, "rust-1.88-wasm32-wasip1");
    assert_eq!(aligned.trial_version, 7);
    assert_eq!(aligned.limits, Limits::tiny());
    assert_eq!(aligned.job_id, spec.job_id);
    assert_eq!(aligned.source_cid, spec.source_cid);
}

#[test]
fn a_local_job_is_never_refused() {
    for trust in [
        TrustClass::Volunteer,
        TrustClass::Community,
        TrustClass::Trusted,
    ] {
        for hidden in [false, true] {
            let spec = align_with_package(local_job("s", "p", trust, hidden), &package());
            assert_eq!(spec.validate(trust), Ok(()));
            assert_eq!(
                spec.includes_hidden_tests,
                hidden && trust == TrustClass::Trusted
            );
        }
    }
}

#[test]
fn every_job_is_reported_judged_or_not() {
    let spec = local_job("s", "p", TrustClass::Trusted, false);
    let error = JudgeError::SecurityPolicy("x".into());
    let manifest = manifest_for_error("local", "p", &package(), &error);
    let summary = manifest.summary("w");
    let report = JobReport::new(manifest);
    assert_eq!(report.clone().verdict(), Verdict::SecurityEvent);
    assert_eq!(job_summary("w", &spec, &Ok(report)), summary);
    let failed = failure_summary("w", "p", &error);
    assert_eq!(job_summary("w", &spec, &Err(error)), failed);
    assert_ne!(failed, summary);
}

#[test]
fn a_worker_waits_only_where_there_is_no_work() {
    let request = lease_request("w", TrustClass::Community, 3);
    assert_eq!(request.protocol_version, PROTOCOL_VERSION);
    assert_eq!(request.worker_id, "w");
    assert_eq!(request.trust_class, TrustClass::Community);
    assert_eq!(request.capacity, 3);

    let answered = |jobs, poll_after_seconds| {
        after_lease(LeaseResponse {
            jobs,
            poll_after_seconds,
        })
    };
    assert!(matches!(answered(vec![], 5), NextMove::Wait { seconds: 5 }));
    assert!(matches!(answered(vec![], 0), NextMove::Wait { seconds: 1 }));
    let spec = local_job("s", "p", TrustClass::Trusted, false);
    match answered(vec![spec.clone(), spec.clone()], 5) {
        NextMove::Judge { jobs } => assert_eq!(jobs, [spec.clone(), spec]),
        NextMove::Wait { .. } => panic!("there is work"),
    }
}

#[test]
fn a_failed_job_is_reported_as_what_it_is() {
    let error = JudgeError::Infrastructure("object store unreachable".into());
    let summary = failure_summary("w", "b3:p", &error);
    assert_eq!(summary.verdict, Verdict::InternalError);
    assert_eq!(summary.worker_id, "w");
    assert_eq!(summary.trial_package_cid, "b3:p");
    assert_eq!(summary.result_manifest_hash, "");
    assert_eq!(summary.protocol_version, PROTOCOL_VERSION);
}

#[test]
fn an_empty_queue_is_not_polled_in_a_tight_loop() {
    assert_eq!(poll_delay(0), 1);
    assert_eq!(poll_delay(1), 1);
    assert_eq!(poll_delay(5), 5);
}

#[test]
fn brokers_are_asked_below_their_base_url() {
    assert_eq!(lease_url("http://b"), "http://b/api/v1/judge/leases");
    assert_eq!(
        result_url("http://b", "job-1"),
        "http://b/api/v1/judge/jobs/job-1/result"
    );
}

#[test]
fn only_loopback_addresses_are_local() {
    assert!(is_local_address("127.0.0.1:8090"));
    assert!(is_local_address("localhost:8090"));
    assert!(!is_local_address("0.0.0.0:8090"));
    assert!(!is_local_address("10.127.0.0.1"));
}
