//! Judge wire contracts.

use rustly_judge::digest::{cid, is_cid};
use rustly_judge::limits::Limits;
use rustly_judge::problem_format::Visibility;
use rustly_judge::protocol::{
    Backend, JobSpec, ResultManifest, TestOutcome, TrustClass, PROTOCOL_VERSION,
};
use rustly_judge::verdict::Verdict;

fn job() -> JobSpec {
    JobSpec {
        protocol_version: PROTOCOL_VERSION,
        job_id: "job-1".into(),
        source_cid: "b3:aa".into(),
        trial_package_cid: "b3:bb".into(),
        trial_version: 1,
        environment_id: "rust-1.88-wasm32-wasip1".into(),
        limits: Limits::default(),
        backend: Backend::Wasmtime,
        includes_hidden_tests: false,
    }
}

fn manifest() -> ResultManifest {
    ResultManifest {
        protocol_version: PROTOCOL_VERSION,
        job_id: "job-1".into(),
        trial_package_cid: "b3:bb".into(),
        trial_version: 1,
        environment_id: "rust-1.88-wasm32-wasip1".into(),
        verdict: Verdict::WrongAnswer,
        tests: vec![
            TestOutcome {
                test_id: "public-1".into(),
                visibility: Visibility::Public,
                verdict: Verdict::Accepted,
                wall_ms: 3,
                fuel_consumed: Some(1234),
                peak_memory_bytes: 65_536,
                detail: None,
            },
            TestOutcome {
                test_id: "hidden-secret-case".into(),
                visibility: Visibility::Hidden,
                verdict: Verdict::WrongAnswer,
                wall_ms: 4,
                fuel_consumed: Some(2345),
                peak_memory_bytes: 131_072,
                detail: Some("line 1: expected \"9973\", got \"9971\"".into()),
            },
        ],
        compiler_diagnostics: None,
        compile_ms: 900,
        execution_ms: 7,
        used_cached_artifact: false,
    }
}

#[test]
fn a_job_carries_identifiers_not_payloads() {
    let shown = format!("{:?}", job());
    assert!(shown.contains("b3:aa"));
    assert!(!shown.contains("fn main"));
    assert!(!shown.contains("expected_stdout"));
}

#[test]
fn a_worker_refuses_hidden_tests_it_is_not_entitled_to() {
    let mut spec = job();
    spec.includes_hidden_tests = true;

    assert!(spec.validate(TrustClass::Trusted).is_ok());
    for class in [TrustClass::Volunteer, TrustClass::Community] {
        let error = spec.validate(class).unwrap_err();
        assert!(error.contains("refusing"), "{error}");
    }
}

#[test]
fn a_worker_refuses_the_unqualified_native_backend() {
    let mut spec = job();
    spec.backend = Backend::Native;
    let error = spec.validate(TrustClass::Trusted).unwrap_err();
    assert!(error.contains("not qualified"), "{error}");
}

#[test]
fn a_worker_refuses_a_job_from_a_different_protocol_version() {
    let mut spec = job();
    spec.protocol_version = 99;
    assert!(spec.validate(TrustClass::Trusted).is_err());
}

#[test]
fn a_worker_refuses_a_job_with_an_unbounded_limit() {
    let mut spec = job();
    spec.limits.wall_ms = 0;
    assert!(spec.validate(TrustClass::Trusted).is_err());
}

#[test]
fn refusals_say_why() {
    let mut spec = job();
    spec.protocol_version = 99;
    assert_eq!(
        spec.validate(TrustClass::Trusted).unwrap_err(),
        "job speaks protocol v99, this worker speaks v1"
    );
    let mut spec = job();
    spec.includes_hidden_tests = true;
    assert_eq!(
        spec.validate(TrustClass::Volunteer).unwrap_err(),
        "refusing a job with hidden tests as a Volunteer worker"
    );
    let mut spec = job();
    spec.limits.fuel = 0;
    assert_eq!(
        spec.validate(TrustClass::Community).unwrap_err(),
        "invalid limits: fuel must be greater than zero"
    );
}

#[test]
fn redaction_removes_hidden_case_identity_and_reasons() {
    let redacted = manifest().redacted_for_submitter();
    let json = redacted.canonical_json();

    assert!(!json.contains("9973"), "expected value leaked: {json}");
    assert!(!json.contains("9971"), "actual value leaked: {json}");
    assert!(
        !json.contains("hidden-secret-case"),
        "test id leaked: {json}"
    );

    // The submitter still learns that a hidden case failed, and the public
    // case's own detail survives.
    assert_eq!(redacted.tests[1].verdict, Verdict::WrongAnswer);
    assert_eq!(redacted.verdict, Verdict::WrongAnswer);
    assert_eq!(redacted.tests[0].test_id, "public-1");
}

#[test]
fn redaction_keeps_public_case_details() {
    let mut m = manifest();
    m.tests[0].verdict = Verdict::WrongAnswer;
    m.tests[0].detail = Some("line 1: expected \"3\", got \"4\"".into());
    let redacted = m.redacted_for_submitter();
    assert_eq!(
        redacted.tests[0].detail.as_deref(),
        Some("line 1: expected \"3\", got \"4\"")
    );
}

#[test]
fn redacting_twice_is_redacting_once() {
    let once = manifest().redacted_for_submitter();
    assert_eq!(once.redacted_for_submitter(), once);
}

#[test]
fn redaction_does_not_depend_on_what_is_hidden() {
    let mut other = manifest();
    other.tests[1].test_id = "another-secret".into();
    other.tests[1].detail = None;
    assert_eq!(
        other.redacted_for_submitter(),
        manifest().redacted_for_submitter()
    );
}

#[test]
fn the_manifest_hash_is_stable_and_content_sensitive() {
    let m = manifest();
    assert_eq!(m.hash(), m.clone().hash());
    assert!(m.hash().starts_with("b3:"));

    let mut changed = m.clone();
    changed.verdict = Verdict::Accepted;
    assert_ne!(m.hash(), changed.hash());
}

#[test]
fn the_summary_reports_a_hash_not_the_manifest() {
    let m = manifest();
    let summary = m.summary("worker-1");
    assert_eq!(summary.result_manifest_hash, m.hash());
    assert_eq!(summary.verdict, m.verdict);
    assert_eq!(summary.peak_memory_bytes, 131_072);

    let shown = format!("{summary:?}");
    assert!(
        !shown.contains("9973"),
        "the summary must not carry diagnostics: {shown}"
    );
    assert!(!shown.contains("public-1"));
}

#[test]
fn cache_reuse_never_changes_the_reported_verdict() {
    let mut cold = manifest();
    cold.used_cached_artifact = false;
    let mut warm = manifest();
    warm.used_cached_artifact = true;

    assert_eq!(cold.verdict, warm.verdict);
    assert_ne!(
        cold.hash(),
        warm.hash(),
        "the manifest still records which path ran"
    );
}

#[test]
fn trust_classes_agree_with_the_control_plane() {
    assert!(TrustClass::Trusted.may_receive_hidden_tests());
    assert!(!TrustClass::Community.may_receive_hidden_tests());
    assert!(!TrustClass::Volunteer.may_receive_hidden_tests());
    assert!(TrustClass::Volunteer.requires_artifact_quarantine());
    assert!(!TrustClass::Trusted.requires_artifact_quarantine());
}

#[test]
fn the_canonical_encoding_is_compact_json_in_declaration_order() {
    let m = manifest();
    let expected = concat_all(&[
        "{\"protocol_version\":1,\"job_id\":\"job-1\",\"trial_package_cid\":\"b3:bb\",",
        "\"trial_version\":1,\"environment_id\":\"rust-1.88-wasm32-wasip1\",\"verdict\":\"WA\",",
        "\"tests\":[{\"test_id\":\"public-1\",\"visibility\":\"public\",\"verdict\":\"AC\",",
        "\"wall_ms\":3,\"fuel_consumed\":1234,\"peak_memory_bytes\":65536},",
        "{\"test_id\":\"hidden-secret-case\",\"visibility\":\"hidden\",\"verdict\":\"WA\",",
        "\"wall_ms\":4,\"fuel_consumed\":2345,\"peak_memory_bytes\":131072,",
        "\"detail\":\"line 1: expected \\\"9973\\\", got \\\"9971\\\"\"}],",
        "\"compile_ms\":900,\"execution_ms\":7,\"used_cached_artifact\":false}",
    ]);
    assert_eq!(m.canonical_json(), expected);
    assert_eq!(m.hash(), cid(expected.as_bytes()));

    let parsed: serde_json::Value = serde_json::from_str(&expected).unwrap();
    assert_eq!(parsed["tests"][1]["visibility"], "hidden");
    assert!(parsed.get("compiler_diagnostics").is_none());
}

fn concat_all(parts: &[&str]) -> String {
    parts.concat()
}

#[test]
fn the_canonical_encoding_escapes_what_json_escapes() {
    let mut m = manifest();
    m.tests.clear();
    m.compiler_diagnostics = Some("error: \"\\\n\t\u{1} \u{e9}".into());
    let json = m.canonical_json();
    let parsed: serde_json::Value = serde_json::from_str(&json).unwrap();
    assert_eq!(
        parsed["compiler_diagnostics"],
        "error: \"\\\n\t\u{1} \u{e9}"
    );
    assert!(json.contains("\"tests\":[],\"compiler_diagnostics\":"));
    assert!(json.contains("\\u0001"));
}

#[test]
fn every_kind_of_character_is_escaped_as_stated() {
    let mut m = manifest();
    m.tests.clear();
    m.compiler_diagnostics = Some(
        "\"\\\u{8}\t\n\u{c}\r\u{0}\u{1}\u{b}\u{1a}\u{1f} /\u{7f}\u{e9}\u{2028}\u{1f600}".into(),
    );
    assert!(m.canonical_json().contains(
        "\"compiler_diagnostics\":\"\\\"\\\\\\b\\t\\n\\f\\r\\u0000\\u0001\\u000b\\u001a\\u001f /\u{7f}\u{e9}\u{2028}\u{1f600}\",\"compile_ms\""
    ));
}

#[test]
fn every_part_of_a_manifest_shows_in_its_encoding() {
    let mut all: Vec<ResultManifest> = vec![manifest()];
    for part in 0..18 {
        let mut m = manifest();
        match part {
            0 => m.protocol_version = 11,
            1 => m.job_id = "job-1\",\"x\":\"".into(),
            2 => m.trial_package_cid = "b3:bc".into(),
            3 => m.trial_version = 2,
            4 => m.environment_id = "".into(),
            5 => m.verdict = Verdict::TimeLimitExceeded,
            6 => m.tests.clear(),
            7 => m.compiler_diagnostics = Some("".into()),
            8 => m.compile_ms = 90,
            9 => m.execution_ms = 0,
            10 => m.used_cached_artifact = true,
            11 => m.tests[0].test_id = "public-2".into(),
            12 => m.tests[0].visibility = Visibility::Hidden,
            13 => m.tests[0].verdict = Verdict::WrongAnswer,
            14 => m.tests[0].wall_ms = 31,
            15 => m.tests[0].fuel_consumed = None,
            16 => m.tests[0].peak_memory_bytes = 6553,
            _ => m.tests[0].detail = Some("".into()),
        }
        all.push(m);
    }
    for i in 0..all.len() {
        for j in 0..i {
            assert_ne!(all[i].canonical_json(), all[j].canonical_json());
            assert_ne!(all[i].hash(), all[j].hash());
        }
    }
}

#[test]
fn a_summary_of_no_cases_has_no_peak() {
    let mut m = manifest();
    m.tests.clear();
    let summary = m.summary("w");
    assert_eq!(summary.peak_memory_bytes, 0);
    assert!(is_cid(&summary.result_manifest_hash));
    assert_eq!(summary.worker_id, "w");
    assert_eq!(summary.trial_package_cid, "b3:bb");
    assert_eq!(summary.clone(), summary);
}
