//! Grading, with a scripted backend so that aggregation, fail-fast, and
//! system-fault handling are tested precisely.

use std::sync::Mutex;

use rustly_judge::backend::{
    ExecutionBackend, ExecutionOutcome, ExecutionRequest, TerminationReason,
};
use rustly_judge::checker::{FloatReading, FloatValue};
use rustly_judge::error::JudgeError;
use rustly_judge::grader::{
    grade, is_safe_for_submitter, judge_case, manifest_for_compile_error, manifest_for_error,
    GradeRequest,
};
use rustly_judge::limits::{LimitViolation, Limits};
use rustly_judge::problem_format::{
    Checker, Environment, Group, Mode, Scoring, TestCase, TrialPackage, Visibility, FORMAT_VERSION,
};
use rustly_judge::protocol::ResultManifest;
use rustly_judge::verdict::Verdict;

type ExecutionResult = Result<ExecutionOutcome, JudgeError>;

/// A backend that replays a fixed script, so aggregation logic can be tested
/// without depending on what a particular WASM module happens to do.
struct ScriptedBackend {
    script: Mutex<Vec<ExecutionResult>>,
    qualified: bool,
    calls: Mutex<Vec<(Vec<u8>, Vec<u8>)>>,
}

impl ScriptedBackend {
    fn new(script: Vec<ExecutionResult>) -> Self {
        Self {
            script: Mutex::new(script),
            qualified: true,
            calls: Mutex::new(vec![]),
        }
    }

    fn unqualified() -> Self {
        Self {
            script: Mutex::new(vec![]),
            qualified: false,
            calls: Mutex::new(vec![]),
        }
    }

    fn calls(&self) -> usize {
        self.calls.lock().unwrap().len()
    }
}

impl ExecutionBackend for ScriptedBackend {
    fn id(&self) -> &'static str {
        "scripted"
    }

    fn is_qualified_for_untrusted_code(&self) -> bool {
        self.qualified
    }

    fn execute(&self, request: ExecutionRequest<'_>) -> ExecutionResult {
        self.calls
            .lock()
            .unwrap()
            .push((request.module.to_vec(), request.stdin.to_vec()));
        let mut script = self.script.lock().unwrap();
        if script.is_empty() {
            panic!("the scripted backend was called more times than the test expected");
        }
        script.remove(0)
    }
}

fn ran(termination: TerminationReason, stdout: &str) -> ExecutionResult {
    Ok(ExecutionOutcome {
        termination,
        stdout: stdout.as_bytes().to_vec(),
        stderr: vec![],
        wall_ms: 1,
        fuel_consumed: Some(100),
        peak_memory_bytes: 65_536,
    })
}

fn ok(stdout: &str) -> ExecutionResult {
    ran(TerminationReason::Exited { code: 0 }, stdout)
}

fn limit(violation: LimitViolation) -> ExecutionResult {
    Ok(ExecutionOutcome {
        termination: TerminationReason::LimitExceeded { violation },
        stdout: vec![],
        stderr: vec![],
        wall_ms: 2_000,
        fuel_consumed: Some(0),
        peak_memory_bytes: 0,
    })
}

fn case(id: &str, visibility: Visibility, expected: &str) -> TestCase {
    TestCase {
        id: id.into(),
        visibility,
        stdin: String::new(),
        expected_stdout: expected.into(),
        args: vec![],
        group: None,
        limits: None,
    }
}

fn package(tests: Vec<TestCase>, fail_fast: bool) -> TrialPackage {
    TrialPackage {
        format_version: FORMAT_VERSION,
        slug: "ownership-move-or-borrow".into(),
        version: 3,
        mode: Mode::Batch,
        environment: Environment::default(),
        limits: Limits::default(),
        checker: Checker::TrimmedLines,
        scoring: Scoring::AllOrNothing,
        fail_fast,
        groups: vec![],
        tests,
    }
}

fn request<'a>(package: &'a TrialPackage, module: &'a [u8]) -> GradeRequest<'a> {
    GradeRequest {
        job_id: "job-1",
        trial_package_cid: "b3:package",
        module,
        package,
        compiler_diagnostics: None,
        compile_ms: 850,
        used_cached_artifact: false,
    }
}

fn graded(
    backend: &ScriptedBackend,
    request: GradeRequest<'_>,
) -> Result<ResultManifest, JudgeError> {
    grade(backend, request, |_, _, _, _| {
        panic!("no case here compares numbers")
    })
}

#[test]
fn every_passing_case_yields_accepted() {
    let package = package(
        vec![
            case("public-1", Visibility::Public, "3\n"),
            case("hidden-1", Visibility::Hidden, "5\n"),
        ],
        true,
    );
    let backend = ScriptedBackend::new(vec![ok("3\n"), ok("5\n")]);

    let manifest = graded(&backend, request(&package, b"module")).unwrap();
    assert_eq!(manifest.verdict, Verdict::Accepted);
    assert_eq!(manifest.tests.len(), 2);
    assert_eq!(
        manifest.trial_version, 3,
        "the verdict is tied to a content version"
    );
    assert!(manifest
        .tests
        .iter()
        .all(|t| t.verdict == Verdict::Accepted));
}

#[test]
fn compile_once_run_many_executes_the_same_module_per_case() {
    let package = package(
        vec![
            case("public-1", Visibility::Public, "1\n"),
            case("public-2", Visibility::Public, "2\n"),
            case("public-3", Visibility::Public, "3\n"),
        ],
        true,
    );
    let backend = ScriptedBackend::new(vec![ok("1\n"), ok("2\n"), ok("3\n")]);

    let manifest = graded(&backend, request(&package, b"module")).unwrap();
    assert_eq!(manifest.verdict, Verdict::Accepted);
    assert_eq!(
        backend.calls(),
        3,
        "one execution per case, one compilation for all"
    );
    assert!(backend
        .calls
        .lock()
        .unwrap()
        .iter()
        .all(|(module, _)| module == b"module"));
    assert_eq!(
        manifest.compile_ms, 850,
        "compilation is not repeated per case"
    );
}

#[test]
fn public_cases_run_before_hidden_ones() {
    let package = package(
        vec![
            case("z-hidden", Visibility::Hidden, "h\n"),
            case("a-public", Visibility::Public, "p\n"),
        ],
        false,
    );
    let backend = ScriptedBackend::new(vec![ok("p\n"), ok("h\n")]);

    let manifest = graded(&backend, request(&package, b"module")).unwrap();
    let ids: Vec<&str> = manifest.tests.iter().map(|t| t.test_id.as_str()).collect();
    assert_eq!(
        ids,
        ["a-public", "z-hidden"],
        "a learner sees the actionable failure first"
    );
}

#[test]
fn fail_fast_stops_at_the_first_user_failure() {
    let package = package(
        vec![
            case("public-1", Visibility::Public, "1\n"),
            case("public-2", Visibility::Public, "2\n"),
            case("public-3", Visibility::Public, "3\n"),
        ],
        true,
    );
    let backend = ScriptedBackend::new(vec![ok("1\n"), ok("wrong\n")]);

    let manifest = graded(&backend, request(&package, b"module")).unwrap();
    assert_eq!(manifest.verdict, Verdict::WrongAnswer);
    assert_eq!(manifest.tests.len(), 2);
    assert_eq!(backend.calls(), 2);
}

#[test]
fn without_fail_fast_every_case_runs() {
    let package = package(
        vec![
            case("public-1", Visibility::Public, "1\n"),
            case("public-2", Visibility::Public, "2\n"),
            case("public-3", Visibility::Public, "3\n"),
        ],
        false,
    );
    let backend = ScriptedBackend::new(vec![ok("wrong\n"), ok("2\n"), ok("wrong\n")]);

    let manifest = graded(&backend, request(&package, b"module")).unwrap();
    assert_eq!(manifest.verdict, Verdict::WrongAnswer);
    assert_eq!(manifest.tests.len(), 3);
}

#[test]
fn a_system_fault_dominates_and_stops_the_run_immediately() {
    let package = package(
        vec![
            case("public-1", Visibility::Public, "1\n"),
            case("public-2", Visibility::Public, "2\n"),
            case("public-3", Visibility::Public, "3\n"),
        ],
        false,
    );
    // The first case is a plain wrong answer; the second cannot be executed.
    let backend = ScriptedBackend::new(vec![
        ok("wrong\n"),
        Err(JudgeError::Infrastructure(
            "object store unreachable".into(),
        )),
    ]);

    let error = graded(&backend, request(&package, b"module")).unwrap_err();
    assert_eq!(
        error.verdict(),
        Verdict::InternalError,
        "a submission we could not judge must not be reported as wrong"
    );
    assert!(error.is_retryable());
}

#[test]
fn cache_corruption_produces_a_retryable_internal_error_not_a_wrong_answer() {
    let package = package(vec![case("public-1", Visibility::Public, "1\n")], true);
    let backend = ScriptedBackend::new(vec![Err(JudgeError::CacheIntegrity {
        cid: "b3:abc".into(),
        detail: "hash mismatch".into(),
    })]);

    let error = graded(&backend, request(&package, b"module")).unwrap_err();
    assert_eq!(error.verdict(), Verdict::InternalError);
    assert!(error.is_retryable());
}

#[test]
fn limit_violations_map_to_their_own_verdicts() {
    for (violation, expected) in [
        (LimitViolation::Wall, Verdict::TimeLimitExceeded),
        (LimitViolation::Fuel, Verdict::TimeLimitExceeded),
        (LimitViolation::Memory, Verdict::MemoryLimitExceeded),
        (LimitViolation::Output, Verdict::OutputLimitExceeded),
    ] {
        let package = package(vec![case("public-1", Visibility::Public, "1\n")], true);
        let backend = ScriptedBackend::new(vec![limit(violation)]);
        let manifest = graded(&backend, request(&package, b"module")).unwrap();
        assert_eq!(manifest.verdict, expected, "{violation:?}");
        assert!(
            manifest.tests[0].detail.is_some(),
            "a learner needs to know which limit"
        );
    }
}

#[test]
fn an_unqualified_backend_never_receives_the_module() {
    let package = package(vec![case("public-1", Visibility::Public, "1\n")], true);
    let backend = ScriptedBackend::unqualified();

    let error = graded(&backend, request(&package, b"module")).unwrap_err();
    assert_eq!(error.verdict(), Verdict::JudgeError);
    assert_eq!(
        backend.calls(),
        0,
        "the module must not reach an unqualified backend"
    );
}

#[test]
fn a_malformed_package_is_rejected_before_anything_executes() {
    let mut package = package(vec![case("public-1", Visibility::Public, "1\n")], true);
    package.format_version = 99;
    let backend = ScriptedBackend::new(vec![ok("1\n")]);

    let error = graded(&backend, request(&package, b"module")).unwrap_err();
    assert_eq!(error.verdict(), Verdict::JudgeError);
    assert_eq!(backend.calls(), 0);
}

#[test]
fn hidden_case_reasons_must_be_redacted_before_publication() {
    let package = package(
        vec![
            case("public-1", Visibility::Public, "1\n"),
            case("hidden-secret", Visibility::Hidden, "9973\n"),
        ],
        false,
    );
    let backend = ScriptedBackend::new(vec![ok("1\n"), ok("9971\n")]);

    let manifest = graded(&backend, request(&package, b"module")).unwrap();
    assert_eq!(manifest.verdict, Verdict::WrongAnswer);
    assert!(
        !is_safe_for_submitter(&manifest),
        "the raw manifest carries the hidden answer and must not be published"
    );

    let redacted = manifest.redacted_for_submitter();
    assert!(is_safe_for_submitter(&redacted));
    let json = redacted.canonical_json();
    assert!(!json.contains("9973"), "expected answer leaked: {json}");
    assert!(
        !json.contains("9971"),
        "submitted answer leaked from a hidden case: {json}"
    );
    assert!(!json.contains("hidden-secret"));
}

#[test]
fn compile_errors_preserve_raw_diagnostics_verbatim() {
    let package = package(vec![case("public-1", Visibility::Public, "1\n")], true);
    let raw = "error[E0382]: borrow of moved value: `s`\n --> src/main.rs:4:20\n";

    let manifest =
        manifest_for_compile_error("job-1", "b3:package", &package, raw.to_owned(), 420);
    assert_eq!(manifest.verdict, Verdict::CompileError);
    assert_eq!(
        manifest.compiler_diagnostics.as_deref(),
        Some(raw),
        "rustc output must survive byte for byte; explaining it is the UI's job"
    );
    assert!(manifest.tests.is_empty());
}

#[test]
fn a_judge_error_becomes_a_manifest_with_the_errors_own_verdict() {
    let package = package(vec![case("public-1", Visibility::Public, "1\n")], true);
    let error = JudgeError::Infrastructure("queue unreachable".into());
    let manifest = manifest_for_error("job-1", "b3:package", &package, &error);

    assert_eq!(manifest.verdict, Verdict::InternalError);
    assert_ne!(manifest.verdict, Verdict::CompileError);
    assert_eq!(manifest.trial_version, package.version);
}

#[test]
fn crashes_are_explained_to_the_learner() {
    let details: Vec<(TerminationReason, &str)> = vec![
        (
            TerminationReason::Exited { code: 101 },
            "the program exited with code 101",
        ),
        (
            TerminationReason::Trapped {
                detail: "wasm `unreachable` instruction executed".into(),
            },
            "the program aborted: wasm `unreachable` instruction executed",
        ),
    ];
    for (termination, shown) in details {
        let package = package(vec![case("public-1", Visibility::Public, "1\n")], true);
        let backend = ScriptedBackend::new(vec![ran(termination, "1\n")]);
        let manifest = graded(&backend, request(&package, b"module")).unwrap();
        assert_eq!(manifest.verdict, Verdict::RuntimeError);
        assert_eq!(manifest.tests[0].detail.as_deref(), Some(shown));
    }
}

#[test]
fn every_limit_is_explained_in_its_own_words() {
    for (violation, shown) in [
        (
            LimitViolation::Wall,
            "the program ran longer than the time limit",
        ),
        (
            LimitViolation::Fuel,
            "the program did more work than the limit allows",
        ),
        (
            LimitViolation::Memory,
            "the program tried to use more memory than the limit allows",
        ),
        (
            LimitViolation::Output,
            "the program printed more than the output limit allows",
        ),
    ] {
        let test = case("a", Visibility::Public, "1\n");
        let outcome = limit(violation).unwrap();
        let judged = judge_case(&Checker::Exact, &test, &outcome, &vec![]).unwrap();
        assert_eq!(judged.detail.as_deref(), Some(shown));
    }
}

#[test]
fn numbers_are_read_only_where_a_case_compares_them() {
    let mut package = package(
        vec![
            case("a", Visibility::Public, "1.0 2.0"),
            case("b", Visibility::Public, "3.0"),
        ],
        false,
    );
    package.checker = Checker::Float {
        absolute: 0.5_f64.to_bits(),
        relative: 0.0_f64.to_bits(),
    };
    let backend = ScriptedBackend::new(vec![ok("1.25 2.25"), ok("3.75")]);
    let asked = Mutex::new(vec![]);
    let manifest = grade(
        &backend,
        request(&package, b"module"),
        |want: String, got: String, absolute: u64, relative: u64| {
            let read = |token: &str| {
                token.parse::<f64>().ok().map(|value| FloatValue {
                    bits: value.to_bits(),
                    shown: value.to_string(),
                })
            };
            let (w, g): (f64, f64) = (want.parse().unwrap(), got.parse().unwrap());
            let difference = (w - g).abs();
            let tolerance = f64::from_bits(absolute).max(f64::from_bits(relative) * w.abs());
            let reading = FloatReading {
                want: read(&want),
                got: read(&got),
                exceeds: difference > tolerance,
                difference: format!("{difference:.3e}"),
                tolerance: format!("{tolerance:.3e}"),
            };
            asked.lock().unwrap().push((want, got));
            reading
        },
    )
    .unwrap();
    assert_eq!(
        *asked.lock().unwrap(),
        [
            ("1.0".to_owned(), "1.25".to_owned()),
            ("2.0".to_owned(), "2.25".to_owned()),
            ("3.0".to_owned(), "3.75".to_owned()),
        ]
    );
    assert_eq!(manifest.tests[0].verdict, Verdict::Accepted);
    assert_eq!(manifest.tests[1].verdict, Verdict::WrongAnswer);
    assert_eq!(
        manifest.tests[1].detail.as_deref(),
        Some("value 1: expected 3, got 3.75 (difference 7.500e-1 exceeds tolerance 5.000e-1)")
    );
    assert_eq!(manifest.verdict, Verdict::WrongAnswer);
}

#[test]
fn one_case_is_judged_by_how_it_ended_first() {
    let test = case("a", Visibility::Public, "1\n");
    let outcome = ran(TerminationReason::Exited { code: 3 }, "1\n").unwrap();
    let judged = judge_case(&Checker::Exact, &test, &outcome, &vec![]).unwrap();
    assert_eq!(judged.verdict, Verdict::RuntimeError);
    assert_eq!(judged.test_id, "a");
    assert_eq!(judged.wall_ms, 1);
    let outcome = ok("1\n").unwrap();
    let judged = judge_case(&Checker::Exact, &test, &outcome, &vec![]).unwrap();
    assert_eq!(judged.verdict, Verdict::Accepted);
    assert_eq!(judged.detail, None);
}

#[test]
fn a_request_can_be_graded_twice() {
    let package = package(vec![case("a", Visibility::Public, "1\n")], true);
    let mut first = request(&package, b"module");
    first.compiler_diagnostics = Some("warning".into());
    let second = first.clone();
    let backend = ScriptedBackend::new(vec![ok("1\n"), ok("1\n")]);
    let a = graded(&backend, first).unwrap();
    let b = graded(&backend, second).unwrap();
    assert_eq!(a, b);
    assert_eq!(a.compiler_diagnostics.as_deref(), Some("warning"));
}

#[test]
fn an_exact_comparison_is_one_of_bytes() {
    let test = case("a", Visibility::Public, "x\u{fffd}y");
    let mut outcome = ok("x\u{fffd}y").unwrap();
    let judged = judge_case(&Checker::Exact, &test, &outcome, &vec![]).unwrap();
    assert_eq!(judged.verdict, Verdict::Accepted);

    // Decoded, these bytes read the same; they are not the same.
    outcome.stdout = vec![b'x', 0xff, b'y'];
    assert_eq!(outcome.stdout_lossy(), "x\u{fffd}y");
    let judged = judge_case(&Checker::Exact, &test, &outcome, &vec![]).unwrap();
    assert_eq!(judged.verdict, Verdict::WrongAnswer);
    assert_eq!(
        judged.detail.as_deref(),
        Some("first difference at byte 1 (expected 5 bytes, got 3)")
    );
    let judged = judge_case(&Checker::Tokens, &test, &outcome, &vec![]).unwrap();
    assert_eq!(judged.verdict, Verdict::Accepted);

    let test = case("a", Visibility::Public, "xyz");
    let judged = judge_case(&Checker::Exact, &test, &outcome, &vec![]).unwrap();
    assert_eq!(
        judged.detail.as_deref(),
        Some("first difference at byte 1 (expected 3 bytes, got 5)")
    );
}

fn grouped(id: &str, group: &str, expected: &str) -> TestCase {
    TestCase {
        group: Some(group.into()),
        ..case(id, Visibility::Public, expected)
    }
}

fn group(name: &str, fail_fast: bool) -> Group {
    Group {
        name: name.into(),
        points: 1,
        fail_fast,
    }
}

fn ids(manifest: &ResultManifest) -> Vec<&str> {
    manifest.tests.iter().map(|t| t.test_id.as_str()).collect()
}

#[test]
fn a_group_stops_at_its_first_failure() {
    let mut package = package(vec![grouped("a", "g", "1\n"), grouped("b", "g", "2\n")], false);
    package.groups = vec![group("g", true)];
    let backend = ScriptedBackend::new(vec![ok("wrong\n")]);

    let manifest = graded(&backend, request(&package, b"module")).unwrap();
    assert_eq!(backend.calls(), 1);
    assert_eq!(ids(&manifest), ["a"]);
    assert_eq!(manifest.verdict, Verdict::WrongAnswer);
}

#[test]
fn a_group_stops_for_itself_alone() {
    let mut package = package(
        vec![
            grouped("a", "fast", "1\n"),
            grouped("b", "slow", "2\n"),
            grouped("c", "fast", "3\n"),
            grouped("d", "slow", "4\n"),
            case("e", Visibility::Public, "5\n"),
            grouped("f", "fast", "6\n"),
        ],
        false,
    );
    package.groups = vec![group("fast", true), group("slow", false)];
    let backend = ScriptedBackend::new(vec![
        ok("1\n"),
        ok("wrong\n"),
        ok("wrong\n"),
        ok("4\n"),
        ok("5\n"),
    ]);

    let manifest = graded(&backend, request(&package, b"module")).unwrap();
    assert_eq!(ids(&manifest), ["a", "b", "c", "d", "e"]);
    assert_eq!(manifest.verdict, Verdict::WrongAnswer);
    assert_eq!(manifest.execution_ms, 5);
}

#[test]
fn a_checker_that_cannot_run_stops_the_grading() {
    let mut package = package(vec![case("a", Visibility::Public, "1\n")], true);
    package.checker = Checker::Custom {
        module_cid: "b3:abc".into(),
    };
    let backend = ScriptedBackend::new(vec![ok("1\n")]);
    let error = graded(&backend, request(&package, b"module")).unwrap_err();
    assert_eq!(error.verdict(), Verdict::JudgeError);
}
