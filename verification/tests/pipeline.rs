//! The pipeline, with everything outside it scripted.

use rustly_judge::artifacts::ArtifactSource;
use rustly_judge::backend::{
    ExecutionBackend, ExecutionOutcome, ExecutionRequest, TerminationReason,
};
use rustly_judge::cache::{FileRead, TextRead};
use rustly_judge::compile::{CompileBackend, CompileOutput};
use rustly_judge::digest::cid;
use rustly_judge::error::JudgeError;
use rustly_judge::limits::Limits;
use rustly_judge::pipeline::{run_job, JobContext, JobHost, JobReport};
use rustly_judge::problem_format::{
    Checker, Environment, Mode, Scoring, TestCase, TrialPackage, Visibility, FORMAT_VERSION,
};
use rustly_judge::protocol::TrustClass;
use rustly_judge::verdict::Verdict;
use rustly_judge::worker::{align_with_package, local_job};

struct Objects;

impl ArtifactSource for Objects {
    fn fetch(&self, asked: &str) -> Result<Vec<u8>, JudgeError> {
        for object in [&b"package"[..], b"source"] {
            if cid(object) == asked {
                return Ok(object.to_vec());
            }
        }
        Err(JudgeError::Infrastructure("not found".into()))
    }
}

/// A compiler that always comes to the same.
struct Compiler(Result<CompileOutput, JudgeError>);

impl CompileBackend for Compiler {
    fn id(&self) -> &'static str {
        "scripted"
    }

    fn is_qualified_for_untrusted_code(&self) -> bool {
        true
    }

    fn compile(&self, source: &[u8], environment_id: &str) -> Result<CompileOutput, JudgeError> {
        assert_eq!(source, b"source");
        assert_eq!(environment_id, "rust-1.88-wasm32-wasip1");
        match &self.0 {
            Ok(output) => Ok(output.clone()),
            Err(error) => Err(error.duplicate()),
        }
    }
}

struct Printer;

impl ExecutionBackend for Printer {
    fn id(&self) -> &'static str {
        "printer"
    }

    fn is_qualified_for_untrusted_code(&self) -> bool {
        true
    }

    fn execute(&self, request: ExecutionRequest<'_>) -> Result<ExecutionOutcome, JudgeError> {
        Ok(ExecutionOutcome {
            termination: TerminationReason::Exited { code: 0 },
            stdout: request.module.to_vec(),
            stderr: vec![],
            wall_ms: 1,
            fuel_consumed: None,
            peak_memory_bytes: 0,
        })
    }
}

fn package() -> TrialPackage {
    TrialPackage {
        format_version: FORMAT_VERSION,
        slug: "s".into(),
        version: 1,
        mode: Mode::Batch,
        environment: Environment::default(),
        limits: Limits::default(),
        checker: Checker::Exact,
        scoring: Scoring::AllOrNothing,
        fail_fast: true,
        groups: vec![],
        tests: vec![TestCase {
            id: "a".into(),
            visibility: Visibility::Public,
            stdin: String::new(),
            expected_stdout: "module".into(),
            args: vec![],
            group: None,
            limits: None,
        }],
    }
}

fn judge(compiled: Result<CompileOutput, JudgeError>) -> Result<JobReport, JudgeError> {
    let spec = align_with_package(
        local_job(&cid(b"source"), &cid(b"package"), TrustClass::Trusted, false),
        &package(),
    );
    run_job(
        &JobContext {
            artifacts: &Objects,
            compiler: &Compiler(compiled),
            sandbox: &Printer,
            cache: None,
            trust_class: TrustClass::Trusted,
            worker_id: "w",
        },
        JobHost {
            decode: |bytes: Vec<u8>| {
                assert_eq!(bytes, b"package");
                Ok(package())
            },
            clock: || 5_000_000,
            elapsed: |since: u128| {
                assert_eq!(since, 5_000_000);
                850_999_999
            },
            read_text: |_| TextRead::Missing,
            read_file: |_| FileRead::Missing,
            read_values: |_, _, _, _| panic!("no case here compares numbers"),
        },
        &spec,
    )
    .result
}

#[test]
fn what_a_compiler_refuses_as_policy_is_reported() {
    let report = judge(Err(JudgeError::SecurityPolicy("source is too large".into()))).unwrap();
    assert_eq!(report.verdict(), Verdict::SecurityEvent);
    assert!(report.manifest.tests.is_empty());
    assert!(!report.manifest.used_cached_artifact);
    assert_eq!(report.manifest.job_id, "local");
}

/// Backends and a source that must not be asked for anything.
struct Untouched;

impl ArtifactSource for Untouched {
    fn fetch(&self, asked: &str) -> Result<Vec<u8>, JudgeError> {
        panic!("{asked} must not be fetched")
    }
}

impl CompileBackend for Untouched {
    fn id(&self) -> &'static str {
        "untouched"
    }

    fn is_qualified_for_untrusted_code(&self) -> bool {
        false
    }

    fn compile(&self, _source: &[u8], _environment: &str) -> Result<CompileOutput, JudgeError> {
        panic!("an unqualified compiler must not be given source")
    }
}

impl ExecutionBackend for Untouched {
    fn id(&self) -> &'static str {
        "untouched"
    }

    fn is_qualified_for_untrusted_code(&self) -> bool {
        false
    }

    fn execute(&self, _request: ExecutionRequest<'_>) -> Result<ExecutionOutcome, JudgeError> {
        panic!("an unqualified backend must not be handed a module")
    }
}

fn judge_with<A: ArtifactSource, C: CompileBackend, S: ExecutionBackend>(
    artifacts: &A,
    compiler: &C,
    sandbox: &S,
) -> Result<JobReport, JudgeError> {
    let spec = align_with_package(
        local_job(&cid(b"source"), &cid(b"package"), TrustClass::Trusted, false),
        &package(),
    );
    let run = run_job(
        &JobContext {
            artifacts,
            compiler,
            sandbox,
            cache: None,
            trust_class: TrustClass::Trusted,
            worker_id: "w",
        },
        JobHost {
            decode: |_| Ok(package()),
            clock: || 0,
            elapsed: |_| 0,
            read_text: |_| TextRead::Missing,
            read_file: |_| FileRead::Missing,
            read_values: |_, _, _, _| panic!("no case here compares numbers"),
        },
        &spec,
    );
    assert!(run.steps.is_empty());
    run.result
}

#[test]
fn an_unqualified_compiler_is_refused_without_being_asked() {
    assert_eq!(
        judge_with(&Untouched, &Untouched, &Untouched).unwrap_err(),
        JudgeError::SecurityPolicy(
            "compiler backend untouched is not qualified for submitted source".into()
        )
    );
}

#[test]
fn an_unqualified_sandbox_is_refused_without_being_asked() {
    let compiler = Compiler(Ok(CompileOutput::Module {
        bytes: b"module".to_vec(),
        diagnostics: None,
    }));
    assert_eq!(
        judge_with(&Objects, &compiler, &Untouched).unwrap_err(),
        JudgeError::Sandbox("backend `untouched` is not qualified for untrusted code".into())
    );
}

#[test]
fn what_a_compiler_fails_at_is_retried() {
    for error in [
        JudgeError::Infrastructure("no docker".into()),
        JudgeError::MalformedPackage("pinned for another environment".into()),
    ] {
        let again = error.duplicate();
        assert_eq!(judge(Err(error)).unwrap_err(), again);
    }
}

#[test]
fn what_a_compiler_makes_is_run() {
    let module = |bytes: &[u8]| CompileOutput::Module {
        bytes: bytes.to_vec(),
        diagnostics: Some("warning".into()),
    };
    let report = judge(Ok(module(b"module"))).unwrap();
    assert_eq!(report.verdict(), Verdict::Accepted);
    assert_eq!(report.manifest.compiler_diagnostics.as_deref(), Some("warning"));
    let report = judge(Ok(module(b"other"))).unwrap();
    assert_eq!(report.verdict(), Verdict::WrongAnswer);
    let report = judge(Ok(CompileOutput::Failed {
        diagnostics: "error".into(),
    }))
    .unwrap();
    assert_eq!(report.verdict(), Verdict::CompileError);
}

#[test]
fn compilation_is_timed_from_its_start() {
    let output = CompileOutput::Module {
        bytes: b"module".to_vec(),
        diagnostics: None,
    };
    assert_eq!(judge(Ok(output)).unwrap().manifest.compile_ms, 850);
    let output = CompileOutput::Failed {
        diagnostics: "error".into(),
    };
    assert_eq!(judge(Ok(output)).unwrap().manifest.compile_ms, 850);
}
