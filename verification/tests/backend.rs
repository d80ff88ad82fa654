//! The execution-backend abstraction, and the native backend.

use rustly_judge::backend::{
    ensure_qualified, ExecutionBackend, ExecutionOutcome, ExecutionRequest, TerminationReason,
};
use rustly_judge::error::JudgeError;
use rustly_judge::limits::{LimitViolation, Limits};
use rustly_judge::native::NativeBackend;
use rustly_judge::verdict::Verdict;

fn outcome(termination: TerminationReason) -> ExecutionOutcome {
    ExecutionOutcome {
        termination,
        stdout: b"hello".to_vec(),
        stderr: vec![],
        wall_ms: 1,
        fuel_consumed: Some(10),
        peak_memory_bytes: 65_536,
    }
}

#[test]
fn a_clean_exit_leaves_the_verdict_to_the_checker() {
    let o = outcome(TerminationReason::Exited { code: 0 });
    assert_eq!(o.termination_verdict(), None);
    assert!(o.is_clean_exit());
    assert_eq!(o.stdout_lossy(), "hello");
}

#[test]
fn a_non_zero_exit_or_trap_is_a_runtime_error() {
    assert_eq!(
        outcome(TerminationReason::Exited { code: 101 }).termination_verdict(),
        Some(Verdict::RuntimeError)
    );
    assert_eq!(
        outcome(TerminationReason::Trapped {
            detail: "unreachable".into()
        })
        .termination_verdict(),
        Some(Verdict::RuntimeError)
    );
}

#[test]
fn limit_violations_carry_their_own_verdicts() {
    for (violation, expected) in [
        (LimitViolation::Wall, Verdict::TimeLimitExceeded),
        (LimitViolation::Fuel, Verdict::TimeLimitExceeded),
        (LimitViolation::Memory, Verdict::MemoryLimitExceeded),
        (LimitViolation::Output, Verdict::OutputLimitExceeded),
    ] {
        let o = outcome(TerminationReason::LimitExceeded { violation });
        assert_eq!(o.termination_verdict(), Some(expected));
    }
}

struct Unqualified;

impl ExecutionBackend for Unqualified {
    fn id(&self) -> &'static str {
        "unqualified"
    }
    fn is_qualified_for_untrusted_code(&self) -> bool {
        false
    }
    fn execute(&self, _: ExecutionRequest<'_>) -> Result<ExecutionOutcome, JudgeError> {
        panic!("must never be reached");
    }
}

#[test]
fn an_unqualified_backend_is_refused_before_it_sees_user_code() {
    let error = ensure_qualified(&Unqualified).unwrap_err();
    assert_eq!(error.verdict(), Verdict::JudgeError);
    assert!(error.to_string().contains("not qualified"));
    assert_eq!(
        error.to_string(),
        "sandbox failure: backend `unqualified` is not qualified for untrusted code"
    );
}

#[test]
fn output_that_is_not_text_is_read_as_far_as_it_is() {
    let mut o = outcome(TerminationReason::Exited { code: 0 });
    o.stdout = b"a\xffb".to_vec();
    assert_eq!(o.stdout_lossy(), "a\u{fffd}b");
    assert_eq!(o.clone(), o);
    o.termination = TerminationReason::Exited { code: 1 };
    assert!(!o.is_clean_exit());
}

#[test]
fn the_native_backend_never_claims_to_be_safe() {
    assert!(!NativeBackend.is_qualified_for_untrusted_code());
    assert_eq!(NativeBackend.id(), "native");
}

#[test]
fn it_refuses_to_execute_rather_than_pretending_to_work() {
    let error = NativeBackend
        .execute(ExecutionRequest {
            module: b"\0asm",
            stdin: b"",
            args: &[],
            limits: Limits::default(),
        })
        .expect_err("an unqualified backend must never execute");
    assert_eq!(error.verdict(), Verdict::JudgeError);
    assert!(error.to_string().contains("EXPERIMENTAL"));
    assert!(error.to_string().contains(&format!(
        "{} requirements remain unmet",
        NativeBackend::QUALIFICATION_REQUIREMENTS.len()
    )));
}

#[test]
fn the_qualification_gate_stops_it_before_it_sees_user_code() {
    let error = ensure_qualified(&NativeBackend).unwrap_err();
    assert!(error.to_string().contains("not qualified"));
}

#[test]
fn the_qualification_checklist_is_not_quietly_emptied() {
    // If someone shortens this list, they are asserting a requirement is
    // unnecessary. That should be a visible diff.
    assert_eq!(NativeBackend::QUALIFICATION_REQUIREMENTS.len(), 9);
    assert!(NativeBackend::QUALIFICATION_REQUIREMENTS
        .iter()
        .any(|r| r.contains("seccomp")));
    assert!(NativeBackend::QUALIFICATION_REQUIREMENTS
        .iter()
        .any(|r| r.contains("independent review")));
}
