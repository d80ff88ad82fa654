//! Verdicts, errors, and limits.

use std::collections::HashSet;

use rustly_judge::error::JudgeError;
use rustly_judge::limits::{LimitViolation, Limits};
use rustly_judge::verdict::{Verdict, VerdictClass};

#[test]
fn codes_are_stable_and_distinct() {
    let codes: Vec<_> = Verdict::ALL.iter().map(|v| v.code()).collect();
    assert_eq!(
        codes,
        ["AC", "CE", "WA", "TLE", "MLE", "OLE", "RTE", "JE", "IE", "SE"]
    );
    assert_eq!(codes.iter().collect::<HashSet<_>>().len(), 10);
}

#[test]
fn a_verdict_is_shown_as_its_code() {
    for v in Verdict::ALL {
        assert_eq!(v.to_string(), v.code());
    }
}

#[test]
fn infrastructure_failure_is_never_user_fault() {
    for v in [Verdict::JudgeError, Verdict::InternalError] {
        assert_eq!(v.class(), VerdictClass::SystemFault);
        assert!(v.is_retryable());
    }
}

#[test]
fn a_system_fault_dominates_a_wrong_answer() {
    assert_eq!(
        Verdict::WrongAnswer.worst(Verdict::InternalError),
        Verdict::InternalError
    );
    assert_eq!(
        Verdict::InternalError.worst(Verdict::WrongAnswer),
        Verdict::InternalError
    );
    assert_eq!(
        Verdict::Accepted.worst(Verdict::JudgeError),
        Verdict::JudgeError
    );
}

#[test]
fn a_user_fault_dominates_accepted_and_the_first_failure_wins() {
    assert_eq!(
        Verdict::Accepted.worst(Verdict::WrongAnswer),
        Verdict::WrongAnswer
    );
    assert_eq!(
        Verdict::TimeLimitExceeded.worst(Verdict::WrongAnswer),
        Verdict::TimeLimitExceeded,
        "the earliest failing test is the one the user is shown"
    );
}

#[test]
fn accepted_folds_to_accepted() {
    let verdict = [Verdict::Accepted; 5]
        .into_iter()
        .fold(Verdict::Accepted, Verdict::worst);
    assert_eq!(verdict, Verdict::Accepted);
}

#[test]
fn a_security_event_is_the_users_problem_not_a_retry() {
    assert_eq!(Verdict::SecurityEvent.class(), VerdictClass::UserFault);
    assert!(!Verdict::SecurityEvent.is_retryable());
}

#[test]
fn the_grouping_of_verdicts_does_not_matter() {
    for a in Verdict::ALL {
        for b in Verdict::ALL {
            for c in Verdict::ALL {
                assert_eq!(a.worst(b).worst(c), a.worst(b.worst(c)));
            }
        }
        assert_eq!(Verdict::Accepted.worst(a), a);
        assert_eq!(a.worst(Verdict::Accepted), a);
    }
}

#[test]
fn no_judge_error_can_ever_become_ce_or_wa() {
    let errors = [
        JudgeError::MalformedPackage("missing tests".into()),
        JudgeError::CheckerFailure("panicked".into()),
        JudgeError::Sandbox("engine init".into()),
        JudgeError::Infrastructure("object store unreachable".into()),
        JudgeError::CacheIntegrity {
            cid: "b3:x".into(),
            detail: "hash mismatch".into(),
        },
        JudgeError::SecurityPolicy("attempted socket open".into()),
    ];
    for error in errors {
        let verdict = error.verdict();
        assert_ne!(verdict, Verdict::CompileError, "{}", error.to_string());
        assert_ne!(verdict, Verdict::WrongAnswer, "{}", error.to_string());
    }
}

#[test]
fn cache_corruption_is_retryable_infrastructure_not_a_user_verdict() {
    let error = JudgeError::CacheIntegrity {
        cid: "b3:deadbeef".into(),
        detail: "hash mismatch".into(),
    };
    assert_eq!(error.verdict(), Verdict::InternalError);
    assert!(
        error.is_retryable(),
        "a disposable cache must cause a clean retry"
    );
}

#[test]
fn package_and_checker_faults_are_judge_errors() {
    assert_eq!(
        JudgeError::MalformedPackage("x".into()).verdict(),
        Verdict::JudgeError
    );
    assert_eq!(
        JudgeError::CheckerFailure("x".into()).verdict(),
        Verdict::JudgeError
    );
    assert_eq!(
        JudgeError::Sandbox("x".into()).verdict(),
        Verdict::JudgeError
    );
}

#[test]
fn a_security_policy_trip_is_not_retried() {
    let error = JudgeError::SecurityPolicy("network syscall".into());
    assert_eq!(error.verdict(), Verdict::SecurityEvent);
    assert_eq!(error.verdict().class(), VerdictClass::UserFault);
    assert!(
        !error.is_retryable(),
        "retrying a policy violation just repeats it"
    );
}

#[test]
fn errors_are_shown_as_sentences() {
    let shown = [
        (
            JudgeError::MalformedPackage("a".into()),
            "malformed problem package: a",
        ),
        (JudgeError::CheckerFailure("b".into()), "checker failed: b"),
        (JudgeError::Sandbox("c".into()), "sandbox failure: c"),
        (
            JudgeError::Infrastructure("d".into()),
            "infrastructure failure: d",
        ),
        (
            JudgeError::CacheIntegrity {
                cid: "e".into(),
                detail: "f".into(),
            },
            "cache integrity failure for e: f",
        ),
        (
            JudgeError::SecurityPolicy("g".into()),
            "security policy tripped: g",
        ),
    ];
    for (error, sentence) in shown {
        assert_eq!(error.to_string(), sentence);
        assert_eq!(error.duplicate(), error);
    }
}

#[test]
fn defaults_bound_every_dimension() {
    let l = Limits::default();
    assert!(l.validate().is_ok());
    for value in [
        l.wall_ms,
        l.memory_bytes,
        l.output_bytes,
        l.fuel,
        l.instances,
    ] {
        assert!(value > 0);
    }
}

#[test]
fn a_zero_bound_is_malformed_not_unlimited() {
    for mutate in [
        (|l: &mut Limits| l.wall_ms = 0) as fn(&mut Limits),
        |l| l.memory_bytes = 0,
        |l| l.output_bytes = 0,
        |l| l.fuel = 0,
        |l| l.instances = 0,
    ] {
        let mut limits = Limits::default();
        mutate(&mut limits);
        assert!(
            limits.validate().is_err(),
            "a zeroed bound must be rejected"
        );
    }
}

#[test]
fn each_missing_bound_has_its_own_complaint() {
    let cases = [
        (
            (|l: &mut Limits| l.wall_ms = 0) as fn(&mut Limits),
            "wall_ms must be greater than zero",
        ),
        (|l| l.memory_bytes = 0, "memory_bytes must be greater than zero"),
        (|l| l.output_bytes = 0, "output_bytes must be greater than zero"),
        (|l| l.fuel = 0, "fuel must be greater than zero"),
        (|l| l.instances = 0, "instances must be greater than zero"),
    ];
    for (mutate, complaint) in cases {
        let mut limits = Limits::default();
        mutate(&mut limits);
        assert_eq!(limits.validate(), Err(complaint));
    }
    let mut limits = Limits::default();
    limits.table_elements = 0;
    assert!(limits.validate().is_ok());
}

#[test]
fn each_violation_maps_to_its_own_verdict() {
    assert_eq!(LimitViolation::Wall.verdict(), Verdict::TimeLimitExceeded);
    assert_eq!(LimitViolation::Fuel.verdict(), Verdict::TimeLimitExceeded);
    assert_eq!(
        LimitViolation::Memory.verdict(),
        Verdict::MemoryLimitExceeded
    );
    assert_eq!(
        LimitViolation::Output.verdict(),
        Verdict::OutputLimitExceeded
    );
}

#[test]
fn no_violation_is_ever_a_system_fault() {
    for v in [
        LimitViolation::Wall,
        LimitViolation::Fuel,
        LimitViolation::Memory,
        LimitViolation::Output,
    ] {
        assert!(
            !v.verdict().is_retryable(),
            "{v:?} is the user's program, not our failure"
        );
    }
}

#[test]
fn tiny_limits_are_valid_and_smaller_than_the_defaults() {
    let tiny = Limits::tiny();
    assert!(tiny.validate().is_ok());
    assert!(tiny.fuel < Limits::default().fuel);
    assert!(tiny.memory_bytes < Limits::default().memory_bytes);
}
