//! The decisions of the sandbox, without an engine.

use rustly_judge::backend::TerminationReason;
use rustly_judge::error::JudgeError;
use rustly_judge::limits::{LimitViolation, Limits};
use rustly_judge::sandbox::{
    admit_limits, classify, conclude_execution, interpret, step_error, CappedSink, GuestFault,
    MemoryLimiter, SandboxStep, SinkError, Trapish,
};
use rustly_judge::verdict::Verdict;

#[test]
fn sentinel_errors_are_interpreted_as_guest_outcomes_not_judge_failures() {
    assert!(matches!(
        interpret(JudgeError::Sandbox("__exit:0".into())).unwrap(),
        Trapish::Exited(0)
    ));
    assert!(matches!(
        interpret(JudgeError::Sandbox("__exit:101".into())).unwrap(),
        Trapish::Exited(101)
    ));
    assert!(matches!(
        interpret(JudgeError::Sandbox("__limit:fuel".into())).unwrap(),
        Trapish::Limit(LimitViolation::Fuel)
    ));
    assert!(matches!(
        interpret(JudgeError::Sandbox("__limit:wall".into())).unwrap(),
        Trapish::Limit(LimitViolation::Wall)
    ));
    assert!(matches!(
        interpret(JudgeError::Sandbox("__trap:unreachable".into())).unwrap(),
        Trapish::Trap(_)
    ));
}

#[test]
fn a_real_judge_failure_is_not_swallowed_by_the_sentinel_channel() {
    let error = JudgeError::Infrastructure("object store unreachable".into());
    assert!(interpret(error).is_err());
    assert!(interpret(JudgeError::Sandbox("engine configuration rejected".into())).is_err());
}

#[test]
fn exit_codes_that_do_not_parse_are_still_exits() {
    let exited = |code: &str| interpret(JudgeError::Sandbox(format!("__exit:{code}"))).unwrap();
    assert_eq!(exited(""), Trapish::Exited(0));
    assert_eq!(exited("x"), Trapish::Exited(1));
    assert_eq!(exited("-7"), Trapish::Exited(-7));
    assert_eq!(exited("+7"), Trapish::Exited(7));
    assert_eq!(exited("2147483647"), Trapish::Exited(i32::MAX));
    assert_eq!(exited("2147483648"), Trapish::Exited(1));
    assert_eq!(exited("-2147483648"), Trapish::Exited(i32::MIN));
    assert_eq!(exited("-2147483649"), Trapish::Exited(1));
    assert_eq!(exited("-"), Trapish::Exited(1));
}

#[test]
fn faults_are_read_back_as_they_were_reported() {
    let read = |fault: GuestFault| interpret(classify(&fault));
    for code in [0, 1, -1, 101, i32::MAX, i32::MIN] {
        assert_eq!(read(GuestFault::Exit(code)).unwrap(), Trapish::Exited(code));
    }
    assert_eq!(
        read(GuestFault::OutOfFuel).unwrap(),
        Trapish::Limit(LimitViolation::Fuel)
    );
    assert_eq!(
        read(GuestFault::Interrupt).unwrap(),
        Trapish::Limit(LimitViolation::Wall)
    );
    assert_eq!(
        read(GuestFault::Trap("wasm trap".into())).unwrap(),
        Trapish::Trap("wasm trap".into())
    );
    assert_eq!(
        read(GuestFault::Host("unknown import".into())).unwrap_err(),
        JudgeError::MalformedPackage("module could not be run: unknown import".into())
    );
}

#[test]
fn the_capped_sink_records_overflow_rather_than_silently_truncating() {
    let mut sink = CappedSink::new(8);

    sink.write(b"1234").unwrap();
    assert!(!sink.overflowed());

    // This write does not fit. The sink keeps what it can, records the
    // overflow, and closes rather than silently dropping the rest.
    let error = sink
        .write(b"567890")
        .expect_err("a write past the cap must fail");
    assert!(matches!(error, SinkError::Closed));
    assert!(sink.overflowed());
    assert_eq!(sink.take(), b"12345678", "output is trimmed to the budget");
}

#[test]
fn writing_exactly_the_budget_is_not_an_overflow() {
    // WASI requests a write permit before every write, so a sink that is
    // exactly full must still be distinguishable from one that overran.
    let mut sink = CappedSink::new(4);

    assert_eq!(sink.check_write().unwrap(), 5);
    sink.write(b"abcd").unwrap();
    assert!(!sink.overflowed(), "exactly the budget is fine");
    assert_eq!(sink.check_write().unwrap(), 1);
    assert!(
        !sink.overflowed(),
        "asking for a permit must not itself be an overflow"
    );
    assert_eq!(sink.take(), b"abcd");
}

#[test]
fn one_byte_past_the_budget_is_an_overflow() {
    let mut sink = CappedSink::new(4);
    sink.write(b"abcde").unwrap();
    assert!(sink.overflowed());
    assert_eq!(
        sink.take(),
        b"abcd",
        "the spare byte never reaches the caller"
    );
}

#[test]
fn the_byte_interface_of_the_sink_keeps_to_the_same_budget() {
    let mut sink = CappedSink::new(4);
    assert_eq!(sink.poll_write(b"abc"), Ok(3));
    assert!(!sink.overflowed());
    assert_eq!(sink.poll_write(b"defg"), Ok(2));
    assert!(sink.overflowed());
    assert_eq!(sink.poll_write(b"h"), Err(SinkError::Closed));
    assert_eq!(sink.check_write(), Err(SinkError::Closed));
    assert_eq!(sink.write(b""), Ok(()));
    assert_eq!(sink.flush(), Ok(()));
    assert_eq!(sink.take(), b"abcd");
    assert_eq!(sink.take(), b"");
}

#[test]
fn how_output_is_cut_into_writes_does_not_matter() {
    let text = b"0123456789";
    for budget in 0..12 {
        for cut in 0..text.len() {
            let mut sink = CappedSink::new(budget);
            let _ = sink.write(&text[..cut]);
            let _ = sink.write(&text[cut..]);
            assert_eq!(sink.overflowed(), text.len() > budget);
            assert_eq!(sink.take(), &text[..budget.min(text.len())]);
        }
    }
}

#[test]
fn the_limiter_denies_growth_past_the_bound_and_records_it() {
    let mut limiter = MemoryLimiter::new(Limits {
        memory_bytes: 1024,
        ..Limits::default()
    });
    assert!(limiter.memory_growing(0, 512, None));
    assert!(!limiter.memory_denied);
    assert_eq!(limiter.peak_memory, 512);

    assert!(!limiter.memory_growing(512, 4096, None));
    assert!(
        limiter.memory_denied,
        "a denial must be recorded so it can be reported as MLE"
    );
    assert_eq!(
        limiter.peak_memory, 512,
        "a denied grow must not raise the peak"
    );
}

#[test]
fn the_limiter_bounds_tables_instances_and_memories() {
    let mut limiter = MemoryLimiter::new(Limits::tiny());
    assert!(limiter.table_growing(0, 128, None));
    assert!(!limiter.table_growing(0, 129, None));
    assert!(!limiter.memory_denied);
    assert_eq!(limiter.instances(), 1);
    assert_eq!(limiter.memories(), 1);
}

fn conclude(
    ended: Result<(), JudgeError>,
    printed: &[u8],
    memory_denied: bool,
) -> Result<TerminationReason, JudgeError> {
    let mut stdout = CappedSink::new(4);
    let mut stderr = CappedSink::new(4);
    let _ = stdout.write(printed);
    let mut limiter = MemoryLimiter::new(Limits::tiny());
    limiter.memory_denied = memory_denied;
    let limits = Limits {
        fuel: 100,
        output_bytes: 4,
        ..Limits::tiny()
    };
    conclude_execution(ended, &mut stdout, &mut stderr, &limiter, &limits, Some(40), 7)
        .map(|outcome| outcome.termination)
}

#[test]
fn bounds_that_were_hit_come_before_traps() {
    let trap = || Err(classify(&GuestFault::Trap("unreachable".into())));
    assert_eq!(
        conclude(trap(), b"12345", true).unwrap(),
        TerminationReason::LimitExceeded {
            violation: LimitViolation::Output
        }
    );
    assert_eq!(
        conclude(trap(), b"1234", true).unwrap(),
        TerminationReason::LimitExceeded {
            violation: LimitViolation::Memory
        }
    );
    assert_eq!(
        conclude(trap(), b"1234", false).unwrap(),
        TerminationReason::Trapped {
            detail: "unreachable".into()
        }
    );
    assert_eq!(
        conclude(Ok(()), b"", false).unwrap(),
        TerminationReason::Exited { code: 0 }
    );
    assert_eq!(
        conclude(Err(classify(&GuestFault::OutOfFuel)), b"", false).unwrap(),
        TerminationReason::LimitExceeded {
            violation: LimitViolation::Fuel
        }
    );
    let host = || Err(classify(&GuestFault::Host("too large".into())));
    assert_eq!(
        conclude(host(), b"12345", true).unwrap(),
        TerminationReason::LimitExceeded {
            violation: LimitViolation::Output
        }
    );
    assert_eq!(
        conclude(host(), b"1234", true).unwrap(),
        TerminationReason::LimitExceeded {
            violation: LimitViolation::Memory
        }
    );
    assert!(conclude(host(), b"1234", false).is_err());
    assert!(conclude(Err(JudgeError::Infrastructure("x".into())), b"", false).is_err());
}

#[test]
fn an_outcome_carries_what_was_measured() {
    let mut stdout = CappedSink::new(4);
    let mut stderr = CappedSink::new(4);
    stdout.write(b"out").unwrap();
    stderr.write(b"err").unwrap();
    let mut limiter = MemoryLimiter::new(Limits::tiny());
    assert!(limiter.memory_growing(0, 65_536, None));
    let limits = Limits {
        fuel: 100,
        output_bytes: 6,
        ..Limits::tiny()
    };
    let outcome =
        conclude_execution(Ok(()), &mut stdout, &mut stderr, &limiter, &limits, Some(40), 7)
            .unwrap();
    assert!(outcome.is_clean_exit());
    assert_eq!(outcome.stdout, b"out");
    assert_eq!(outcome.stderr, b"err");
    assert_eq!(outcome.wall_ms, 7);
    assert_eq!(outcome.fuel_consumed, Some(60));
    assert_eq!(outcome.peak_memory_bytes, 65_536);
}

#[test]
fn the_output_bound_is_on_both_streams_together() {
    let limits = Limits {
        output_bytes: 4,
        ..Limits::tiny()
    };
    for (out, err, fine) in [("1234", "", true), ("12", "34", true), ("12", "345", false)] {
        let mut stdout = CappedSink::new(4);
        let mut stderr = CappedSink::new(4);
        stdout.write(out.as_bytes()).unwrap();
        stderr.write(err.as_bytes()).unwrap();
        let limiter = MemoryLimiter::new(limits);
        let outcome =
            conclude_execution(Ok(()), &mut stdout, &mut stderr, &limiter, &limits, None, 1)
                .unwrap();
        assert_eq!(outcome.is_clean_exit(), fine);
        assert_eq!(outcome.fuel_consumed, None);
        assert!(outcome.stdout.len() + outcome.stderr.len() <= 4);
        assert_eq!(outcome.stdout, out.as_bytes());
        if !fine {
            assert_eq!(
                outcome.termination_verdict(),
                Some(Verdict::OutputLimitExceeded)
            );
        }
    }
}

#[test]
fn two_full_streams_are_handed_on_within_one_bound() {
    let limits = Limits {
        output_bytes: 4,
        ..Limits::tiny()
    };
    for (out, err, kept_out, kept_err) in [
        ("1234", "5678", "1234", ""),
        ("123", "5678", "123", "5"),
        ("", "5678", "", "5678"),
        ("12", "34", "12", "34"),
        ("12345", "6", "1234", ""),
        ("1", "23456", "1", "234"),
    ] {
        let mut stdout = CappedSink::new(4);
        let mut stderr = CappedSink::new(4);
        let _ = stdout.write(out.as_bytes());
        let _ = stderr.write(err.as_bytes());
        let limiter = MemoryLimiter::new(limits);
        let outcome =
            conclude_execution(Ok(()), &mut stdout, &mut stderr, &limiter, &limits, None, 1)
                .unwrap();
        assert_eq!(outcome.stdout, kept_out.as_bytes());
        assert_eq!(outcome.stderr, kept_err.as_bytes());
        assert_eq!(outcome.is_clean_exit(), out.len() + err.len() <= 4);
    }
}

#[test]
fn unbounded_limits_are_turned_away() {
    assert!(admit_limits(&Limits::default()).is_ok());
    let error = admit_limits(&Limits {
        fuel: 0,
        ..Limits::default()
    })
    .unwrap_err();
    assert_eq!(
        error,
        JudgeError::MalformedPackage("invalid limits: fuel must be greater than zero".into())
    );
}

#[test]
fn failures_of_the_engine_are_judge_errors() {
    let steps = [
        (SandboxStep::Engine, "sandbox failure: engine configuration rejected: e"),
        (SandboxStep::Module, "sandbox failure: module failed validation: e"),
        (SandboxStep::Fuel, "sandbox failure: could not set fuel: e"),
        (SandboxStep::Link, "sandbox failure: could not link WASI: e"),
        (
            SandboxStep::Start,
            "malformed problem package: module has no WASI `_start` export: e",
        ),
    ];
    for (step, shown) in steps {
        let error = step_error(step, "e");
        assert_eq!(error.to_string(), shown);
        assert_eq!(error.verdict(), Verdict::JudgeError);
    }
}
