//! The library driven by a real Wasmtime engine: every bound the judge claims
//! to enforce is exercised by a module that tries to break it, and submissions
//! are graded and judged end to end.

use std::collections::HashMap;
use std::future::Future;
use std::pin::Pin;
use std::sync::mpsc::channel;
use std::sync::{Arc, Mutex};
use std::task::{Context, Poll};
use std::time::{Duration, Instant};

use rustly_judge::artifacts::{ArtifactSource, LocalArtifacts};
use rustly_judge::backend::{
    ExecutionBackend, ExecutionOutcome, ExecutionRequest, TerminationReason,
};
use rustly_judge::cache::{ArtifactCache, FileCommand, FileRead, FileStep, TextRead, Trust};
use rustly_judge::compile::PrecompiledModule;
use rustly_judge::digest::cid;
use rustly_judge::error::JudgeError;
use rustly_judge::grader::{grade, GradeRequest};
use rustly_judge::limits::{LimitViolation, Limits};
use rustly_judge::pipeline::{artifact_key, run_job, JobContext, JobHost, JobReport};
use rustly_judge::problem_format::{
    Checker, Environment, Mode, Scoring, TestCase, TrialPackage, Visibility, FORMAT_VERSION,
};
use rustly_judge::protocol::{Backend, JobSpec, ResultManifest, TrustClass, PROTOCOL_VERSION};
use rustly_judge::sandbox::{
    admit_limits, classify, conclude_execution, step_error, CappedSink, GuestFault, MemoryLimiter,
    SandboxStep, SinkError, MAX_WASM_STACK_BYTES,
};
use rustly_judge::verdict::Verdict;
use wasmtime::{Config, Engine, Linker, Module, ResourceLimiter, Store, Trap};
use wasmtime_wasi::cli::{IsTerminal, StdoutStream};
use wasmtime_wasi::p1::{self, WasiP1Ctx};
use wasmtime_wasi::p2::pipe::MemoryInputPipe;
use wasmtime_wasi::p2::{OutputStream, Pollable, StreamError, StreamResult};
use wasmtime_wasi::WasiCtxBuilder;

/// A sink that an engine writes to.
#[derive(Clone)]
struct Sink(Arc<Mutex<CappedSink>>);

impl Sink {
    fn new(budget: usize) -> Self {
        Self(Arc::new(Mutex::new(CappedSink::new(budget))))
    }
}

impl tokio::io::AsyncWrite for Sink {
    fn poll_write(
        self: Pin<&mut Self>,
        _cx: &mut Context<'_>,
        buf: &[u8],
    ) -> Poll<std::io::Result<usize>> {
        let written = self.0.lock().unwrap().poll_write(buf);
        Poll::Ready(written.map_err(|SinkError::Closed| {
            std::io::Error::new(std::io::ErrorKind::WriteZero, "output limit exceeded")
        }))
    }

    fn poll_flush(self: Pin<&mut Self>, _cx: &mut Context<'_>) -> Poll<std::io::Result<()>> {
        Poll::Ready(Ok(()))
    }

    fn poll_shutdown(self: Pin<&mut Self>, _cx: &mut Context<'_>) -> Poll<std::io::Result<()>> {
        Poll::Ready(Ok(()))
    }
}

impl IsTerminal for Sink {
    fn is_terminal(&self) -> bool {
        false
    }
}

impl StdoutStream for Sink {
    fn async_stream(&self) -> Box<dyn tokio::io::AsyncWrite + Send + Sync> {
        Box::new(self.clone())
    }

    fn p2_stream(&self) -> Box<dyn OutputStream> {
        Box::new(self.clone())
    }
}

impl Pollable for Sink {
    fn ready<'a, 'b>(&'a mut self) -> Pin<Box<dyn Future<Output = ()> + Send + 'b>>
    where
        'a: 'b,
        Self: 'b,
    {
        Box::pin(std::future::ready(()))
    }
}

impl OutputStream for Sink {
    fn write(&mut self, bytes: bytes::Bytes) -> StreamResult<()> {
        let written = self.0.lock().unwrap().write(&bytes);
        written.map_err(|SinkError::Closed| StreamError::Closed)
    }

    fn flush(&mut self) -> StreamResult<()> {
        Ok(())
    }

    fn check_write(&mut self) -> StreamResult<usize> {
        let room = self.0.lock().unwrap().check_write();
        room.map_err(|SinkError::Closed| StreamError::Closed)
    }
}

struct Limiter(MemoryLimiter);

impl ResourceLimiter for Limiter {
    fn memory_growing(
        &mut self,
        current: usize,
        desired: usize,
        maximum: Option<usize>,
    ) -> wasmtime::Result<bool> {
        Ok(self.0.memory_growing(current, desired, maximum))
    }

    fn table_growing(
        &mut self,
        current: usize,
        desired: usize,
        maximum: Option<usize>,
    ) -> wasmtime::Result<bool> {
        Ok(self.0.table_growing(current, desired, maximum))
    }

    fn instances(&self) -> usize {
        self.0.instances()
    }

    fn memories(&self) -> usize {
        self.0.memories()
    }
}

struct HostState {
    wasi: WasiP1Ctx,
    limiter: Limiter,
}

fn fault(error: wasmtime::Error) -> JudgeError {
    if let Some(exit) = error.downcast_ref::<wasmtime_wasi::I32Exit>() {
        return classify(&GuestFault::Exit(exit.0));
    }
    classify(&match error.downcast_ref::<Trap>() {
        Some(Trap::OutOfFuel) => GuestFault::OutOfFuel,
        Some(Trap::Interrupt) => GuestFault::Interrupt,
        Some(trap) => GuestFault::Trap(trap.to_string()),
        None => GuestFault::Host(error.to_string()),
    })
}

struct WasmtimeBackend {
    engine: Engine,
    clock: tokio::runtime::Runtime,
}

impl WasmtimeBackend {
    fn new() -> Result<Self, JudgeError> {
        let mut config = Config::new();
        config
            .consume_fuel(true)
            .epoch_interruption(true)
            // Small reservations, so that the tests run where address space is
            // scarce.
            .memory_reservation(0)
            .memory_reservation_for_growth(0)
            .memory_guard_size(0)
            .max_wasm_stack(MAX_WASM_STACK_BYTES);
        let engine = Engine::new(&config)
            .map_err(|e| step_error(SandboxStep::Engine, &e.to_string()))?;
        let clock = tokio::runtime::Builder::new_multi_thread()
            .worker_threads(1)
            .build()
            .unwrap();
        Ok(Self { engine, clock })
    }
}

impl ExecutionBackend for WasmtimeBackend {
    fn id(&self) -> &'static str {
        "wasmtime"
    }

    fn is_qualified_for_untrusted_code(&self) -> bool {
        true
    }

    fn execute(&self, request: ExecutionRequest<'_>) -> Result<ExecutionOutcome, JudgeError> {
        let limits = request.limits;
        admit_limits(&limits)?;
        let module = Module::new(&self.engine, request.module)
            .map_err(|e| step_error(SandboxStep::Module, &e.to_string()))?;
        let stdout = Sink::new(limits.output_bytes as usize);
        let stderr = Sink::new(limits.output_bytes as usize);
        let wasi = WasiCtxBuilder::new()
            .stdin(MemoryInputPipe::new(request.stdin.to_vec()))
            .stdout(stdout.clone())
            .stderr(stderr.clone())
            .args(request.args)
            .build_p1();
        let limiter = Limiter(MemoryLimiter::new(limits));
        let mut store = Store::new(&self.engine, HostState { wasi, limiter });
        store.limiter(|state| &mut state.limiter);
        store
            .set_fuel(limits.fuel)
            .map_err(|e| step_error(SandboxStep::Fuel, &e.to_string()))?;
        store.set_epoch_deadline(1);
        let mut linker: Linker<HostState> = Linker::new(&self.engine);
        p1::add_to_linker_sync(&mut linker, |state: &mut HostState| &mut state.wasi)
            .map_err(|e| step_error(SandboxStep::Link, &e.to_string()))?;

        let (stop, stopped) = channel::<()>();
        let engine = self.engine.clone();
        let budget = Duration::from_millis(limits.wall_ms);
        self.clock.spawn_blocking(move || {
            if stopped.recv_timeout(budget).is_err() {
                engine.increment_epoch();
            }
        });
        let started = Instant::now();
        let ended = linker
            .instantiate(&mut store, &module)
            .map_err(fault)
            .and_then(|instance| {
                instance
                    .get_typed_func::<(), ()>(&mut store, "_start")
                    .map_err(|e| step_error(SandboxStep::Start, &e.to_string()))
            })
            .and_then(|start| start.call(&mut store, ()).map_err(fault));
        let wall_ms = started.elapsed().as_millis() as u64;
        let _ = stop.send(());

        let fuel_left = store.get_fuel().ok();
        let mut stdout = stdout.0.lock().unwrap();
        let mut stderr = stderr.0.lock().unwrap();
        conclude_execution(
            ended,
            &mut stdout,
            &mut stderr,
            &store.data().limiter.0,
            &limits,
            fuel_left,
            wall_ms,
        )
    }
}

#[test]
fn the_backend_declares_itself_qualified_for_untrusted_code() {
    let backend = WasmtimeBackend::new().unwrap();
    assert_eq!(backend.id(), "wasmtime");
    assert!(backend.is_qualified_for_untrusted_code());
}

fn run(wat: &str, limits: Limits) -> ExecutionOutcome {
    run_with_stdin(wat, limits, b"")
}

fn run_with_stdin(wat: &str, limits: Limits, stdin: &[u8]) -> ExecutionOutcome {
    let module = wat::parse_str(wat).expect("test module must assemble");
    let backend = WasmtimeBackend::new().expect("backend must construct");
    backend
        .execute(ExecutionRequest {
            module: &module,
            stdin,
            args: &[],
            limits,
        })
        .expect("a misbehaving guest is an outcome, never a judge error")
}

fn violation(outcome: &ExecutionOutcome) -> Option<LimitViolation> {
    match outcome.termination {
        TerminationReason::LimitExceeded { violation } => Some(violation),
        _ => None,
    }
}

/// Escape bytes for a WAT string literal, which cannot contain a raw newline.
fn wat_escape(payload: &str) -> String {
    payload
        .bytes()
        .map(|b| match b {
            b'\n' => "\\n".to_owned(),
            b'\t' => "\\t".to_owned(),
            b'"' => "\\\"".to_owned(),
            b'\\' => "\\\\".to_owned(),
            0x20..=0x7e => (b as char).to_string(),
            other => format!("\\{other:02x}"),
        })
        .collect()
}

/// Writes `payload` from address 1024 to fd 1, `count` times.
fn writer(payload: &str, count: u32) -> String {
    format!(
        r#"(module
  (import "wasi_snapshot_preview1" "fd_write"
    (func $fd_write (param i32 i32 i32 i32) (result i32)))
  (memory (export "memory") 1)
  (data (i32.const 1024) "{payload}")
  (func (export "_start")
    (local $i i32)
    (i32.store (i32.const 8) (i32.const 1024))
    (i32.store (i32.const 12) (i32.const {len}))
    (loop $l
      (drop (call $fd_write (i32.const 1) (i32.const 8) (i32.const 1) (i32.const 20)))
      (local.set $i (i32.add (local.get $i) (i32.const 1)))
      (br_if $l (i32.lt_u (local.get $i) (i32.const {count}))))))"#,
        payload = wat_escape(payload),
        len = payload.len(),
    )
}

#[test]
fn a_well_behaved_program_exits_cleanly_and_its_output_is_captured() {
    let outcome = run(&writer("42\n", 1), Limits::default());
    assert_eq!(outcome.termination, TerminationReason::Exited { code: 0 });
    assert_eq!(outcome.stdout_lossy(), "42\n");
    assert!(outcome.is_clean_exit());
    assert_eq!(
        outcome.termination_verdict(),
        None,
        "a clean exit leaves correctness to the checker, not the sandbox"
    );
    assert!(
        outcome.fuel_consumed.unwrap() > 0,
        "fuel accounting must be live"
    );
}

#[test]
fn an_infinite_loop_is_stopped_by_the_work_bound() {
    let outcome = run(
        r#"(module (memory (export "memory") 1) (func (export "_start") (loop $l (br $l))))"#,
        Limits {
            fuel: 1_000_000,
            wall_ms: 60_000,
            ..Limits::default()
        },
    );
    assert_eq!(violation(&outcome), Some(LimitViolation::Fuel));
    assert_eq!(
        outcome.termination_verdict(),
        Some(Verdict::TimeLimitExceeded)
    );
}

#[test]
fn an_infinite_loop_is_stopped_by_the_wall_clock_when_fuel_is_plentiful() {
    let outcome = run(
        r#"(module (memory (export "memory") 1) (func (export "_start") (loop $l (br $l))))"#,
        // Fuel high enough that the wall-clock watchdog must be what stops it.
        Limits {
            fuel: u64::MAX / 2,
            wall_ms: 250,
            ..Limits::default()
        },
    );
    assert_eq!(violation(&outcome), Some(LimitViolation::Wall));
    assert_eq!(
        outcome.termination_verdict(),
        Some(Verdict::TimeLimitExceeded)
    );
    assert!(
        outcome.wall_ms >= 200,
        "the guest should have run for about the budget"
    );
    assert!(
        outcome.wall_ms < 10_000,
        "the watchdog must actually interrupt it"
    );
}

#[test]
fn the_watchdog_does_not_delay_a_fast_program() {
    let started = Instant::now();
    let outcome = run(
        &writer("x", 1),
        Limits {
            wall_ms: 30_000,
            ..Limits::default()
        },
    );
    assert!(outcome.is_clean_exit());
    assert!(
        started.elapsed().as_secs() < 5,
        "the watchdog must exit as soon as the guest finishes, not sleep out the budget"
    );
}

#[test]
fn growing_memory_past_the_bound_is_reported_as_mle_not_as_a_trap() {
    let outcome = run(
        r#"(module (memory (export "memory") 1)
             (func (export "_start") (drop (memory.grow (i32.const 2000)))))"#,
        Limits {
            memory_bytes: 2 * 1024 * 1024,
            ..Limits::default()
        },
    );
    assert_eq!(violation(&outcome), Some(LimitViolation::Memory));
    assert_eq!(
        outcome.termination_verdict(),
        Some(Verdict::MemoryLimitExceeded)
    );
}

#[test]
fn a_module_that_starts_with_too_much_memory_is_reported_as_mle() {
    let outcome = run(
        r#"(module (memory (export "memory") 64) (func (export "_start")))"#,
        Limits {
            memory_bytes: 2 * 1024 * 1024,
            ..Limits::default()
        },
    );
    assert_eq!(violation(&outcome), Some(LimitViolation::Memory));
}

#[test]
fn memory_growth_within_the_bound_succeeds_and_is_recorded_as_the_peak() {
    let outcome = run(
        r#"(module (memory (export "memory") 1)
             (func (export "_start") (drop (memory.grow (i32.const 8)))))"#,
        Limits {
            memory_bytes: 8 * 1024 * 1024,
            ..Limits::default()
        },
    );
    assert!(outcome.is_clean_exit());
    assert!(
        outcome.peak_memory_bytes >= 9 * 65_536,
        "peak memory should reflect the grown size, got {}",
        outcome.peak_memory_bytes
    );
}

#[test]
fn flooding_stdout_is_reported_as_ole_and_the_capture_stays_bounded() {
    let limits = Limits {
        output_bytes: 1024,
        ..Limits::default()
    };
    let outcome = run(&writer(&"A".repeat(256), 200), limits);

    assert_eq!(violation(&outcome), Some(LimitViolation::Output));
    assert_eq!(
        outcome.termination_verdict(),
        Some(Verdict::OutputLimitExceeded)
    );
    assert!(
        outcome.stdout.len() <= 1024,
        "captured output must stay inside the bound, got {} bytes",
        outcome.stdout.len()
    );
}

#[test]
fn output_exactly_at_the_bound_is_not_an_overflow() {
    let limits = Limits {
        output_bytes: 256,
        ..Limits::default()
    };
    let outcome = run(&writer(&"B".repeat(256), 1), limits);
    assert!(
        outcome.is_clean_exit(),
        "256 bytes into a 256-byte budget is fine"
    );
    assert_eq!(outcome.stdout.len(), 256);
}

#[test]
fn an_unreachable_instruction_is_a_runtime_error_not_a_judge_error() {
    let outcome = run(
        r#"(module (memory (export "memory") 1) (func (export "_start") unreachable))"#,
        Limits::default(),
    );
    assert!(matches!(
        outcome.termination,
        TerminationReason::Trapped { .. }
    ));
    assert_eq!(outcome.termination_verdict(), Some(Verdict::RuntimeError));
}

#[test]
fn integer_division_by_zero_traps_cleanly() {
    let outcome = run(
        r#"(module (memory (export "memory") 1)
             (func (export "_start") (drop (i32.div_s (i32.const 1) (i32.const 0)))))"#,
        Limits::default(),
    );
    match &outcome.termination {
        TerminationReason::Trapped { detail } => {
            assert!(
                detail.contains("divide by zero"),
                "unexpected detail: {detail}"
            );
        }
        other => panic!("expected a trap, got {other:?}"),
    }
}

#[test]
fn an_out_of_bounds_memory_access_traps_rather_than_reading_host_memory() {
    let outcome = run(
        r#"(module (memory (export "memory") 1)
             (func (export "_start") (drop (i32.load (i32.const 0x7fffff00)))))"#,
        Limits::default(),
    );
    match &outcome.termination {
        TerminationReason::Trapped { detail } => {
            assert!(
                detail.contains("out of bounds"),
                "unexpected detail: {detail}"
            );
        }
        other => panic!("expected a trap, got {other:?}"),
    }
}

#[test]
fn unbounded_recursion_hits_the_stack_limit_instead_of_the_host_stack() {
    let outcome = run(
        r#"(module (memory (export "memory") 1)
             (func $f (call $f))
             (func (export "_start") (call $f)))"#,
        Limits {
            fuel: u64::MAX / 2,
            wall_ms: 30_000,
            ..Limits::default()
        },
    );
    match &outcome.termination {
        TerminationReason::Trapped { detail } => {
            assert!(detail.contains("stack"), "unexpected detail: {detail}");
        }
        other => panic!("expected a stack-exhaustion trap, got {other:?}"),
    }
}

#[test]
fn proc_exit_with_a_non_zero_code_is_a_runtime_error() {
    let outcome = run(
        r#"(module
             (import "wasi_snapshot_preview1" "proc_exit" (func $exit (param i32)))
             (memory (export "memory") 1)
             (func (export "_start") (call $exit (i32.const 3))))"#,
        Limits::default(),
    );
    assert_eq!(outcome.termination, TerminationReason::Exited { code: 3 });
    assert_eq!(outcome.termination_verdict(), Some(Verdict::RuntimeError));
}

#[test]
fn proc_exit_with_zero_is_a_clean_exit() {
    let outcome = run(
        r#"(module
             (import "wasi_snapshot_preview1" "proc_exit" (func $exit (param i32)))
             (memory (export "memory") 1)
             (func (export "_start") (call $exit (i32.const 0))))"#,
        Limits::default(),
    );
    assert_eq!(outcome.termination, TerminationReason::Exited { code: 0 });
}

#[test]
fn stdin_is_readable_and_is_exactly_what_the_test_case_supplied() {
    // Read up to 16 bytes from fd 0 into memory, then write them back to fd 1.
    let wat = r#"(module
  (import "wasi_snapshot_preview1" "fd_read"
    (func $fd_read (param i32 i32 i32 i32) (result i32)))
  (import "wasi_snapshot_preview1" "fd_write"
    (func $fd_write (param i32 i32 i32 i32) (result i32)))
  (memory (export "memory") 1)
  (func (export "_start")
    (i32.store (i32.const 8) (i32.const 1024))
    (i32.store (i32.const 12) (i32.const 16))
    (drop (call $fd_read (i32.const 0) (i32.const 8) (i32.const 1) (i32.const 20)))
    (i32.store (i32.const 12) (i32.load (i32.const 20)))
    (drop (call $fd_write (i32.const 1) (i32.const 8) (i32.const 1) (i32.const 24)))))"#;

    let outcome = run_with_stdin(wat, Limits::default(), b"7 11\n");
    assert!(outcome.is_clean_exit());
    assert_eq!(outcome.stdout_lossy(), "7 11\n");
}

#[test]
fn the_guest_has_no_preopened_directories() {
    // fd_prestat_get(3) returns errno 8 (EBADF) when nothing is preopened.
    // Anything else would mean the guest can reach a host directory.
    let wat = r#"(module
  (import "wasi_snapshot_preview1" "fd_prestat_get"
    (func $prestat (param i32 i32) (result i32)))
  (import "wasi_snapshot_preview1" "fd_write"
    (func $fd_write (param i32 i32 i32 i32) (result i32)))
  (memory (export "memory") 1)
  (func (export "_start")
    (i32.store8 (i32.const 1024)
      (i32.add (i32.const 48) (call $prestat (i32.const 3) (i32.const 64))))
    (i32.store (i32.const 8) (i32.const 1024))
    (i32.store (i32.const 12) (i32.const 1))
    (drop (call $fd_write (i32.const 1) (i32.const 8) (i32.const 1) (i32.const 20)))))"#;

    let outcome = run(wat, Limits::default());
    assert!(outcome.is_clean_exit());
    assert_ne!(
        outcome.stdout_lossy(),
        "0",
        "fd_prestat_get(3) must not succeed: the guest would have a directory"
    );
}

#[test]
fn the_guest_has_no_environment_variables() {
    // environ_sizes_get writes the count at address 64. It must be zero: an
    // inherited environment could leak host secrets into a judged program.
    let wat = r#"(module
  (import "wasi_snapshot_preview1" "environ_sizes_get"
    (func $sizes (param i32 i32) (result i32)))
  (import "wasi_snapshot_preview1" "fd_write"
    (func $fd_write (param i32 i32 i32 i32) (result i32)))
  (memory (export "memory") 1)
  (func (export "_start")
    (drop (call $sizes (i32.const 64) (i32.const 68)))
    (i32.store8 (i32.const 1024) (i32.add (i32.const 48) (i32.load (i32.const 64))))
    (i32.store (i32.const 8) (i32.const 1024))
    (i32.store (i32.const 12) (i32.const 1))
    (drop (call $fd_write (i32.const 1) (i32.const 8) (i32.const 1) (i32.const 20)))))"#;

    let outcome = run(wat, Limits::default());
    assert!(outcome.is_clean_exit());
    assert_eq!(
        outcome.stdout_lossy(),
        "0",
        "the guest environment must be empty"
    );
}

#[test]
fn a_module_importing_anything_outside_wasi_fails_to_instantiate() {
    let module = wat::parse_str(
        r#"(module
             (import "host" "escape" (func $escape))
             (memory (export "memory") 1)
             (func (export "_start") (call $escape)))"#,
    )
    .unwrap();

    let backend = WasmtimeBackend::new().unwrap();
    let error = backend
        .execute(ExecutionRequest {
            module: &module,
            stdin: b"",
            args: &[],
            limits: Limits::default(),
        })
        .expect_err("only WASI is linked; nothing else may be imported");

    // A module we could not have produced is a judge-side problem, and it is a
    // JE rather than a CE so the user is never blamed for it.
    assert_eq!(error.verdict(), Verdict::JudgeError);
}

#[test]
fn limits_that_disable_a_bound_are_rejected_before_anything_runs() {
    let module =
        wat::parse_str(r#"(module (memory (export "memory") 1) (func (export "_start")))"#)
            .unwrap();
    let backend = WasmtimeBackend::new().unwrap();

    let error = backend
        .execute(ExecutionRequest {
            module: &module,
            stdin: b"",
            args: &[],
            limits: Limits {
                fuel: 0,
                ..Limits::default()
            },
        })
        .expect_err("fuel: 0 is malformed, not unlimited");
    assert_eq!(error.verdict(), Verdict::JudgeError);
}

#[test]
fn the_same_module_run_twice_produces_the_same_outcome() {
    let wat = writer("deterministic\n", 1);
    let first = run(&wat, Limits::default());
    let second = run(&wat, Limits::default());

    assert_eq!(first.termination, second.termination);
    assert_eq!(first.stdout, second.stdout);
    assert_eq!(
        first.fuel_consumed, second.fuel_consumed,
        "fuel is the deterministic bound; it must not vary between runs"
    );
}

#[test]
fn a_guest_cannot_exhaust_the_host_by_writing_to_stderr_either() {
    let wat = format!(
        r#"(module
  (import "wasi_snapshot_preview1" "fd_write"
    (func $fd_write (param i32 i32 i32 i32) (result i32)))
  (memory (export "memory") 1)
  (data (i32.const 1024) "{}")
  (func (export "_start")
    (local $i i32)
    (i32.store (i32.const 8) (i32.const 1024))
    (i32.store (i32.const 12) (i32.const 256))
    (loop $l
      (drop (call $fd_write (i32.const 2) (i32.const 8) (i32.const 1) (i32.const 20)))
      (local.set $i (i32.add (local.get $i) (i32.const 1)))
      (br_if $l (i32.lt_u (local.get $i) (i32.const 200))))))"#,
        "E".repeat(256)
    );

    let outcome = run(
        &wat,
        Limits {
            output_bytes: 512,
            ..Limits::default()
        },
    );
    assert_eq!(violation(&outcome), Some(LimitViolation::Output));
    assert!(outcome.stderr.len() <= 512);
}

/// A module that echoes stdin to stdout, so a test case's expected output is
/// simply its input.
fn echo_module() -> Vec<u8> {
    wat::parse_str(
        r#"(module
  (import "wasi_snapshot_preview1" "fd_read"
    (func $fd_read (param i32 i32 i32 i32) (result i32)))
  (import "wasi_snapshot_preview1" "fd_write"
    (func $fd_write (param i32 i32 i32 i32) (result i32)))
  (memory (export "memory") 1)
  (func (export "_start")
    (i32.store (i32.const 8) (i32.const 1024))
    (i32.store (i32.const 12) (i32.const 512))
    (drop (call $fd_read (i32.const 0) (i32.const 8) (i32.const 1) (i32.const 20)))
    (i32.store (i32.const 12) (i32.load (i32.const 20)))
    (drop (call $fd_write (i32.const 1) (i32.const 8) (i32.const 1) (i32.const 24)))))"#,
    )
    .expect("test module must assemble")
}

/// A module that always prints a fixed string, whatever the input.
fn constant_module(text: &str) -> Vec<u8> {
    let escaped: String = text
        .bytes()
        .map(|b| match b {
            b'\n' => "\\n".to_owned(),
            0x20..=0x7e => (b as char).to_string(),
            other => format!("\\{other:02x}"),
        })
        .collect();
    wat::parse_str(format!(
        r#"(module
  (import "wasi_snapshot_preview1" "fd_write"
    (func $fd_write (param i32 i32 i32 i32) (result i32)))
  (memory (export "memory") 1)
  (data (i32.const 1024) "{escaped}")
  (func (export "_start")
    (i32.store (i32.const 8) (i32.const 1024))
    (i32.store (i32.const 12) (i32.const {len}))
    (drop (call $fd_write (i32.const 1) (i32.const 8) (i32.const 1) (i32.const 20)))))"#,
        len = text.len()
    ))
    .unwrap()
}

fn package(tests: Vec<TestCase>) -> TrialPackage {
    TrialPackage {
        format_version: FORMAT_VERSION,
        slug: "echo".into(),
        version: 2,
        mode: Mode::Batch,
        environment: Environment::default(),
        limits: Limits::default(),
        checker: Checker::TrimmedLines,
        scoring: Scoring::AllOrNothing,
        fail_fast: true,
        groups: vec![],
        tests,
    }
}

fn case(id: &str, visibility: Visibility, stdin: &str, expected: &str) -> TestCase {
    TestCase {
        id: id.into(),
        visibility,
        stdin: stdin.into(),
        expected_stdout: expected.into(),
        args: vec![],
        group: None,
        limits: None,
    }
}

/// Where a worker fetches from: files below a directory.
struct Objects {
    source: LocalArtifacts,
    files: HashMap<String, Vec<u8>>,
}

impl Objects {
    fn new() -> Self {
        Self {
            source: LocalArtifacts::new("/artifacts"),
            files: HashMap::new(),
        }
    }

    fn put(&mut self, bytes: &[u8]) -> String {
        let plan = self.source.put(bytes);
        carry_out(&mut self.files, plan.steps);
        plan.cid
    }
}

impl ArtifactSource for Objects {
    fn fetch(&self, cid: &str) -> Result<Vec<u8>, JudgeError> {
        let path = self.source.location(cid)?;
        let read = match self.files.get(&path) {
            Some(bytes) => Ok(bytes.clone()),
            None => Err("no such file".to_owned()),
        };
        self.source.fetch(cid, read)
    }
}

fn carry_out(files: &mut HashMap<String, Vec<u8>>, steps: Vec<FileStep>) {
    for step in steps {
        match step.command {
            FileCommand::MakeDirectory(_) => {}
            FileCommand::Write { path, bytes } => {
                files.insert(path, bytes);
            }
            FileCommand::Rename { from, to } => {
                let bytes = files.remove(&from).expect("nothing to rename");
                files.insert(to, bytes);
            }
            FileCommand::Remove(path) => {
                files.remove(&path);
            }
        }
    }
}

/// A cache together with the files it is made of.
struct Cached {
    cache: ArtifactCache,
    files: HashMap<String, Vec<u8>>,
}

impl Cached {
    fn new() -> Self {
        Self {
            cache: ArtifactCache::open("/cache", Ok(())).unwrap(),
            files: HashMap::new(),
        }
    }
}

fn read_file(files: &HashMap<String, Vec<u8>>, path: &str) -> FileRead {
    match files.get(path) {
        Some(bytes) => FileRead::Found(bytes.clone()),
        None => FileRead::Missing,
    }
}

fn read_text(files: &HashMap<String, Vec<u8>>, path: &str) -> TextRead {
    match files.get(path) {
        Some(bytes) => TextRead::Found(String::from_utf8(bytes.clone()).unwrap()),
        None => TextRead::Missing,
    }
}

struct Fixture {
    artifacts: Objects,
    sandbox: WasmtimeBackend,
    package: TrialPackage,
    package_cid: String,
    source_cid: String,
    environment_id: String,
    trial_version: u32,
}

fn fixture(package: &TrialPackage, module: &[u8]) -> Fixture {
    let mut artifacts = Objects::new();
    let package_cid = artifacts.put(format!("\"{}\"", package.slug).as_bytes());
    let source_cid = artifacts.put(module);
    Fixture {
        artifacts,
        sandbox: WasmtimeBackend::new().unwrap(),
        package: package.clone(),
        package_cid,
        source_cid,
        environment_id: package.environment.id.clone(),
        trial_version: package.version,
    }
}

impl Fixture {
    fn spec(&self, hidden: bool) -> JobSpec {
        JobSpec {
            protocol_version: PROTOCOL_VERSION,
            job_id: "job-1".into(),
            source_cid: self.source_cid.clone(),
            trial_package_cid: self.package_cid.clone(),
            trial_version: self.trial_version,
            environment_id: self.environment_id.clone(),
            limits: Limits::default(),
            backend: Backend::Wasmtime,
            includes_hidden_tests: hidden,
        }
    }

    fn run(
        &self,
        trust_class: TrustClass,
        cached: Option<&mut Cached>,
        spec: &JobSpec,
    ) -> Result<JobReport, JudgeError> {
        let none = HashMap::new();
        let files = cached.as_ref().map_or(&none, |cached| &cached.files);
        let started = Instant::now();
        let run = run_job(
            &JobContext {
                artifacts: &self.artifacts,
                compiler: &PrecompiledModule,
                sandbox: &self.sandbox,
                cache: cached.as_ref().map(|cached| &cached.cache),
                trust_class,
                worker_id: "worker-test",
            },
            JobHost {
                decode: |bytes: Vec<u8>| {
                    serde_json::from_slice::<serde_json::Value>(&bytes)
                        .map(|_| self.package.clone())
                        .map_err(|e| e.to_string())
                },
                clock: || started.elapsed().as_nanos(),
                elapsed: |since: u128| started.elapsed().as_nanos().saturating_sub(since),
                read_text: |path: String| read_text(files, &path),
                read_file: |path: String| read_file(files, &path),
                read_values: |_, _, _, _| panic!("no case here compares numbers"),
            },
            spec,
        );
        if let Some(cached) = cached {
            carry_out(&mut cached.files, run.steps);
        }
        run.result
    }
}


fn graded(
    backend: &WasmtimeBackend,
    request: GradeRequest<'_>,
) -> Result<ResultManifest, JudgeError> {
    grade(backend, request, |_, _, _, _| {
        panic!("no case here compares numbers")
    })
}

fn request<'a>(package: &'a TrialPackage, module: &'a [u8]) -> GradeRequest<'a> {
    GradeRequest {
        job_id: "job-1",
        trial_package_cid: "b3:package",
        module,
        package,
        compiler_diagnostics: None,
        compile_ms: 850,
        used_cached_artifact: false,
    }
}

/// A WASI module that prints `text` and exits.
fn printing_module(text: &str) -> Vec<u8> {
    let escaped: String = text
        .bytes()
        .map(|b| match b {
            b'\n' => "\\n".to_owned(),
            0x20..=0x7e => (b as char).to_string(),
            other => format!("\\{other:02x}"),
        })
        .collect();

    wat::parse_str(format!(
        r#"(module
  (import "wasi_snapshot_preview1" "fd_write"
    (func $fd_write (param i32 i32 i32 i32) (result i32)))
  (memory (export "memory") 1)
  (data (i32.const 1024) "{escaped}")
  (func (export "_start")
    (i32.store (i32.const 8) (i32.const 1024))
    (i32.store (i32.const 12) (i32.const {len}))
    (drop (call $fd_write (i32.const 1) (i32.const 8) (i32.const 1) (i32.const 20)))))"#,
        len = text.len()
    ))
    .expect("test module must assemble")
}

#[test]
fn end_to_end_accepted_through_the_real_sandbox() {
    let backend = WasmtimeBackend::new().unwrap();
    let package = package(vec![case("public-1", Visibility::Public, "", "42\n")]);
    let module = printing_module("42\n");

    let manifest = graded(&backend, request(&package, &module)).unwrap();
    assert_eq!(manifest.verdict, Verdict::Accepted);
    assert_eq!(manifest.environment_id, "rust-1.88-wasm32-wasip1");
    assert!(manifest.tests[0].fuel_consumed.unwrap() > 0);
    assert!(manifest.hash().starts_with("b3:"));
}

#[test]
fn end_to_end_wrong_answer_through_the_real_sandbox() {
    let backend = WasmtimeBackend::new().unwrap();
    let package = package(vec![case("public-1", Visibility::Public, "", "42\n")]);
    let module = printing_module("41\n");

    let manifest = graded(&backend, request(&package, &module)).unwrap();
    assert_eq!(manifest.verdict, Verdict::WrongAnswer);
    let detail = manifest.tests[0].detail.as_deref().unwrap();
    assert!(detail.contains("line 1"), "{detail}");
}

#[test]
fn end_to_end_time_limit_through_the_real_sandbox() {
    let backend = WasmtimeBackend::new().unwrap();
    let mut package = package(vec![case("public-1", Visibility::Public, "", "x\n")]);
    package.limits = Limits {
        fuel: 100_000,
        ..Limits::default()
    };

    let module = wat::parse_str(
        r#"(module (memory (export "memory") 1) (func (export "_start") (loop $l (br $l))))"#,
    )
    .unwrap();

    let manifest = graded(&backend, request(&package, &module)).unwrap();
    assert_eq!(manifest.verdict, Verdict::TimeLimitExceeded);
}

#[test]
fn a_correct_submission_is_accepted_end_to_end() {
    let package = package(vec![
        case("public-1", Visibility::Public, "hello\n", "hello\n"),
        case("hidden-1", Visibility::Hidden, "secret\n", "secret\n"),
    ]);
    let f = fixture(&package, &echo_module());

    let report = f.run(TrustClass::Trusted, None, &f.spec(true)).unwrap();
    assert_eq!(report.verdict(), Verdict::Accepted);
    assert_eq!(report.manifest.tests.len(), 2);
    assert_eq!(report.manifest.trial_version, 2);
    assert_eq!(report.manifest.environment_id, "rust-1.88-wasm32-wasip1");
    assert!(report.manifest.hash().starts_with("b3:"));
}

#[test]
fn a_wrong_submission_is_rejected_with_actionable_public_detail() {
    let package = package(vec![case(
        "public-1",
        Visibility::Public,
        "hello\n",
        "hello\n",
    )]);
    let f = fixture(&package, &constant_module("goodbye\n"));

    let report = f.run(TrustClass::Trusted, None, &f.spec(false)).unwrap();
    assert_eq!(report.verdict(), Verdict::WrongAnswer);
    let detail = report.redacted.tests[0].detail.as_deref().unwrap();
    assert!(
        detail.contains("hello"),
        "a public case may show the expected value: {detail}"
    );
}

#[test]
fn a_volunteer_worker_never_holds_hidden_test_data() {
    let package = package(vec![
        case("public-1", Visibility::Public, "hello\n", "hello\n"),
        case("hidden-secret", Visibility::Hidden, "9973\n", "9973\n"),
    ]);
    let f = fixture(&package, &echo_module());

    // The broker would never set this, but even if it did, the worker refuses.
    let mut spec = f.spec(true);
    spec.includes_hidden_tests = true;
    let error = f.run(TrustClass::Volunteer, None, &spec).unwrap_err();
    assert_eq!(error.verdict(), Verdict::SecurityEvent);

    // With the correct flag, the volunteer judges only the public case.
    let report = f.run(TrustClass::Volunteer, None, &f.spec(false)).unwrap();
    assert_eq!(report.manifest.tests.len(), 1);
    assert_eq!(report.manifest.tests[0].test_id, "public-1");

    let json = report.manifest.canonical_json();
    assert!(
        !json.contains("9973"),
        "hidden data reached a volunteer manifest: {json}"
    );
    assert!(!json.contains("hidden-secret"));
}

#[test]
fn the_published_manifest_never_reveals_why_a_hidden_case_failed() {
    let package = package(vec![
        case("public-1", Visibility::Public, "hello\n", "hello\n"),
        case(
            "hidden-secret",
            Visibility::Hidden,
            "9973\n",
            "expected-9973\n",
        ),
    ]);
    let f = fixture(&package, &echo_module());

    let report = f.run(TrustClass::Trusted, None, &f.spec(true)).unwrap();
    assert_eq!(report.verdict(), Verdict::WrongAnswer);

    let published = report.redacted.canonical_json();
    assert!(
        !published.contains("expected-9973"),
        "the answer leaked: {published}"
    );
    assert!(
        !published.contains("hidden-secret"),
        "the case id leaked: {published}"
    );
    // The submitter still learns that a hidden case failed.
    assert_eq!(report.redacted.tests[1].verdict, Verdict::WrongAnswer);
}

#[test]
fn source_that_is_not_a_module_is_a_compile_error_with_raw_diagnostics() {
    let package = package(vec![case("public-1", Visibility::Public, "hi\n", "hi\n")]);
    let f = fixture(&package, b"fn main() { let s = String::new(); }");

    let report = f.run(TrustClass::Trusted, None, &f.spec(false)).unwrap();
    assert_eq!(report.verdict(), Verdict::CompileError);
    assert!(report.manifest.compiler_diagnostics.is_some());
    assert!(report.manifest.tests.is_empty());
}

#[test]
fn a_missing_artifact_is_retryable_infrastructure_not_a_user_verdict() {
    let package = package(vec![case("public-1", Visibility::Public, "hi\n", "hi\n")]);
    let f = fixture(&package, &echo_module());

    let mut spec = f.spec(false);
    spec.source_cid = cid(b"never stored");

    let error = f.run(TrustClass::Trusted, None, &spec).unwrap_err();
    assert_eq!(error.verdict(), Verdict::InternalError);
    assert!(error.is_retryable());
}

#[test]
fn a_tampered_artifact_is_refused_rather_than_judged() {
    let package = package(vec![case("public-1", Visibility::Public, "hi\n", "hi\n")]);
    let mut f = fixture(&package, &echo_module());

    let path = f.artifacts.source.location(&f.source_cid).unwrap();
    f.artifacts.files.insert(path, b"\0asmTAMPERED".to_vec());
    let error = f.run(TrustClass::Trusted, None, &f.spec(false)).unwrap_err();
    assert_eq!(error.verdict(), Verdict::InternalError);
}

#[test]
fn a_job_asking_for_the_wrong_environment_is_refused() {
    let package = package(vec![case("public-1", Visibility::Public, "hi\n", "hi\n")]);
    let f = fixture(&package, &echo_module());

    let mut spec = f.spec(false);
    spec.environment_id = "rust-1.60-wasm32-unknown".into();

    let error = f.run(TrustClass::Trusted, None, &spec).unwrap_err();
    assert_eq!(
        error.verdict(),
        Verdict::JudgeError,
        "a verdict is only meaningful against the environment the package declares"
    );
}

#[test]
fn a_job_selecting_the_unqualified_native_backend_is_refused() {
    let package = package(vec![case("public-1", Visibility::Public, "hi\n", "hi\n")]);
    let f = fixture(&package, &echo_module());

    let mut spec = f.spec(false);
    spec.backend = Backend::Native;

    let error = f.run(TrustClass::Trusted, None, &spec).unwrap_err();
    assert_eq!(error.verdict(), Verdict::SecurityEvent);
}

#[test]
fn the_artifact_cache_accelerates_without_changing_the_verdict() {
    let package = package(vec![case(
        "public-1",
        Visibility::Public,
        "hello\n",
        "hello\n",
    )]);
    let f = fixture(&package, &echo_module());

    let mut cache = Cached::new();
    let spec = f.spec(false);

    let cold = f.run(TrustClass::Trusted, Some(&mut cache), &spec).unwrap();
    assert_eq!(cold.verdict(), Verdict::Accepted);
    assert!(!cold.manifest.used_cached_artifact);

    let warm = f.run(TrustClass::Trusted, Some(&mut cache), &spec).unwrap();
    assert_eq!(
        warm.verdict(),
        Verdict::Accepted,
        "a cache hit must not change the verdict"
    );
    assert!(warm.manifest.used_cached_artifact);
}

#[test]
fn a_corrupt_cache_entry_causes_a_clean_rebuild_not_a_wrong_verdict() {
    let package = package(vec![case(
        "public-1",
        Visibility::Public,
        "hello\n",
        "hello\n",
    )]);
    let f = fixture(&package, &echo_module());

    let mut cache = Cached::new();
    let spec = f.spec(false);

    f.run(TrustClass::Trusted, Some(&mut cache), &spec).unwrap();

    // Corrupt the cached artifact exactly as a bad disk would.
    let stored = cid(&echo_module());
    let path = cache.cache.path_of(&stored, Trust::Verified);
    assert!(cache.files.contains_key(&path));
    cache.files.insert(path, b"\0asmCORRUPT".to_vec());

    let report = f.run(TrustClass::Trusted, Some(&mut cache), &spec).unwrap();
    assert_eq!(
        report.verdict(),
        Verdict::Accepted,
        "cache corruption must cause a clean rebuild, never a wrong verdict"
    );
    assert!(!report.manifest.used_cached_artifact);
}

#[test]
fn a_volunteer_workers_artifacts_are_quarantined_not_served_to_judging() {
    let package = package(vec![case(
        "public-1",
        Visibility::Public,
        "hello\n",
        "hello\n",
    )]);
    let f = fixture(&package, &echo_module());

    let mut cache = Cached::new();
    let spec = f.spec(false);

    f.run(TrustClass::Volunteer, Some(&mut cache), &spec).unwrap();

    let key = artifact_key(&spec.source_cid, &spec.environment_id, "precompiled");
    let place = cache.cache.index_location(&key, Trust::Verified).unwrap();
    let index = read_text(&cache.files, &place);
    let content = match cache.cache.content_location(&index, Trust::Verified) {
        Some(place) => cache.files.contains_key(&place),
        None => false,
    };
    assert!(
        !cache.cache.contains_build(&key, &index, content),
        "a volunteer's build must not be usable for judging until it is reproduced"
    );
    let place = cache.cache.index_location(&key, Trust::Quarantined).unwrap();
    let index = read_text(&cache.files, &place);
    let place = cache.cache.content_location(&index, Trust::Quarantined).unwrap();
    let content = read_file(&cache.files, &place);
    assert!(
        cache
            .cache
            .get_build(&key, Trust::Quarantined, &index, content)
            .result
            .unwrap()
            .is_some(),
        "it is still kept, for diagnostics and later verification"
    );

    // The next run rebuilds rather than trusting the quarantined artifact.
    let report = f.run(TrustClass::Volunteer, Some(&mut cache), &spec).unwrap();
    assert!(!report.manifest.used_cached_artifact);
}

#[test]
fn a_malformed_package_is_a_judge_error_and_never_blames_the_submitter() {
    let package = package(vec![case("public-1", Visibility::Public, "hi\n", "hi\n")]);
    let mut f = fixture(&package, &echo_module());
    f.package_cid = f.artifacts.put(b"{ not json");
    f.trial_version = 1;

    let error = f.run(TrustClass::Trusted, None, &f.spec(false)).unwrap_err();
    assert_eq!(error.verdict(), Verdict::JudgeError);
    assert_ne!(error.verdict(), Verdict::CompileError);
}

#[test]
fn a_program_that_exceeds_the_time_limit_gets_tle_not_a_hung_worker() {
    let mut package = package(vec![case("public-1", Visibility::Public, "", "x\n")]);
    package.limits = Limits {
        fuel: 200_000,
        wall_ms: 2_000,
        ..Limits::default()
    };

    let spinner = wat::parse_str(
        r#"(module (memory (export "memory") 1) (func (export "_start") (loop $l (br $l))))"#,
    )
    .unwrap();
    let f = fixture(&package, &spinner);

    let started = Instant::now();
    let report = f.run(TrustClass::Trusted, None, &f.spec(false)).unwrap();
    assert_eq!(report.verdict(), Verdict::TimeLimitExceeded);
    assert!(
        started.elapsed().as_secs() < 20,
        "the worker must not hang on a runaway program"
    );
}
