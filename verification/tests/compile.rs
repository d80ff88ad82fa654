//! Compilation backends.

use rustly_judge::compile::{
    CargoCompiler, CargoRun, CompileBackend, CompileOutput, PrecompiledModule,
};
use rustly_judge::compile_container::{
    container_name, ActiveContainers, Capture, CompilerLimits, ContainerEnd, ContainerRun,
    ContainerRustcCompiler, ContainerStep,
};
use rustly_judge::error::JudgeError;
use rustly_judge::verdict::Verdict;

#[test]
fn a_precompiled_module_passes_through_unchanged() {
    let module = wat::parse_str("(module)").unwrap();
    let output = PrecompiledModule
        .compile(&module, "rust-1.88-wasm32-wasip1")
        .unwrap();
    assert_eq!(output.module(), Some(module.as_slice()));
}

#[test]
fn non_wasm_input_is_a_compile_failure_not_a_judge_error() {
    let output = PrecompiledModule.compile(b"fn main() {}", "any").unwrap();
    assert!(output.module().is_none());
    match output {
        CompileOutput::Failed { diagnostics } => assert!(diagnostics.contains("WebAssembly")),
        CompileOutput::Module { .. } => panic!("should not have compiled"),
    }
}

#[test]
fn anything_but_the_whole_magic_number_is_not_a_module() {
    for source in [&b""[..], b"\0as", b"\0asn", b"asm\0"] {
        assert!(PrecompiledModule.compile(source, "any").unwrap().module().is_none());
    }
    assert!(PrecompiledModule.compile(b"\0asm", "any").unwrap().module().is_some());
}

#[test]
fn the_precompiled_backend_is_safe_because_it_executes_nothing() {
    assert!(PrecompiledModule.is_qualified_for_untrusted_code());
    assert_eq!(PrecompiledModule.id(), "precompiled");
}

fn ran(success: bool, stderr: &str, artifact: Result<Vec<u8>, String>) -> CargoRun {
    CargoRun::Finished {
        success,
        stderr: stderr.as_bytes().to_vec(),
        artifact_path: "/w/target/submission.wasm".into(),
        artifact,
    }
}

#[test]
fn the_cargo_compiler_refuses_to_run_until_it_is_explicitly_unlocked() {
    let error = CargoCompiler::new()
        .compile(b"fn main() {}", "any", ran(true, "", Ok(b"\0asm".to_vec())))
        .unwrap_err();
    assert_eq!(error.verdict(), Verdict::SecurityEvent);
    assert!(error.to_string().contains("build.rs"));
    assert_eq!(CargoCompiler::new().accept(b"fn main() {}"), Err(error));
}

#[test]
fn unlocking_asserts_the_input_is_trusted_not_that_the_backend_is_safe() {
    let compiler = CargoCompiler::new().unlock_for_trusted_input();
    assert!(
        !compiler.is_qualified_for_untrusted_code(),
        "unlocking must never make the backend claim to be safe for untrusted code"
    );
}

#[test]
fn choosing_a_binary_does_not_unlock_it() {
    let compiler = CargoCompiler::new().with_cargo("/opt/cargo");
    assert_eq!(compiler.cargo(), "/opt/cargo");
    assert!(compiler.accept(b"").is_err());
    let unlocked = compiler.clone().unlock_for_trusted_input();
    assert_eq!(unlocked.cargo(), "/opt/cargo");
    assert!(unlocked.accept(b"").is_ok());
    assert_eq!(unlocked.id(), "cargo-wasm32-wasip1");
    assert_eq!(
        unlocked.arguments(),
        ["build", "--target", "wasm32-wasip1", "--offline", "--quiet"]
    );
}

#[test]
fn what_cargo_says_is_what_came_of_it() {
    let compile = |run| {
        CargoCompiler::new()
            .unlock_for_trusted_input()
            .compile(b"fn main() {}", "env", run)
    };
    assert_eq!(
        compile(ran(true, " \n", Ok(b"\0asm".to_vec()))).unwrap(),
        CompileOutput::Module {
            bytes: b"\0asm".to_vec(),
            diagnostics: None
        }
    );
    assert_eq!(
        compile(ran(true, "warning: x\n", Ok(b"\0asm".to_vec()))).unwrap(),
        CompileOutput::Module {
            bytes: b"\0asm".to_vec(),
            diagnostics: Some("warning: x\n".into())
        }
    );
    assert_eq!(
        compile(ran(false, "error: y\n", Err("no".into()))).unwrap(),
        CompileOutput::Failed {
            diagnostics: "error: y\n".into()
        }
    );
    assert_eq!(
        compile(ran(true, "", Err("gone".into()))).unwrap_err().to_string(),
        "infrastructure failure: cargo reported success for env but \
         \"/w/target/submission.wasm\" is missing: gone"
    );
    let failures = [
        (CargoRun::NoWorkspace("e".into()), "cannot create a workspace: e"),
        (CargoRun::NoSourceDirectory("e".into()), "cannot create src/: e"),
        (CargoRun::NoSource("e".into()), "cannot write source: e"),
        (CargoRun::NoManifest("e".into()), "cannot write manifest: e"),
        (CargoRun::NoCargo("e".into()), "cannot run cargo: e"),
    ];
    for (run, why) in failures {
        assert_eq!(
            compile(run).unwrap_err(),
            JudgeError::Infrastructure(why.into())
        );
    }
    assert_eq!(
        CargoCompiler::new()
            .unlock_for_trusted_input()
            .accept(b"\xff")
            .unwrap_err(),
        JudgeError::MalformedPackage("submitted source is not valid UTF-8".into())
    );
}

fn compiler() -> ContainerRustcCompiler {
    ContainerRustcCompiler::new(
        "ghcr.io/rustly-tech/compiler@sha256:aaaaaaaaaaaaaaaaaaaaaaaaaaaaaaaaaaaaaaaaaaaaaaaaaaaaaaaaaaaaaaaa",
        "rust-1.88-wasm32-wasip1",
    )
    .unwrap()
}

#[test]
fn image_must_be_immutable() {
    assert!(ContainerRustcCompiler::new("rust:1.88", "environment").is_err());
}

#[test]
fn an_image_may_be_named_by_its_digest_alone() {
    let digest = "0123456789abcdefABCDEF0123456789abcdef0123456789abcdef0123456789";
    assert_eq!(digest.len(), 64);
    assert!(ContainerRustcCompiler::new(&format!("sha256:{digest}"), "e").is_ok());
    assert!(ContainerRustcCompiler::new(&format!("sha256:{}", &digest[1..]), "e").is_err());
    assert!(ContainerRustcCompiler::new(&format!("sha256:{}g", &digest[1..]), "e").is_err());
    assert_eq!(
        ContainerRustcCompiler::new("rust", "e").unwrap_err().to_string(),
        "security policy tripped: compiler image must be pinned by sha256 digest"
    );
}

#[test]
fn invocation_contains_every_host_boundary() {
    let args = compiler().arguments("job", "/in.rs", "/out");
    let joined = args.join(" ");
    for required in [
        "--network none",
        "--read-only",
        "--cap-drop ALL",
        "--security-opt no-new-privileges",
        "--user 65532:65532",
        "--pids-limit 32",
        "--memory 536870912",
        "--memory-swap 536870912",
        "--cpus 1",
        "nofile=64:64",
        "cpu=20:20",
        "/tmp:rw,nosuid,nodev,noexec,size=16777216,mode=1777",
        "readonly",
        "wasm32-wasip1",
    ] {
        assert!(joined.contains(required), "missing {required}: {joined}");
    }
    assert!(!joined.contains("cargo"));
}

#[test]
fn the_whole_invocation_is_fixed() {
    let joined = compiler()
        .with_limits(CompilerLimits {
            wall_nanos: 1,
            artifact_bytes: 8,
            cpus: "0.5".into(),
            ..CompilerLimits::default()
        })
        .arguments("job", "/in.rs", "/out")
        .join(" ");
    assert_eq!(
        joined,
        "run --rm --name job --network none --read-only --cap-drop ALL --security-opt \
         no-new-privileges --user 65532:65532 --pids-limit 32 --memory 536870912 --memory-swap \
         536870912 --cpus 0.5 --ulimit nofile=64:64 --ulimit cpu=1:1 --ulimit fsize=8:8 --tmpfs \
         /tmp:rw,nosuid,nodev,noexec,size=16777216,mode=1777 --mount \
         type=bind,src=/in.rs,dst=/input/main.rs,readonly --mount type=bind,src=/out,dst=/output \
         --env RUST_BACKTRACE=0 \
         ghcr.io/rustly-tech/compiler@sha256:aaaaaaaaaaaaaaaaaaaaaaaaaaaaaaaaaaaaaaaaaaaaaaaaaaaaaaaaaaaaaaaa \
         --crate-name submission --crate-type bin --edition 2021 --target wasm32-wasip1 -C \
         opt-level=1 -C debuginfo=0 -A unused -o /output/submission.wasm /input/main.rs"
    );
}

#[test]
fn huge_and_malformed_source_fail_before_starting_a_container() {
    let tiny = compiler().with_limits(CompilerLimits {
        source_bytes: 4,
        ..CompilerLimits::default()
    });
    let unused = || ContainerRun::TimedOut;
    assert!(matches!(
        tiny.compile(b"12345", "rust-1.88-wasm32-wasip1", unused()),
        Err(JudgeError::SecurityPolicy(_))
    ));
    assert!(matches!(
        tiny.compile(&[0xff], "rust-1.88-wasm32-wasip1", unused()),
        Ok(CompileOutput::Failed { .. })
    ));
    assert!(tiny.accept(b"1234", "rust-1.88-wasm32-wasip1").is_none());
    assert_eq!(
        tiny.accept(b"12345", "rust-1.88-wasm32-wasip1").unwrap().unwrap_err().to_string(),
        "security policy tripped: source is 5 bytes; compiler limit is 4 bytes"
    );
    assert_eq!(
        tiny.accept(b"", "other").unwrap().unwrap_err().to_string(),
        "malformed problem package: compiler is pinned for rust-1.88-wasm32-wasip1, not other"
    );
}

fn end() -> ContainerEnd {
    ContainerEnd {
        stdout: b"note".to_vec(),
        stdout_overflow: false,
        stderr: b"warning, ".to_vec(),
        stderr_overflow: false,
        code: Some(0),
        probed: Some(4),
        size: Ok(4),
        artifact: Ok(b"\0asm".to_vec()),
    }
}

fn finish(end: ContainerEnd) -> Result<CompileOutput, JudgeError> {
    compiler().compile(
        b"fn main() {}",
        "rust-1.88-wasm32-wasip1",
        ContainerRun::Finished(end),
    )
}

#[test]
fn a_container_that_worked_gives_a_module_and_its_warnings() {
    assert_eq!(
        finish(end()).unwrap(),
        CompileOutput::Module {
            bytes: b"\0asm".to_vec(),
            diagnostics: Some("warning, note".into())
        }
    );
    let quiet = ContainerEnd {
        stdout: vec![],
        stderr: b" \n".to_vec(),
        ..end()
    };
    assert_eq!(
        finish(quiet).unwrap(),
        CompileOutput::Module {
            bytes: b"\0asm".to_vec(),
            diagnostics: None
        }
    );
}

#[test]
fn a_compile_error_is_one_only_within_every_bound() {
    let failed = ContainerEnd {
        code: Some(1),
        probed: None,
        ..end()
    };
    assert_eq!(
        finish(failed).unwrap(),
        CompileOutput::Failed {
            diagnostics: "warning, note".into()
        }
    );
    let killed = ContainerEnd {
        code: None,
        probed: None,
        ..end()
    };
    assert!(matches!(finish(killed), Ok(CompileOutput::Failed { .. })));
    for spoil in [
        (|e: &mut ContainerEnd| e.stdout_overflow = true) as fn(&mut ContainerEnd),
        |e| e.stderr_overflow = true,
        |e| e.probed = Some(16 * 1024 * 1024),
        |e| e.stderr = b"LLVM ERROR: File Too Large".to_vec(),
        |e| e.stdout = b"(OS Error 27)".to_vec(),
    ] {
        let mut spoilt = ContainerEnd {
            code: Some(1),
            ..end()
        };
        spoil(&mut spoilt);
        assert!(matches!(finish(spoilt), Err(JudgeError::SecurityPolicy(_))));
    }
}

#[test]
fn the_diagnostics_bound_is_on_both_streams_together() {
    for (limit, fine) in [(13, true), (12, false), (9, false)] {
        let compiler = compiler().with_limits(CompilerLimits {
            diagnostics_bytes: limit,
            ..CompilerLimits::default()
        });
        let result = compiler.compile(
            b"fn main() {}",
            "rust-1.88-wasm32-wasip1",
            ContainerRun::Finished(end()),
        );
        if fine {
            assert!(result.is_ok());
        } else {
            assert_eq!(
                result.unwrap_err(),
                JudgeError::SecurityPolicy("compiler diagnostics exceeded the output limit".into())
            );
        }
    }
}

#[test]
fn what_a_container_leaves_behind_is_checked() {
    let cases: [(fn(&mut ContainerEnd), &str); 6] = [
        (
            |e| e.code = Some(125),
            "infrastructure failure: compiler container failed to start: warning, note",
        ),
        (
            |e| e.size = Err("gone".into()),
            "infrastructure failure: compiler produced no WASI artifact: gone",
        ),
        (
            |e| e.size = Ok(16_777_217),
            "security policy tripped: compiled artifact is 16777217 bytes; limit is 16777216 bytes",
        ),
        (
            |e| e.artifact = Err("denied".into()),
            "infrastructure failure: read compiled WASI artifact: denied",
        ),
        (
            |e| e.artifact = Ok(b"ELF".to_vec()),
            "infrastructure failure: compiler output is not a WebAssembly module",
        ),
        (
            |e| e.probed = Some(16_777_216),
            "security policy tripped: compiled artifact reached the 16777216 byte output limit",
        ),
    ];
    for (spoil, shown) in cases {
        let mut spoilt = end();
        spoil(&mut spoilt);
        assert_eq!(finish(spoilt).unwrap_err().to_string(), shown);
    }
}

#[test]
fn a_container_that_does_not_finish_is_no_compile_error() {
    let compile = |run| compiler().compile(b"", "rust-1.88-wasm32-wasip1", run);
    assert_eq!(
        compile(ContainerRun::TimedOut).unwrap_err().to_string(),
        "security policy tripped: compilation exceeded its wall-clock limit"
    );
    assert_eq!(
        compile(ContainerRun::LostStdout).unwrap_err().verdict(),
        Verdict::InternalError
    );
    assert_eq!(
        compile(ContainerRun::LostStderr).unwrap_err().verdict(),
        Verdict::InternalError
    );
    let steps = [
        (ContainerStep::Scratch, "create compiler scratch directory: e"),
        (ContainerStep::Output, "create compiler output directory: e"),
        (ContainerStep::Input, "write compiler input: e"),
        (
            ContainerStep::Traverse,
            "make compiler scratch directory traversable: e",
        ),
        (ContainerStep::Protect, "protect compiler input: e"),
        (ContainerStep::Prepare, "prepare compiler output: e"),
        (ContainerStep::Start, "start compiler container: e"),
        (ContainerStep::Wait, "wait for compiler container: e"),
    ];
    for (step, why) in steps {
        let error = compile(ContainerRun::Failed {
            step,
            why: "e".into(),
        })
        .unwrap_err();
        assert_eq!(error, JudgeError::Infrastructure(why.into()));
    }
    assert!(!compiler().has_timed_out(19_999_999_999));
    assert!(compiler().has_timed_out(20_000_000_000));
}

#[test]
fn a_capture_keeps_what_fits() {
    for limit in 0..8 {
        let mut capture = Capture::new(limit);
        for chunk in [&b"ab"[..], b"", b"cde", b"f"] {
            capture.push(chunk);
        }
        let (kept, overflow) = capture.finish();
        assert_eq!(kept, &b"abcdef"[..limit.min(6)]);
        assert_eq!(overflow, limit < 6);
    }
}

#[test]
fn containers_are_remembered_until_they_are_gone() {
    let mut active = ActiveContainers::new();
    for name in ["b", "a", "c", "a"] {
        active.insert(name);
    }
    assert_eq!(active.cancel_all(), ["a", "b", "c"]);
    active.remove("b");
    active.remove("nothing");
    assert_eq!(active.cancel_all(), ["a", "c"]);
    assert_eq!(container_name(7, 12), "rustly-compile-7-12");
}

#[test]
fn a_container_compiler_is_qualified_and_configurable() {
    let compiler = compiler().with_docker("podman");
    assert_eq!(compiler.docker(), "podman");
    assert_eq!(compiler.id(), "container-rustc-wasm32-wasip1");
    assert!(compiler.is_qualified_for_untrusted_code());
    assert_eq!(compiler.clone().limits().processes, 32);
}
