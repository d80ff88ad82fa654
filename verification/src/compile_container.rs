//! Sandboxed, dependency-free Rust compilation in a disposable container.
//!
//! Only a single UTF-8 `main.rs` enters the container. There is no Cargo
//! manifest, registry, dependency resolution, build script, or proc-macro
//! input. The container has no network, a read-only root, an unprivileged uid,
//! no capabilities, bounded CPU/memory/PIDs/files/output, and one writable
//! output directory. The caller pins the compiler image by digest.
//!
//! The container itself is run by the caller.
//! [`ContainerRustcCompiler::accept`] says whether to run one,
//! [`ContainerRustcCompiler::arguments`] how, [`Capture`] what is kept of its
//! output, [`ContainerRustcCompiler::has_timed_out`] when to give up, and
//! [`ContainerRustcCompiler::compile`] what came of it.

use vstd::prelude::*;

use crate::compile::{
    bytes_or_reason, has_magic, is_module, shown_diagnostics, worth_showing, CompileOutput,
    CompileOutputView,
};
use crate::error::{judged, JudgeError, JudgeErrorView};
use crate::sandbox::{all_bytes, at_most};
use crate::text::{
    after_prefix, ascii_lower, chars_of, contains_text, copy_text, dec, decimal, is_text_less,
    joined, lossy_of, lossy_text, lower_text, occurs_in, push_decimal, same_text, text_less, texts,
    trim_text, trimmed, utf8_text, without_prefix,
};
use crate::verdict::Verdict;

verus! {

/// Host-side bounds for one compiler container.
#[derive(Debug)]
pub struct CompilerLimits {
    /// Maximum submitted source size.
    pub source_bytes: usize,
    /// Maximum compiler stdout plus stderr retained.
    pub diagnostics_bytes: usize,
    /// Maximum produced WASI module size.
    pub artifact_bytes: usize,
    /// Wall-clock compilation limit, nanoseconds.
    pub wall_nanos: u64,
    /// Container memory ceiling.
    pub memory_bytes: u64,
    /// Container process ceiling.
    pub processes: u32,
    /// CPU cores available to the container, in decimal.
    pub cpus: String,
}

/// What [`CompilerLimits`] say.
#[verifier::ext_equal]
pub struct CompilerLimitsView {
    pub source_bytes: usize,
    pub diagnostics_bytes: usize,
    pub artifact_bytes: usize,
    pub wall_nanos: u64,
    pub memory_bytes: u64,
    pub processes: u32,
    pub cpus: Seq<char>,
}

impl View for CompilerLimits {
    type V = CompilerLimitsView;

    open spec fn view(&self) -> CompilerLimitsView {
        CompilerLimitsView {
            source_bytes: self.source_bytes,
            diagnostics_bytes: self.diagnostics_bytes,
            artifact_bytes: self.artifact_bytes,
            wall_nanos: self.wall_nanos,
            memory_bytes: self.memory_bytes,
            processes: self.processes,
            cpus: self.cpus@,
        }
    }
}

/// The bounds that apply unless others are set.
pub open spec fn default_limits() -> CompilerLimitsView {
    CompilerLimitsView {
        source_bytes: 262_144,
        diagnostics_bytes: 262_144,
        artifact_bytes: 16_777_216,
        wall_nanos: 20_000_000_000,
        memory_bytes: 536_870_912,
        processes: 32,
        cpus: "1"@,
    }
}

impl Default for CompilerLimits {
    fn default() -> (limits: CompilerLimits)
        ensures
            limits@ == default_limits(),
    {
        CompilerLimits {
            source_bytes: 256 * 1024,
            diagnostics_bytes: 256 * 1024,
            artifact_bytes: 16 * 1024 * 1024,
            wall_nanos: 20_000_000_000,
            memory_bytes: 512 * 1024 * 1024,
            processes: 32,
            cpus: "1".to_owned(),
        }
    }
}

impl Clone for CompilerLimits {
    fn clone(&self) -> (copy: CompilerLimits)
        ensures
            copy@ == self@,
    {
        CompilerLimits {
            source_bytes: self.source_bytes,
            diagnostics_bytes: self.diagnostics_bytes,
            artifact_bytes: self.artifact_bytes,
            wall_nanos: self.wall_nanos,
            memory_bytes: self.memory_bytes,
            processes: self.processes,
            cpus: copy_text(self.cpus.as_str()),
        }
    }
}

/// A direct-`rustc` compiler confined by Docker's OCI isolation controls.
#[derive(Debug)]
pub struct ContainerRustcCompiler {
    docker: String,
    image: String,
    environment_id: String,
    limits: CompilerLimits,
}

/// What a [`ContainerRustcCompiler`] is set to.
#[verifier::ext_equal]
pub struct ContainerRustcCompilerView {
    pub docker: Seq<char>,
    pub image: Seq<char>,
    pub environment_id: Seq<char>,
    pub limits: CompilerLimitsView,
}

impl View for ContainerRustcCompiler {
    type V = ContainerRustcCompilerView;

    closed spec fn view(&self) -> ContainerRustcCompilerView {
        ContainerRustcCompilerView {
            docker: self.docker@,
            image: self.image@,
            environment_id: self.environment_id@,
            limits: self.limits@,
        }
    }
}

impl Clone for ContainerRustcCompiler {
    fn clone(&self) -> (copy: ContainerRustcCompiler)
        ensures
            copy@ == self@,
    {
        ContainerRustcCompiler {
            docker: copy_text(self.docker.as_str()),
            image: copy_text(self.image.as_str()),
            environment_id: copy_text(self.environment_id.as_str()),
            limits: self.limits.clone(),
        }
    }
}

// ---------------------------------------------------------------------------
// Images
// ---------------------------------------------------------------------------

/// Whether a character is a hexadecimal digit of either case.
pub open spec fn is_hex(c: char) -> bool {
    ('0' <= c && c <= '9') || ('a' <= c && c <= 'f') || ('A' <= c && c <= 'F')
}

/// Whether a string is a SHA-256 digest in hexadecimal.
pub open spec fn is_sha256(digest: Seq<char>) -> bool {
    digest.len() == 64 && forall|i: int| 0 <= i < digest.len() ==> is_hex(#[trigger] digest[i])
}

/// Whether an image is immutable: named with a digest, or by the digest alone.
pub open spec fn is_pinned(image: Seq<char>) -> bool {
    occurs_in("@sha256:"@, image) || (after_prefix(image, "sha256:"@) matches Some(digest)
        && is_sha256(digest))
}

fn is_digest_text(digest: &str) -> (yes: bool)
    ensures
        yes == is_sha256(digest@),
{
    let chars = chars_of(digest);
    if chars.len() != 64 {
        return false;
    }
    let mut i: usize = 0;
    while i < chars.len()
        invariant
            i <= chars@.len(),
            chars@ == digest@,
            digest@.len() == 64,
            forall|j: int| 0 <= j < i ==> is_hex(#[trigger] digest@[j]),
        decreases chars@.len() - i,
    {
        let c = chars[i];
        if !(('0' <= c && c <= '9') || ('a' <= c && c <= 'f') || ('A' <= c && c <= 'F')) {
            return false;
        }
        i += 1;
    }
    true
}

// ---------------------------------------------------------------------------
// Arguments
// ---------------------------------------------------------------------------

/// How many seconds of processor time a limit is worth: at least one.
pub open spec fn cpu_seconds(wall_nanos: u64) -> nat {
    if wall_nanos / 1_000_000_000 == 0 {
        1
    } else {
        (wall_nanos / 1_000_000_000) as nat
    }
}

/// What keeps a container from the host: no network, nothing to write to but
/// its output, no privileges, and a bound on everything it can use up.
pub open spec fn confinement(limits: CompilerLimitsView) -> Seq<Seq<char>> {
    seq![
        "--network"@,
        "none"@,
        "--read-only"@,
        "--cap-drop"@,
        "ALL"@,
        "--security-opt"@,
        "no-new-privileges"@,
        "--user"@,
        "65532:65532"@,
        "--pids-limit"@,
        dec(limits.processes as nat),
        "--memory"@,
        dec(limits.memory_bytes as nat),
        "--memory-swap"@,
        dec(limits.memory_bytes as nat),
        "--cpus"@,
        limits.cpus,
        "--ulimit"@,
        "nofile=64:64"@,
        "--ulimit"@,
        "cpu="@ + dec(cpu_seconds(limits.wall_nanos)) + ":"@ + dec(cpu_seconds(limits.wall_nanos)),
        "--ulimit"@,
        "fsize="@ + dec(limits.artifact_bytes as nat) + ":"@ + dec(limits.artifact_bytes as nat),
        "--tmpfs"@,
        "/tmp:rw,nosuid,nodev,noexec,size=16777216,mode=1777"@,
    ]
}

/// What a container is told to compile, and into what.
pub open spec fn compilation() -> Seq<Seq<char>> {
    seq![
        "--crate-name"@,
        "submission"@,
        "--crate-type"@,
        "bin"@,
        "--edition"@,
        "2021"@,
        "--target"@,
        "wasm32-wasip1"@,
        "-C"@,
        "opt-level=1"@,
        "-C"@,
        "debuginfo=0"@,
        "-A"@,
        "unused"@,
        "-o"@,
        "/output/submission.wasm"@,
        "/input/main.rs"@,
    ]
}

impl ContainerRustcCompilerView {
    /// The arguments a container is run with.
    pub open spec fn arguments(
        self,
        name: Seq<char>,
        input: Seq<char>,
        output: Seq<char>,
    ) -> Seq<Seq<char>> {
        seq!["run"@, "--rm"@, "--name"@, name] + confinement(self.limits) + seq![
            "--mount"@,
            "type=bind,src="@ + input + ",dst=/input/main.rs,readonly"@,
            "--mount"@,
            "type=bind,src="@ + output + ",dst=/output"@,
            "--env"@,
            "RUST_BACKTRACE=0"@,
            self.image,
        ] + compilation()
    }

    /// What is said of source that no container is started for, if none is: an
    /// error, or that it does not compile.
    pub open spec fn refusal(self, source: Seq<u8>, environment_id: Seq<char>) -> Option<
        Result<CompileOutputView, JudgeErrorView>,
    > {
        if environment_id != self.environment_id {
            Some(
                Err(
                    JudgeErrorView::MalformedPackage(
                        "compiler is pinned for "@ + self.environment_id + ", not "@
                            + environment_id,
                    ),
                ),
            )
        } else if source.len() > self.limits.source_bytes {
            Some(
                Err(
                    JudgeErrorView::SecurityPolicy(
                        "source is "@ + dec(source.len()) + " bytes; compiler limit is "@ + dec(
                            self.limits.source_bytes as nat,
                        ) + " bytes"@,
                    ),
                ),
            )
        } else if !vstd::utf8::valid_utf8(source) {
            Some(
                Ok(
                    CompileOutputView::Failed {
                        diagnostics: "error: source is not valid UTF-8"@,
                    },
                ),
            )
        } else {
            None
        }
    }
}

fn push_text(list: &mut Vec<String>, text: &str)
    ensures
        texts(final(list)@) == texts(old(list)@).push(text@),
{
    let copy = copy_text(text);
    list.push(copy);
    assert(texts(list@) == texts(old(list)@).push(text@));
}

// ---------------------------------------------------------------------------
// Output
// ---------------------------------------------------------------------------

/// Keeps the first bytes of what a container prints, and remembers whether there
/// were more.
#[derive(Debug)]
pub struct Capture {
    limit: usize,
    kept: Vec<u8>,
    overflow: bool,
}

/// What a [`Capture`] holds.
#[verifier::ext_equal]
pub struct CaptureView {
    pub limit: nat,
    pub kept: Seq<u8>,
    pub overflow: bool,
}

impl View for Capture {
    type V = CaptureView;

    closed spec fn view(&self) -> CaptureView {
        CaptureView { limit: self.limit as nat, kept: self.kept@, overflow: self.overflow }
    }
}

impl CaptureView {
    /// How many bytes more are kept.
    pub open spec fn remaining(self) -> nat {
        if self.kept.len() <= self.limit {
            (self.limit - self.kept.len()) as nat
        } else {
            0
        }
    }

    /// The capture once it has been given some bytes.
    pub open spec fn given(self, chunk: Seq<u8>) -> CaptureView {
        CaptureView {
            limit: self.limit,
            kept: self.kept + at_most(chunk, self.remaining()),
            overflow: self.overflow || chunk.len() > self.remaining(),
        }
    }
}

impl Capture {
    /// A capture of at most `limit` bytes.
    pub fn new(limit: usize) -> (capture: Capture)
        ensures
            capture@ == (CaptureView { limit: limit as nat, kept: Seq::empty(), overflow: false }),
    {
        Capture { limit, kept: Vec::new(), overflow: false }
    }

    /// Take in what was read.
    pub fn push(&mut self, chunk: &[u8])
        ensures
            final(self)@ == old(self)@.given(chunk@),
    {
        let remaining: usize = if self.kept.len() <= self.limit {
            self.limit - self.kept.len()
        } else {
            0
        };
        let count: usize = if chunk.len() < remaining { chunk.len() } else { remaining };
        let mut i: usize = 0;
        assert(self.kept@ + chunk@.take(0) == self.kept@);
        while i < count
            invariant
                i <= count <= chunk@.len(),
                self.limit == old(self).limit,
                self.overflow == old(self).overflow,
                self.kept@ == old(self).kept@ + chunk@.take(i as int),
            decreases count - i,
        {
            let ghost before = self.kept@;
            self.kept.push(chunk[i]);
            assert(chunk@.take(i + 1) == chunk@.take(i as int).push(chunk@[i as int]));
            assert(self.kept@ == old(self).kept@ + chunk@.take(i + 1));
            i += 1;
        }
        assert(chunk@.take(count as int) == at_most(chunk@, remaining as nat));
        if chunk.len() > remaining {
            self.overflow = true;
        }
    }

    /// What was kept, and whether there was more.
    pub fn finish(self) -> (captured: (Vec<u8>, bool))
        ensures
            captured.0@ == self@.kept,
            captured.1 == self@.overflow,
    {
        (self.kept, self.overflow)
    }
}

/// A capture once it has been given several chunks, one after another.
pub open spec fn after_chunks(capture: CaptureView, chunks: Seq<Seq<u8>>) -> CaptureView
    decreases chunks.len(),
{
    if chunks.len() == 0 {
        capture
    } else {
        after_chunks(capture, chunks.drop_last()).given(chunks.last())
    }
}

/// However output is cut into chunks, a capture keeps exactly the first `limit`
/// bytes of it, and reports an overflow exactly when there were more.
pub proof fn capture_keeps_what_fits(limit: nat, chunks: Seq<Seq<u8>>)
    ensures
        ({
            let empty = CaptureView { limit, kept: Seq::empty(), overflow: false };
            let capture = after_chunks(empty, chunks);
            &&& capture.limit == limit
            &&& capture.kept == at_most(all_bytes(chunks), limit)
            &&& capture.overflow <==> all_bytes(chunks).len() > limit
        }),
    decreases chunks.len(),
{
    if chunks.len() > 0 {
        capture_keeps_what_fits(limit, chunks.drop_last());
        let empty = CaptureView { limit, kept: Seq::empty(), overflow: false };
        let capture = after_chunks(empty, chunks);
        assert(capture.kept == at_most(all_bytes(chunks), limit));
    }
}

// ---------------------------------------------------------------------------
// What came of a container
// ---------------------------------------------------------------------------

/// A step of running a container that can fail.
#[derive(Debug, Clone, Copy, PartialEq, Eq, Structural)]
pub enum ContainerStep {
    /// Creating a scratch directory.
    Scratch,
    /// Creating the output directory in it.
    Output,
    /// Writing the source into it.
    Input,
    /// Letting the container traverse it.
    Traverse,
    /// Making the source read-only.
    Protect,
    /// Making the output directory writable.
    Prepare,
    /// Starting the container.
    Start,
    /// Waiting for the container.
    Wait,
}

/// How a failed step is called.
pub open spec fn step_label(step: ContainerStep) -> Seq<char> {
    match step {
        ContainerStep::Scratch => "create compiler scratch directory: "@,
        ContainerStep::Output => "create compiler output directory: "@,
        ContainerStep::Input => "write compiler input: "@,
        ContainerStep::Traverse => "make compiler scratch directory traversable: "@,
        ContainerStep::Protect => "protect compiler input: "@,
        ContainerStep::Prepare => "prepare compiler output: "@,
        ContainerStep::Start => "start compiler container: "@,
        ContainerStep::Wait => "wait for compiler container: "@,
    }
}

/// What a container left behind.
#[derive(Debug, PartialEq, Eq)]
pub struct ContainerEnd {
    /// What was kept of its standard output.
    pub stdout: Vec<u8>,
    /// Whether there was more.
    pub stdout_overflow: bool,
    /// What was kept of its standard error.
    pub stderr: Vec<u8>,
    /// Whether there was more.
    pub stderr_overflow: bool,
    /// Its exit code; none where a signal ended it.
    pub code: Option<i32>,
    /// How long the artifact is, where there is one.
    pub probed: Option<u64>,
    /// How long the artifact is, or why that cannot be told.
    pub size: Result<u64, String>,
    /// The artifact, or why it cannot be read.
    pub artifact: Result<Vec<u8>, String>,
}

/// What a [`ContainerEnd`] says.
#[verifier::ext_equal]
pub struct ContainerEndView {
    pub stdout: Seq<u8>,
    pub stdout_overflow: bool,
    pub stderr: Seq<u8>,
    pub stderr_overflow: bool,
    pub code: Option<i32>,
    pub probed: Option<u64>,
    pub size: Result<u64, Seq<char>>,
    pub artifact: Result<Seq<u8>, Seq<char>>,
}

impl View for ContainerEnd {
    type V = ContainerEndView;

    open spec fn view(&self) -> ContainerEndView {
        ContainerEndView {
            stdout: self.stdout@,
            stdout_overflow: self.stdout_overflow,
            stderr: self.stderr@,
            stderr_overflow: self.stderr_overflow,
            code: self.code,
            probed: self.probed,
            size: match self.size {
                Ok(size) => Ok(size),
                Err(why) => Err(why@),
            },
            artifact: bytes_or_reason(self.artifact),
        }
    }
}

/// What came of running a container.
#[derive(Debug, PartialEq, Eq)]
pub enum ContainerRun {
    /// It did not get to run.
    Failed {
        /// Which step failed.
        step: ContainerStep,
        /// Why.
        why: String,
    },
    /// It ran for too long.
    TimedOut,
    /// Its standard output was lost.
    LostStdout,
    /// Its standard error was lost.
    LostStderr,
    /// It ran.
    Finished(ContainerEnd),
}

/// What a [`ContainerRun`] says.
#[verifier::ext_equal]
pub enum ContainerRunView {
    Failed { step: ContainerStep, why: Seq<char> },
    TimedOut,
    LostStdout,
    LostStderr,
    Finished(ContainerEndView),
}

impl View for ContainerRun {
    type V = ContainerRunView;

    open spec fn view(&self) -> ContainerRunView {
        match *self {
            ContainerRun::Failed { step, why } => ContainerRunView::Failed { step, why: why@ },
            ContainerRun::TimedOut => ContainerRunView::TimedOut,
            ContainerRun::LostStdout => ContainerRunView::LostStdout,
            ContainerRun::LostStderr => ContainerRunView::LostStderr,
            ContainerRun::Finished(end) => ContainerRunView::Finished(end@),
        }
    }
}

/// Whether diagnostics say that the bound on the artifact was hit. rustc and
/// LLVM can catch the signal for it and exit with an ordinary non-zero status.
pub open spec fn says_too_large(diagnostics: Seq<char>) -> bool {
    let lower = diagnostics.map_values(|c: char| ascii_lower(c));
    occurs_in("file too large"@, lower) || occurs_in("os error 27"@, lower)
}

/// What a container printed, its errors first.
pub open spec fn end_diagnostics(end: ContainerEndView) -> Seq<char> {
    lossy_text(end.stderr + end.stdout)
}

/// Whether there is evidence that the bound on the artifact was hit.
pub open spec fn hit_artifact_limit(limits: CompilerLimitsView, end: ContainerEndView) -> bool {
    (end.probed matches Some(length) && length >= limits.artifact_bytes as u64) || says_too_large(
        end_diagnostics(end),
    )
}

/// Whether a compiler said more than is retained. The bound is on stdout and
/// stderr together; either stream alone is captured no further than it.
pub open spec fn said_too_much(limits: CompilerLimitsView, end: ContainerEndView) -> bool {
    end.stdout_overflow || end.stderr_overflow || end.stdout.len() + end.stderr.len()
        > limits.diagnostics_bytes
}

/// What comes of a container that ran.
pub open spec fn end_result(limits: CompilerLimitsView, end: ContainerEndView) -> Result<
    CompileOutputView,
    JudgeErrorView,
> {
    let diagnostics = end_diagnostics(end);
    if said_too_much(limits, end) {
        Err(JudgeErrorView::SecurityPolicy("compiler diagnostics exceeded the output limit"@))
    } else if hit_artifact_limit(limits, end) {
        Err(
            JudgeErrorView::SecurityPolicy(
                "compiled artifact reached the "@ + dec(limits.artifact_bytes as nat)
                    + " byte output limit"@,
            ),
        )
    } else if end.code is Some && end.code->0 >= 125 {
        Err(
            JudgeErrorView::Infrastructure(
                "compiler container failed to start: "@ + trimmed(diagnostics),
            ),
        )
    } else if end.code != Some(0i32) {
        Ok(CompileOutputView::Failed { diagnostics })
    } else {
        match end.size {
            Err(why) => Err(
                JudgeErrorView::Infrastructure("compiler produced no WASI artifact: "@ + why),
            ),
            Ok(size) => if size > limits.artifact_bytes as u64 {
                Err(
                    JudgeErrorView::SecurityPolicy(
                        "compiled artifact is "@ + dec(size as nat) + " bytes; limit is "@ + dec(
                            limits.artifact_bytes as nat,
                        ) + " bytes"@,
                    ),
                )
            } else {
                match end.artifact {
                    Err(why) => Err(
                        JudgeErrorView::Infrastructure("read compiled WASI artifact: "@ + why),
                    ),
                    Ok(bytes) => if is_module(bytes) {
                        Ok(
                            CompileOutputView::Module {
                                bytes,
                                diagnostics: worth_showing(diagnostics),
                            },
                        )
                    } else {
                        Err(
                            JudgeErrorView::Infrastructure(
                                "compiler output is not a WebAssembly module"@,
                            ),
                        )
                    },
                }
            },
        }
    }
}

/// What comes of running a container.
pub open spec fn run_result(limits: CompilerLimitsView, run: ContainerRunView) -> Result<
    CompileOutputView,
    JudgeErrorView,
> {
    match run {
        ContainerRunView::Failed { step, why } => Err(
            JudgeErrorView::Infrastructure(step_label(step) + why),
        ),
        ContainerRunView::TimedOut => Err(
            JudgeErrorView::SecurityPolicy("compilation exceeded its wall-clock limit"@),
        ),
        ContainerRunView::LostStdout => Err(
            JudgeErrorView::Infrastructure("compiler stdout reader panicked"@),
        ),
        ContainerRunView::LostStderr => Err(
            JudgeErrorView::Infrastructure("compiler stderr reader panicked"@),
        ),
        ContainerRunView::Finished(end) => end_result(limits, end),
    }
}

fn policy(why: &str) -> (result: Result<CompileOutput, JudgeError>)
    ensures
        judged(result) == Err::<CompileOutputView, JudgeErrorView>(
            JudgeErrorView::SecurityPolicy(why@),
        ),
{
    Err(JudgeError::SecurityPolicy(why.to_owned()))
}

fn infrastructure(label: &str, why: &str) -> (result: Result<CompileOutput, JudgeError>)
    ensures
        judged(result) == Err::<CompileOutputView, JudgeErrorView>(
            JudgeErrorView::Infrastructure(label@ + why@),
        ),
{
    Err(JudgeError::Infrastructure(joined(label, why)))
}

impl ContainerRustcCompiler {
    /// Construct a compiler. `image` must be immutable (`name@sha256:...`).
    pub fn new(image: &str, environment_id: &str) -> (result: Result<
        ContainerRustcCompiler,
        JudgeError,
    >)
        ensures
            judged(result) == (if is_pinned(image@) {
                Ok(
                    ContainerRustcCompilerView {
                        docker: "docker"@,
                        image: image@,
                        environment_id: environment_id@,
                        limits: default_limits(),
                    },
                )
            } else {
                Err(
                    JudgeErrorView::SecurityPolicy(
                        "compiler image must be pinned by sha256 digest"@,
                    ),
                )
            }),
    {
        let local_image_id = match without_prefix(image, "sha256:") {
            Some(digest) => is_digest_text(digest.as_str()),
            None => false,
        };
        if !contains_text(image, "@sha256:") && !local_image_id {
            return Err(
                JudgeError::SecurityPolicy(
                    "compiler image must be pinned by sha256 digest".to_owned(),
                ),
            );
        }
        Ok(
            ContainerRustcCompiler {
                docker: "docker".to_owned(),
                image: copy_text(image),
                environment_id: copy_text(environment_id),
                limits: CompilerLimits::default(),
            },
        )
    }

    /// Override limits, primarily for qualification tests.
    pub fn with_limits(self, limits: CompilerLimits) -> (compiler: ContainerRustcCompiler)
        ensures
            compiler@ == (ContainerRustcCompilerView { limits: limits@, ..self@ }),
    {
        ContainerRustcCompiler {
            docker: self.docker,
            image: self.image,
            environment_id: self.environment_id,
            limits,
        }
    }

    /// Override the Docker-compatible CLI path.
    pub fn with_docker(self, docker: &str) -> (compiler: ContainerRustcCompiler)
        ensures
            compiler@ == (ContainerRustcCompilerView { docker: docker@, ..self@ }),
    {
        ContainerRustcCompiler {
            docker: copy_text(docker),
            image: self.image,
            environment_id: self.environment_id,
            limits: self.limits,
        }
    }

    /// The Docker-compatible CLI in use.
    pub fn docker(&self) -> (docker: &str)
        ensures
            docker@ == self@.docker,
    {
        self.docker.as_str()
    }

    /// The bounds in use.
    pub fn limits(&self) -> (limits: &CompilerLimits)
        ensures
            limits@ == self@.limits,
    {
        &self.limits
    }

    /// The arguments a container is run with.
    pub fn arguments(&self, name: &str, input: &str, output: &str) -> (arguments: Vec<String>)
        ensures
            texts(arguments@) == self@.arguments(name@, input@, output@),
    {
        let mut source_mount = joined("type=bind,src=", input);
        source_mount.append(",dst=/input/main.rs,readonly");
        let mut output_mount = joined("type=bind,src=", output);
        output_mount.append(",dst=/output");
        let memory = decimal(self.limits.memory_bytes);
        let whole: u64 = self.limits.wall_nanos / 1_000_000_000;
        let seconds = decimal(if whole == 0 { 1 } else { whole });
        let mut cpu = joined("cpu=", seconds.as_str());
        cpu.append(":");
        cpu.append(seconds.as_str());
        let bytes = decimal(self.limits.artifact_bytes as u64);
        let mut fsize = joined("fsize=", bytes.as_str());
        fsize.append(":");
        fsize.append(bytes.as_str());

        let mut list: Vec<String> = Vec::new();
        push_text(&mut list, "run");
        push_text(&mut list, "--rm");
        push_text(&mut list, "--name");
        push_text(&mut list, name);
        assert(texts(list@) == seq!["run"@, "--rm"@, "--name"@, name@]);
        let ghost first = texts(list@);
        self.push_confinement(&mut list, memory.as_str(), cpu.as_str(), fsize.as_str());
        let ghost second = texts(list@);
        push_text(&mut list, "--mount");
        push_text(&mut list, source_mount.as_str());
        push_text(&mut list, "--mount");
        push_text(&mut list, output_mount.as_str());
        push_text(&mut list, "--env");
        push_text(&mut list, "RUST_BACKTRACE=0");
        push_text(&mut list, self.image.as_str());
        assert(texts(list@) == second + seq![
            "--mount"@,
            source_mount@,
            "--mount"@,
            output_mount@,
            "--env"@,
            "RUST_BACKTRACE=0"@,
            self.image@,
        ]);
        push_compilation(&mut list);
        list
    }

    fn push_confinement(&self, list: &mut Vec<String>, memory: &str, cpu: &str, fsize: &str)
        requires
            memory@ == dec(self@.limits.memory_bytes as nat),
            cpu@ == "cpu="@ + dec(cpu_seconds(self@.limits.wall_nanos)) + ":"@ + dec(
                cpu_seconds(self@.limits.wall_nanos),
            ),
            fsize@ == "fsize="@ + dec(self@.limits.artifact_bytes as nat) + ":"@ + dec(
                self@.limits.artifact_bytes as nat,
            ),
        ensures
            texts(final(list)@) == texts(old(list)@) + confinement(self@.limits),
    {
        let processes = decimal(self.limits.processes as u64);
        push_text(list, "--network");
        push_text(list, "none");
        push_text(list, "--read-only");
        push_text(list, "--cap-drop");
        push_text(list, "ALL");
        push_text(list, "--security-opt");
        push_text(list, "no-new-privileges");
        push_text(list, "--user");
        push_text(list, "65532:65532");
        push_text(list, "--pids-limit");
        push_text(list, processes.as_str());
        push_text(list, "--memory");
        push_text(list, memory);
        push_text(list, "--memory-swap");
        push_text(list, memory);
        push_text(list, "--cpus");
        push_text(list, self.limits.cpus.as_str());
        push_text(list, "--ulimit");
        push_text(list, "nofile=64:64");
        push_text(list, "--ulimit");
        push_text(list, cpu);
        push_text(list, "--ulimit");
        push_text(list, fsize);
        push_text(list, "--tmpfs");
        push_text(list, "/tmp:rw,nosuid,nodev,noexec,size=16777216,mode=1777");
        assert(texts(list@) == texts(old(list)@) + confinement(self@.limits));
    }

    /// Stable identifier recorded in result manifests.
    pub fn id(&self) -> (id: &'static str)
        ensures
            id@ == "container-rustc-wasm32-wasip1"@,
    {
        "container-rustc-wasm32-wasip1"
    }

    /// Whether this backend may be given untrusted submissions.
    pub fn is_qualified_for_untrusted_code(&self) -> (yes: bool)
        ensures
            yes,
    {
        true
    }

    /// Whether to start a container for some source. Where not, this is what is
    /// said of it: an error, or that it does not compile.
    pub fn accept(&self, source: &[u8], environment_id: &str) -> (refusal: Option<
        Result<CompileOutput, JudgeError>,
    >)
        ensures
            match refusal {
                Some(result) => self@.refusal(source@, environment_id@) == Some(judged(result)),
                None => self@.refusal(source@, environment_id@) is None,
            },
    {
        if !same_text(environment_id, self.environment_id.as_str()) {
            let mut why = joined("compiler is pinned for ", self.environment_id.as_str());
            why.append(", not ");
            why.append(environment_id);
            return Some(Err(JudgeError::MalformedPackage(why)));
        }
        if source.len() > self.limits.source_bytes {
            let mut why = "source is ".to_owned();
            push_decimal(&mut why, source.len() as u64);
            why.append(" bytes; compiler limit is ");
            push_decimal(&mut why, self.limits.source_bytes as u64);
            why.append(" bytes");
            return Some(Err(JudgeError::SecurityPolicy(why)));
        }
        if utf8_text(source).is_none() {
            return Some(
                Ok(
                    CompileOutput::Failed {
                        diagnostics: "error: source is not valid UTF-8".to_owned(),
                    },
                ),
            );
        }
        None
    }

    /// Whether a container that has run for `elapsed` nanoseconds and is still
    /// running has run for too long.
    pub fn has_timed_out(&self, elapsed: u128) -> (yes: bool)
        ensures
            yes == (elapsed >= self@.limits.wall_nanos),
    {
        elapsed >= self.limits.wall_nanos as u128
    }

    /// What comes of compiling `source` for `environment_id`, given what came of
    /// running a container. Where none is started, `run` is not looked at.
    pub fn compile(&self, source: &[u8], environment_id: &str, run: ContainerRun) -> (result: Result<
        CompileOutput,
        JudgeError,
    >)
        ensures
            judged(result) == (match self@.refusal(source@, environment_id@) {
                Some(refused) => refused,
                None => run_result(self@.limits, run@),
            }),
    {
        if let Some(refused) = self.accept(source, environment_id) {
            return refused;
        }
        match run {
            ContainerRun::Failed { step, why } => {
                let label = match step {
                    ContainerStep::Scratch => "create compiler scratch directory: ",
                    ContainerStep::Output => "create compiler output directory: ",
                    ContainerStep::Input => "write compiler input: ",
                    ContainerStep::Traverse => "make compiler scratch directory traversable: ",
                    ContainerStep::Protect => "protect compiler input: ",
                    ContainerStep::Prepare => "prepare compiler output: ",
                    ContainerStep::Start => "start compiler container: ",
                    ContainerStep::Wait => "wait for compiler container: ",
                };
                infrastructure(label, why.as_str())
            },
            ContainerRun::TimedOut => policy("compilation exceeded its wall-clock limit"),
            ContainerRun::LostStdout => Err(
                JudgeError::Infrastructure("compiler stdout reader panicked".to_owned()),
            ),
            ContainerRun::LostStderr => Err(
                JudgeError::Infrastructure("compiler stderr reader panicked".to_owned()),
            ),
            ContainerRun::Finished(end) => self.conclude(end),
        }
    }

    fn conclude(&self, end: ContainerEnd) -> (result: Result<CompileOutput, JudgeError>)
        ensures
            judged(result) == end_result(self@.limits, end@),
    {
        let ghost said = end@;
        let limit: u64 = self.limits.artifact_bytes as u64;
        let said_bytes: u128 = end.stdout.len() as u128 + end.stderr.len() as u128;
        if end.stdout_overflow || end.stderr_overflow || said_bytes
            > self.limits.diagnostics_bytes as u128 {
            return policy("compiler diagnostics exceeded the output limit");
        }
        let mut printed = end.stderr;
        let mut stdout = end.stdout;
        printed.append(&mut stdout);
        assert(printed@ == said.stderr + said.stdout);
        let diagnostics = lossy_of(printed.as_slice());
        let lower = lower_text(diagnostics.as_str());
        let probed_limit = match end.probed {
            Some(length) => length >= limit,
            None => false,
        };
        // Evidence that the output file limit fired is a policy event, so that
        // it is never reported to a learner as a compile error.
        if probed_limit || contains_text(lower.as_str(), "file too large") || contains_text(
            lower.as_str(),
            "os error 27",
        ) {
            let mut why = "compiled artifact reached the ".to_owned();
            push_decimal(&mut why, limit);
            why.append(" byte output limit");
            return Err(JudgeError::SecurityPolicy(why));
        }
        if let Some(code) = end.code {
            if code >= 125 {
                return infrastructure(
                    "compiler container failed to start: ",
                    trim_text(diagnostics.as_str()).as_str(),
                );
            }
        }
        let success = match end.code {
            Some(code) => code == 0,
            None => false,
        };
        if !success {
            return Ok(CompileOutput::Failed { diagnostics });
        }
        match end.size {
            Err(why) => {
                return infrastructure("compiler produced no WASI artifact: ", why.as_str());
            },
            Ok(size) => {
                if size > limit {
                    let mut why = "compiled artifact is ".to_owned();
                    push_decimal(&mut why, size);
                    why.append(" bytes; limit is ");
                    push_decimal(&mut why, limit);
                    why.append(" bytes");
                    return Err(JudgeError::SecurityPolicy(why));
                }
            },
        }
        match end.artifact {
            Err(why) => infrastructure("read compiled WASI artifact: ", why.as_str()),
            Ok(bytes) => {
                if !has_magic(bytes.as_slice()) {
                    return Err(
                        JudgeError::Infrastructure(
                            "compiler output is not a WebAssembly module".to_owned(),
                        ),
                    );
                }
                Ok(CompileOutput::Module { bytes, diagnostics: shown_diagnostics(diagnostics) })
            },
        }
    }
}

fn push_compilation(list: &mut Vec<String>)
    ensures
        texts(final(list)@) == texts(old(list)@) + compilation(),
{
    push_text(list, "--crate-name");
    push_text(list, "submission");
    push_text(list, "--crate-type");
    push_text(list, "bin");
    push_text(list, "--edition");
    push_text(list, "2021");
    push_text(list, "--target");
    push_text(list, "wasm32-wasip1");
    push_text(list, "-C");
    push_text(list, "opt-level=1");
    push_text(list, "-C");
    push_text(list, "debuginfo=0");
    push_text(list, "-A");
    push_text(list, "unused");
    push_text(list, "-o");
    push_text(list, "/output/submission.wasm");
    push_text(list, "/input/main.rs");
    assert(texts(list@) == texts(old(list)@) + compilation());
}

// ---------------------------------------------------------------------------
// Containers that are running
// ---------------------------------------------------------------------------

/// The name of a container.
pub open spec fn container_name_of(process: u32, ordinal: u64) -> Seq<char> {
    "rustly-compile-"@ + dec(process as nat) + "-"@ + dec(ordinal as nat)
}

/// The name of the `ordinal`-th container of a process.
pub fn container_name(process: u32, ordinal: u64) -> (name: String)
    ensures
        name@ == container_name_of(process, ordinal),
{
    let mut name = "rustly-compile-".to_owned();
    push_decimal(&mut name, process as u64);
    name.append("-");
    push_decimal(&mut name, ordinal);
    name
}

/// The names of the compiler containers a worker owns at the moment, in
/// dictionary order, so that none outlives the work that created it.
#[derive(Debug)]
pub struct ActiveContainers {
    names: Vec<String>,
}

impl View for ActiveContainers {
    type V = Set<Seq<char>>;

    closed spec fn view(&self) -> Set<Seq<char>> {
        texts(self.names@).to_set()
    }
}

/// Whether a list is in dictionary order, without repetition.
pub open spec fn in_text_order(list: Seq<Seq<char>>) -> bool {
    forall|i: int, j: int|
        0 <= i < j < list.len() ==> text_less(#[trigger] list[i], #[trigger] list[j])
}

impl Default for ActiveContainers {
    fn default() -> (active: ActiveContainers)
        ensures
            active.wf(),
            active@ == Set::<Seq<char>>::empty(),
    {
        ActiveContainers::new()
    }
}

impl ActiveContainers {
    /// Whether the names are in order.
    pub closed spec fn wf(self) -> bool {
        in_text_order(texts(self.names@))
    }

    /// No containers.
    pub fn new() -> (active: ActiveContainers)
        ensures
            active.wf(),
            active@ == Set::<Seq<char>>::empty(),
    {
        let active = ActiveContainers { names: Vec::new() };
        assert(active@ == Set::<Seq<char>>::empty());
        active
    }

    /// Where a name is, or where it belongs.
    fn position(&self, name: &str) -> (at: usize)
        requires
            self.wf(),
        ensures
            at <= self.names@.len(),
            forall|i: int| 0 <= i < at ==> text_less(#[trigger] texts(self.names@)[i], name@),
            forall|i: int|
                at <= i < self.names@.len() ==> !text_less(#[trigger] texts(self.names@)[i], name@),
    {
        let ghost list = texts(self.names@);
        let mut at: usize = 0;
        while at < self.names.len() && is_text_less(self.names[at].as_str(), name)
            invariant
                at <= self.names@.len(),
                list == texts(self.names@),
                forall|i: int| 0 <= i < at ==> text_less(#[trigger] list[i], name@),
            decreases self.names@.len() - at,
        {
            assert(list[at as int] == self.names@[at as int]@);
            at += 1;
        }
        proof {
            if at < list.len() {
                assert(!text_less(list[at as int], name@));
                assert forall|i: int| at <= i < list.len() implies !text_less(
                    #[trigger] list[i],
                    name@,
                ) by {
                    if i > at && text_less(list[i], name@) {
                        assert(text_less(list[at as int], list[i]));
                        crate::text::text_less_transitive(list[at as int], list[i], name@);
                    }
                }
            }
        }
        at
    }

    /// A container is about to be started.
    pub fn insert(&mut self, name: &str)
        requires
            old(self).wf(),
        ensures
            final(self).wf(),
            final(self)@ == old(self)@.insert(name@),
    {
        let at = self.position(name);
        let ghost list = texts(self.names@);
        if at < self.names.len() && same_text(self.names[at].as_str(), name) {
            assert(list[at as int] == name@);
            assert(self@ == old(self)@.insert(name@));
            return;
        }
        let copy = copy_text(name);
        self.names.insert(at, copy);
        proof {
            let longer = texts(self.names@);
            assert(longer == list.insert(at as int, name@));
            assert forall|i: int, j: int| 0 <= i < j < longer.len() implies text_less(
                #[trigger] longer[i],
                #[trigger] longer[j],
            ) by {
                if i < at && j > at {
                    assert(text_less(list[i], list[j - 1]));
                } else if i < at && j < at {
                    assert(text_less(list[i], list[j]));
                } else if i > at {
                    assert(text_less(list[i - 1], list[j - 1]));
                } else if i == at {
                    let other = list[j - 1];
                    crate::text::text_less_total(name@, other);
                    if other == name@ {
                        if j - 1 > at {
                            assert(text_less(list[at as int], other));
                            assert(!text_less(list[at as int], name@));
                        }
                    }
                }
            }
            assert forall|x: Seq<char>| self@.contains(x) == old(self)@.insert(name@).contains(x) by {
                if longer.to_set().contains(x) {
                    let k = choose|k: int| 0 <= k < longer.len() && longer[k] == x;
                    if k < at {
                        assert(list[k] == x);
                    } else if k > at {
                        assert(list[k - 1] == x);
                    }
                }
                if list.to_set().contains(x) {
                    let k = choose|k: int| 0 <= k < list.len() && list[k] == x;
                    if k < at {
                        assert(longer[k] == x);
                    } else {
                        assert(longer[k + 1] == x);
                    }
                }
                assert(longer[at as int] == name@);
            }
            assert(self@ == old(self)@.insert(name@));
        }
    }

    /// A container is gone.
    pub fn remove(&mut self, name: &str)
        requires
            old(self).wf(),
        ensures
            final(self).wf(),
            final(self)@ == old(self)@.remove(name@),
    {
        let at = self.position(name);
        let ghost list = texts(self.names@);
        proof {
            crate::text::text_less_irreflexive(name@);
        }
        if at < self.names.len() && same_text(self.names[at].as_str(), name) {
            assert(list[at as int] == name@);
            self.names.remove(at);
            proof {
                let shorter = texts(self.names@);
                assert(shorter == list.remove(at as int));
                assert forall|i: int, j: int| 0 <= i < j < shorter.len() implies text_less(
                    #[trigger] shorter[i],
                    #[trigger] shorter[j],
                ) by {
                    let a = if i < at { i } else { i + 1 };
                    let b = if j < at { j } else { j + 1 };
                    assert(text_less(list[a], list[b]));
                }
                assert forall|x: Seq<char>|
                    self@.contains(x) == old(self)@.remove(name@).contains(x) by {
                    if shorter.to_set().contains(x) {
                        let k = choose|k: int| 0 <= k < shorter.len() && shorter[k] == x;
                        let from = if k < at { k } else { k + 1 };
                        assert(list[from] == x);
                        if x == name@ {
                            if from < at {
                                assert(text_less(list[from], name@));
                            } else {
                                assert(text_less(list[at as int], list[from]));
                            }
                        }
                    }
                    if list.to_set().contains(x) && x != name@ {
                        let k = choose|k: int| 0 <= k < list.len() && list[k] == x;
                        if k < at {
                            assert(shorter[k] == x);
                        } else {
                            assert(shorter[k - 1] == x);
                        }
                    }
                }
                assert(self@ == old(self)@.remove(name@));
            }
        } else {
            proof {
                if list.to_set().contains(name@) {
                    let k = choose|k: int| 0 <= k < list.len() && list[k] == name@;
                    if k < at {
                        assert(text_less(list[k], name@));
                    } else if k > at {
                        assert(text_less(list[at as int], list[k]));
                        assert(!text_less(list[at as int], name@));
                    }
                }
                assert(self@ == old(self)@.remove(name@));
            }
        }
    }

    /// The containers to remove by force: all of them, in order.
    ///
    /// Worker shutdown and request cancellation call this so descendants do not
    /// outlive the work that created them.
    pub fn cancel_all(&self) -> (names: Vec<String>)
        requires
            self.wf(),
        ensures
            in_text_order(texts(names@)),
            texts(names@).to_set() == self@,
    {
        crate::text::copy_texts(&self.names)
    }
}

// ---------------------------------------------------------------------------
// What the compiler promises
// ---------------------------------------------------------------------------

/// Every container is run without a network, read-only, unprivileged and
/// bounded, whatever is compiled and wherever it is mounted.
pub proof fn every_container_is_confined(
    compiler: ContainerRustcCompilerView,
    name: Seq<char>,
    input: Seq<char>,
    output: Seq<char>,
)
    ensures
        compiler.arguments(name, input, output).subrange(4, 29) == confinement(compiler.limits),
        confinement(compiler.limits).len() == 25,
        compiler.arguments(name, input, output)[35] == compiler.image,
        compiler.arguments(name, input, output).len() == 53,
{
    let all = compiler.arguments(name, input, output);
    assert(all.subrange(4, 29) == confinement(compiler.limits));
}

/// Only what the compiler itself found wrong is a compile error: a container
/// that ran, within every bound, and ended with an ordinary status. A bound that
/// was hit is a security event, and everything else an infrastructure failure.
pub proof fn bounds_are_never_compile_errors(limits: CompilerLimitsView, run: ContainerRunView)
    ensures
        run_result(limits, run) matches Ok(CompileOutputView::Failed { diagnostics }) ==> {
            &&& run matches ContainerRunView::Finished(end) && !said_too_much(limits, end)
                && !hit_artifact_limit(limits, end) && end.code != Some(0i32) && diagnostics
                == end_diagnostics(end)
        },
        run_result(limits, run) is Ok ==> (run matches ContainerRunView::Finished(end)
            && end.stdout.len() + end.stderr.len() <= limits.diagnostics_bytes),
        run_result(limits, run) matches Ok(CompileOutputView::Module { bytes, .. }) ==> is_module(
            bytes,
        ),
        run_result(limits, run) matches Err(error) ==> error.verdict() == Verdict::SecurityEvent
            || error.verdict() == Verdict::InternalError,
{
}

/// Source that is too long, or is for another environment, or is no text at all
/// is turned away before a container is started.
pub proof fn bad_source_starts_no_container(
    compiler: ContainerRustcCompilerView,
    source: Seq<u8>,
    environment_id: Seq<char>,
)
    ensures
        compiler.refusal(source, environment_id) is None <==> {
            &&& environment_id == compiler.environment_id
            &&& source.len() <= compiler.limits.source_bytes
            &&& vstd::utf8::valid_utf8(source)
        },
{
}

/// Containers of one process that are started one after another have different
/// names.
pub proof fn container_names_are_distinct(process: u32, a: u64, b: u64)
    requires
        container_name_of(process, a) == container_name_of(process, b),
    ensures
        a == b,
{
    let head = "rustly-compile-"@ + dec(process as nat) + "-"@;
    let x = dec(a as nat);
    let y = dec(b as nat);
    assert((head + x).skip(head.len() as int) == x);
    assert((head + y).skip(head.len() as int) == y);
    crate::text::dec_is_injective(a as nat, b as nat);
}

/// Whether an option of a command is set: it is there with its value behind it.
pub open spec fn sets(arguments: Seq<Seq<char>>, option: Seq<char>, value: Seq<char>) -> bool {
    exists|i: int|
        0 <= i && i + 1 < arguments.len() && #[trigger] arguments[i] == option && arguments[i + 1]
            == value
}

/// What every container is told before the image is named: no network, nothing
/// to write but its output, no privileges, the bounds that were set, and the
/// source, which it may only read.
pub proof fn what_every_container_is_told(
    compiler: ContainerRustcCompilerView,
    name: Seq<char>,
    input: Seq<char>,
    output: Seq<char>,
)
    ensures
        ({
            let all = compiler.arguments(name, input, output);
            let options = all.take(35);
            let limits = compiler.limits;
            let seconds = if limits.wall_nanos < 1_000_000_000 {
                1nat
            } else {
                (limits.wall_nanos / 1_000_000_000) as nat
            };
            &&& all[0] == "run"@ && options.contains("--rm"@)
            &&& sets(options, "--name"@, name)
            &&& sets(options, "--network"@, "none"@)
            &&& options.contains("--read-only"@)
            &&& sets(options, "--cap-drop"@, "ALL"@)
            &&& sets(options, "--security-opt"@, "no-new-privileges"@)
            &&& sets(options, "--user"@, "65532:65532"@)
            &&& sets(options, "--pids-limit"@, dec(limits.processes as nat))
            &&& sets(options, "--memory"@, dec(limits.memory_bytes as nat))
            &&& sets(options, "--memory-swap"@, dec(limits.memory_bytes as nat))
            &&& sets(options, "--cpus"@, limits.cpus)
            &&& sets(options, "--ulimit"@, "nofile=64:64"@)
            &&& sets(options, "--ulimit"@, "cpu="@ + dec(seconds) + ":"@ + dec(seconds))
            &&& sets(
                options,
                "--ulimit"@,
                "fsize="@ + dec(limits.artifact_bytes as nat) + ":"@ + dec(
                    limits.artifact_bytes as nat,
                ),
            )
            &&& sets(
                options,
                "--tmpfs"@,
                "/tmp:rw,nosuid,nodev,noexec,size=16777216,mode=1777"@,
            )
            &&& sets(
                options,
                "--mount"@,
                "type=bind,src="@ + input + ",dst=/input/main.rs,readonly"@,
            )
            &&& sets(options, "--mount"@, "type=bind,src="@ + output + ",dst=/output"@)
            &&& sets(options, "--env"@, "RUST_BACKTRACE=0"@)
            &&& all[35] == compiler.image
        }),
{
    let all = compiler.arguments(name, input, output);
    let options = all.take(35);
    assert(options[1] == "--rm"@);
    assert(options[2] == "--name"@);
    assert(options[4] == "--network"@);
    assert(options[6] == "--read-only"@);
    assert(options[7] == "--cap-drop"@);
    assert(options[9] == "--security-opt"@);
    assert(options[11] == "--user"@);
    assert(options[13] == "--pids-limit"@);
    assert(options[15] == "--memory"@);
    assert(options[17] == "--memory-swap"@);
    assert(options[19] == "--cpus"@);
    assert(options[21] == "--ulimit"@);
    assert(options[23] == "--ulimit"@);
    assert(options[25] == "--ulimit"@);
    assert(options[27] == "--tmpfs"@);
    assert(options[29] == "--mount"@);
    assert(options[31] == "--mount"@);
    assert(options[33] == "--env"@);
}

/// And what the compiler in it is told: to make a module of the source, and of
/// nothing else, where the output is.
pub proof fn what_every_compiler_is_told(
    compiler: ContainerRustcCompilerView,
    name: Seq<char>,
    input: Seq<char>,
    output: Seq<char>,
)
    ensures
        ({
            let all = compiler.arguments(name, input, output);
            let told = all.skip(36);
            &&& told.len() == 17
            &&& sets(told, "--crate-name"@, "submission"@)
            &&& sets(told, "--crate-type"@, "bin"@)
            &&& sets(told, "--edition"@, "2021"@)
            &&& sets(told, "--target"@, "wasm32-wasip1"@)
            &&& sets(told, "-C"@, "opt-level=1"@)
            &&& sets(told, "-C"@, "debuginfo=0"@)
            &&& sets(told, "-A"@, "unused"@)
            &&& sets(told, "-o"@, "/output/submission.wasm"@)
            &&& told.last() == "/input/main.rs"@
        }),
{
    let told = compiler.arguments(name, input, output).skip(36);
    assert(told[0] == "--crate-name"@);
    assert(told[2] == "--crate-type"@);
    assert(told[4] == "--edition"@);
    assert(told[6] == "--target"@);
    assert(told[8] == "-C"@);
    assert(told[10] == "-C"@);
    assert(told[12] == "-A"@);
    assert(told[14] == "-o"@);
}

/// An image is pinned where it is named with a digest, or by one alone, and
/// nowhere else.
pub proof fn which_images_are_pinned(image: Seq<char>, before: Seq<char>, behind: Seq<char>)
    ensures
        is_pinned(before + "@sha256:"@ + behind),
        behind.len() == 64 && (forall|i: int|
            0 <= i < 64 ==> ('0' <= #[trigger] behind[i] && behind[i] <= '9') || ('a' <= behind[i]
                && behind[i] <= 'f') || ('A' <= behind[i] && behind[i] <= 'F')) ==> is_pinned(
            "sha256:"@ + behind,
        ),
        is_pinned(image) ==> {
            ||| exists|i: int|
                0 <= i && i + 8 <= image.len() && #[trigger] image.subrange(i, i + 8)
                    == "@sha256:"@
            ||| image.len() == 71 && image.take(7) == "sha256:"@ && forall|i: int|
                7 <= i < 71 ==> ('0' <= #[trigger] image[i] && image[i] <= '9') || ('a' <= image[i]
                    && image[i] <= 'f') || ('A' <= image[i] && image[i] <= 'F')
        },
{
    reveal_strlit("@sha256:");
    reveal_strlit("sha256:");
    crate::text::prefixes_and_occurrences(image, "@sha256:"@, before, behind);
    crate::text::prefixes_and_occurrences(image, "sha256:"@, before, behind);
    if behind.len() == 64 && (forall|i: int|
        0 <= i < 64 ==> ('0' <= #[trigger] behind[i] && behind[i] <= '9') || ('a' <= behind[i]
            && behind[i] <= 'f') || ('A' <= behind[i] && behind[i] <= 'F')) {
        assert(is_sha256(behind));
    }
    if is_pinned(image) && !occurs_in("@sha256:"@, image) {
        let digest = after_prefix(image, "sha256:"@)->0;
        assert(image == "sha256:"@ + digest);
        assert forall|i: int| 7 <= i < 71 implies ('0' <= #[trigger] image[i] && image[i] <= '9')
            || ('a' <= image[i] && image[i] <= 'f') || ('A' <= image[i] && image[i] <= 'F') by {
            assert(is_hex(digest[i - 7]));
        }
    }
}

/// What is said of source that no container is started for: that it is for
/// another environment, then that it is too long, then that it is no text, which
/// alone is the submitter's failure to compile.
pub proof fn why_no_container_is_started(
    compiler: ContainerRustcCompilerView,
    source: Seq<u8>,
    environment_id: Seq<char>,
)
    ensures
        ({
            let refusal = compiler.refusal(source, environment_id);
            let here = environment_id == compiler.environment_id;
            let fits = source.len() <= compiler.limits.source_bytes;
            &&& !here ==> refusal == Some(
                Err::<CompileOutputView, JudgeErrorView>(
                    JudgeErrorView::MalformedPackage(
                        "compiler is pinned for "@ + compiler.environment_id + ", not "@
                            + environment_id,
                    ),
                ),
            )
            &&& here && !fits ==> refusal == Some(
                Err::<CompileOutputView, JudgeErrorView>(
                    JudgeErrorView::SecurityPolicy(
                        "source is "@ + dec(source.len()) + " bytes; compiler limit is "@ + dec(
                            compiler.limits.source_bytes as nat,
                        ) + " bytes"@,
                    ),
                ),
            )
            &&& here && fits && !vstd::utf8::valid_utf8(source) ==> refusal == Some(
                Ok::<CompileOutputView, JudgeErrorView>(
                    CompileOutputView::Failed {
                        diagnostics: "error: source is not valid UTF-8"@,
                    },
                ),
            )
        }),
{
}

/// What comes of a container that ended, in full and in order: too much said, too
/// much made, a container that did not start, a compiler that was not satisfied,
/// and an artifact that is missing, cannot be read or is no module. Where it is
/// none of these, the artifact is the module, and what was said is shown.
pub proof fn what_comes_of_a_container(limits: CompilerLimitsView, end: ContainerEndView)
    ensures
        ({
            let result = run_result(limits, ContainerRunView::Finished(end));
            let said = lossy_text(end.stderr + end.stdout);
            let much = end.stdout_overflow || end.stderr_overflow || end.stdout.len()
                + end.stderr.len() > limits.diagnostics_bytes;
            let large = (end.probed is Some && end.probed->0 >= limits.artifact_bytes)
                || says_too_large(said);
            let started = !(end.code is Some && end.code->0 >= 125);
            let satisfied = end.code == Some(0i32);
            let fine = !much && !large && started && satisfied;
            &&& much ==> result == Err::<CompileOutputView, JudgeErrorView>(
                JudgeErrorView::SecurityPolicy("compiler diagnostics exceeded the output limit"@),
            )
            &&& !much && large ==> result == Err::<CompileOutputView, JudgeErrorView>(
                JudgeErrorView::SecurityPolicy(
                    "compiled artifact reached the "@ + dec(limits.artifact_bytes as nat)
                        + " byte output limit"@,
                ),
            )
            &&& !much && !large && !started ==> result == Err::<CompileOutputView, JudgeErrorView>(
                JudgeErrorView::Infrastructure(
                    "compiler container failed to start: "@ + trimmed(said),
                ),
            )
            &&& !much && !large && started && !satisfied ==> result == Ok::<
                CompileOutputView,
                JudgeErrorView,
            >(CompileOutputView::Failed { diagnostics: said })
            &&& fine && end.size is Err ==> result == Err::<CompileOutputView, JudgeErrorView>(
                JudgeErrorView::Infrastructure(
                    "compiler produced no WASI artifact: "@ + end.size->Err_0,
                ),
            )
            &&& fine && end.size is Ok && end.size->Ok_0 > limits.artifact_bytes ==> result
                == Err::<CompileOutputView, JudgeErrorView>(
                JudgeErrorView::SecurityPolicy(
                    "compiled artifact is "@ + dec(end.size->Ok_0 as nat) + " bytes; limit is "@
                        + dec(limits.artifact_bytes as nat) + " bytes"@,
                ),
            )
            &&& fine && end.size is Ok && end.size->Ok_0 <= limits.artifact_bytes ==> {
                &&& end.artifact matches Err(why) ==> result == Err::<
                    CompileOutputView,
                    JudgeErrorView,
                >(JudgeErrorView::Infrastructure("read compiled WASI artifact: "@ + why))
                &&& end.artifact matches Ok(bytes) ==> {
                    &&& is_module(bytes) ==> result == Ok::<CompileOutputView, JudgeErrorView>(
                        CompileOutputView::Module { bytes, diagnostics: worth_showing(said) },
                    )
                    &&& !is_module(bytes) ==> result == Err::<CompileOutputView, JudgeErrorView>(
                        JudgeErrorView::Infrastructure(
                            "compiler output is not a WebAssembly module"@,
                        ),
                    )
                }
            }
        }),
{
}

/// What comes of a container that did not end by itself: one that took too long
/// is a matter of policy, and everything else is the infrastructure's, by the name
/// of the step that failed.
pub proof fn what_comes_of_a_container_that_did_not_end(
    limits: CompilerLimitsView,
    step: ContainerStep,
    why: Seq<char>,
)
    ensures
        run_result(limits, ContainerRunView::TimedOut) == Err::<CompileOutputView, JudgeErrorView>(
            JudgeErrorView::SecurityPolicy("compilation exceeded its wall-clock limit"@),
        ),
        run_result(limits, ContainerRunView::LostStdout) == Err::<CompileOutputView, JudgeErrorView>(
            JudgeErrorView::Infrastructure("compiler stdout reader panicked"@),
        ),
        run_result(limits, ContainerRunView::LostStderr) == Err::<CompileOutputView, JudgeErrorView>(
            JudgeErrorView::Infrastructure("compiler stderr reader panicked"@),
        ),
        run_result(limits, ContainerRunView::Failed { step, why }) == Err::<
            CompileOutputView,
            JudgeErrorView,
        >(
            JudgeErrorView::Infrastructure(
                (if step == ContainerStep::Scratch {
                    "create compiler scratch directory: "@
                } else if step == ContainerStep::Output {
                    "create compiler output directory: "@
                } else if step == ContainerStep::Input {
                    "write compiler input: "@
                } else if step == ContainerStep::Traverse {
                    "make compiler scratch directory traversable: "@
                } else if step == ContainerStep::Protect {
                    "protect compiler input: "@
                } else if step == ContainerStep::Prepare {
                    "prepare compiler output: "@
                } else if step == ContainerStep::Start {
                    "start compiler container: "@
                } else {
                    "wait for compiler container: "@
                }) + why,
            ),
        ),
{
}

/// Diagnostics say that too much was made where one of two phrases is in them,
/// whatever the case of its letters.
pub proof fn how_too_much_is_told(before: Seq<char>, behind: Seq<char>, diagnostics: Seq<char>)
    ensures
        ({
            let small = |c: char| ascii_lower(c);
            let lower = diagnostics.map_values(small);
            &&& lower == before + "file too large"@ + behind ==> says_too_large(diagnostics)
            &&& lower == before + "os error 27"@ + behind ==> says_too_large(diagnostics)
            &&& says_too_large(diagnostics) ==> {
                ||| exists|i: int|
                    0 <= i && i + 14 <= lower.len() && #[trigger] lower.subrange(i, i + 14)
                        == "file too large"@
                ||| exists|i: int|
                    0 <= i && i + 11 <= lower.len() && #[trigger] lower.subrange(i, i + 11)
                        == "os error 27"@
            }
        }),
{
    reveal_strlit("file too large");
    reveal_strlit("os error 27");
    let lower = diagnostics.map_values(|c: char| ascii_lower(c));
    crate::text::prefixes_and_occurrences(lower, "file too large"@, before, behind);
    crate::text::prefixes_and_occurrences(lower, "os error 27"@, before, behind);
}

/// The bounds that apply unless others are set: a quarter of a mebibyte of source
/// and as much said of it, sixteen of output, twenty seconds, half a gibibyte of
/// memory, thirty-two processes and one processor.
pub proof fn bounds_unless_others_are_set()
    ensures
        default_limits().source_bytes == 256 * 1024,
        default_limits().diagnostics_bytes == 256 * 1024,
        default_limits().artifact_bytes == 16 * 1024 * 1024,
        default_limits().wall_nanos == 20 * 1_000_000_000,
        default_limits().memory_bytes == 512 * 1024 * 1024,
        default_limits().processes == 32,
        default_limits().cpus == seq!['1'],
{
    reveal_strlit("1");
    assert("1"@ == seq!['1']);
}

/// A container goes by the process that started it and by its number.
pub proof fn names_of_containers(process: u32, ordinal: u64)
    ensures
        container_name_of(process, ordinal) == "rustly-compile-"@ + dec(process as nat) + seq!['-']
            + dec(ordinal as nat),
{
    reveal_strlit("-");
    assert("-"@ == seq!['-']);
}

/// What a container left behind says what it holds.
pub proof fn ends_say_what_they_hold(end: ContainerEnd, limits: CompilerLimits)
    ensures
        end@.stdout == end.stdout@,
        end@.stdout_overflow == end.stdout_overflow,
        end@.stderr == end.stderr@,
        end@.stderr_overflow == end.stderr_overflow,
        end@.code == end.code,
        end@.probed == end.probed,
        end.size matches Ok(size) ==> end@.size == Ok::<u64, Seq<char>>(size),
        end.size matches Err(why) ==> end@.size == Err::<u64, Seq<char>>(why@),
        end.artifact matches Ok(bytes) ==> end@.artifact == Ok::<Seq<u8>, Seq<char>>(bytes@),
        end.artifact matches Err(why) ==> end@.artifact == Err::<Seq<u8>, Seq<char>>(why@),
        limits@.source_bytes == limits.source_bytes,
        limits@.diagnostics_bytes == limits.diagnostics_bytes,
        limits@.artifact_bytes == limits.artifact_bytes,
        limits@.wall_nanos == limits.wall_nanos,
        limits@.memory_bytes == limits.memory_bytes,
        limits@.processes == limits.processes,
        limits@.cpus == limits.cpus@,
{
}

/// A capture keeps as many bytes more as its limit leaves, and one that is full
/// keeps none.
pub proof fn how_much_more_is_kept(capture: CaptureView)
    ensures
        capture.kept.len() < capture.limit ==> capture.remaining() + capture.kept.len()
            == capture.limit,
        capture.kept.len() >= capture.limit ==> capture.remaining() == 0,
{
}

} // verus!
