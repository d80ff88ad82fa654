//! Compilation.
//!
//! # Why this is a separate security domain
//!
//! Compiling untrusted Rust **is running untrusted code**. Cargo executes
//! `build.rs` at build time and expands procedural macros inside the compiler
//! process, both of which are arbitrary native code written by the submitter.
//! Nothing about the execution sandbox protects the compile step, because the
//! compile step happens before there is a `.wasm` module to sandbox.
//!
//! We therefore treat the two as different domains with different maturity:
//!
//! | Backend | Status | Safe for untrusted input |
//! | --- | --- | --- |
//! | [`PrecompiledModule`] | **IMPLEMENTED** | Yes - it compiles nothing |
//! | [`CargoCompiler`] | **EXPERIMENTAL** | **No.** Not qualified |
//!
//! [`CargoCompiler`] refuses to run unless unlocked at runtime with
//! [`CargoCompiler::unlock_for_trusted_input`].

use vstd::prelude::*;

use crate::cache::{debug_path, debug_path_of};
use crate::error::{judged, JudgeError, JudgeErrorView};
use crate::problem_format::text_option;
use crate::text::{
    copy_bytes, copy_text, joined, lossy_of, lossy_text, texts, trim_text, trimmed, utf8_text,
};
use crate::verdict::Verdict;

verus! {

/// What a compilation produced.
#[derive(Debug, PartialEq, Eq)]
#[allow(inconsistent_fields)]
pub enum CompileOutput {
    /// A module ready to execute.
    Module {
        /// The compiled WebAssembly.
        bytes: Vec<u8>,
        /// Warnings, verbatim. Preserved even on success: a learner should see
        /// them.
        diagnostics: Option<String>,
    },
    /// The submission did not compile.
    Failed {
        /// Raw `rustc` output, byte for byte. Never rewritten or summarised
        /// here; explaining a diagnostic is the UI's job.
        diagnostics: String,
    },
}

/// What a [`CompileOutput`] says.
#[verifier::ext_equal]
#[allow(inconsistent_fields)]
pub enum CompileOutputView {
    Module { bytes: Seq<u8>, diagnostics: Option<Seq<char>> },
    Failed { diagnostics: Seq<char> },
}

impl View for CompileOutput {
    type V = CompileOutputView;

    open spec fn view(&self) -> CompileOutputView {
        match *self {
            CompileOutput::Module { bytes, diagnostics } => CompileOutputView::Module {
                bytes: bytes@,
                diagnostics: text_option(diagnostics),
            },
            CompileOutput::Failed { diagnostics } => CompileOutputView::Failed {
                diagnostics: diagnostics@,
            },
        }
    }
}

impl Clone for CompileOutput {
    fn clone(&self) -> (copy: CompileOutput)
        ensures
            copy@ == self@,
    {
        match self {
            CompileOutput::Module { bytes, diagnostics } => CompileOutput::Module {
                bytes: copy_bytes(bytes.as_slice()),
                diagnostics: match diagnostics {
                    Some(text) => Some(copy_text(text.as_str())),
                    None => None,
                },
            },
            CompileOutput::Failed { diagnostics } => CompileOutput::Failed {
                diagnostics: copy_text(diagnostics.as_str()),
            },
        }
    }
}

impl CompileOutput {
    /// The module, if compilation succeeded.
    pub fn module(&self) -> (module: Option<&[u8]>)
        ensures
            match module {
                Some(found) => self@ matches CompileOutputView::Module { bytes, .. } && found@ == bytes,
                None => self@ is Failed,
            },
    {
        match self {
            CompileOutput::Module { bytes, .. } => Some(bytes.as_slice()),
            CompileOutput::Failed { .. } => None,
        }
    }
}

/// Turns submitted source into an executable module.
pub trait CompileBackend: Send + Sync {
    /// The identifier of this backend. A backend that does not state it has
    /// some fixed one.
    open spec fn known_as(&self) -> Seq<char> {
        arbitrary()
    }

    /// Whether this backend may be given untrusted submissions. A backend that
    /// does not state it always gives the same answer.
    open spec fn qualified(&self) -> bool {
        arbitrary()
    }

    /// Whether everything this backend is given is vouched for, so that nothing
    /// it is given is untrusted. A backend that does not state it cannot be
    /// relied on for it.
    open spec fn vouched_for(&self) -> bool {
        arbitrary()
    }

    /// What may come of compiling some source for an environment. A compiler
    /// may fail for reasons of its own, so this is a relation. A backend that
    /// does not state it may do anything.
    open spec fn may_compile(
        &self,
        source: Seq<u8>,
        environment_id: Seq<char>,
        result: Result<CompileOutputView, JudgeErrorView>,
    ) -> bool {
        true
    }

    /// Stable identifier recorded in result manifests.
    fn id(&self) -> (id: &'static str)
        ensures
            id@ == self.known_as(),
    ;

    /// Whether this backend may be given untrusted submissions.
    ///
    /// Returning `true` is a claim that compiling hostile Rust with this backend
    /// cannot compromise the host.
    fn is_qualified_for_untrusted_code(&self) -> (yes: bool)
        ensures
            yes == self.qualified(),
    ;

    /// Compile `source` for `environment_id`.
    ///
    /// Compiling is running what is compiled, so only a backend that is
    /// qualified for it is given source, unless the source is vouched for.
    fn compile(&self, source: &[u8], environment_id: &str) -> (result: Result<
        CompileOutput,
        JudgeError,
    >)
        requires
            self.qualified() || self.vouched_for(),
        ensures
            self.may_compile(source@, environment_id@, judged(result)),
    ;
}

/// Whether bytes begin with the WebAssembly magic number, `\0asm`.
pub open spec fn is_module(bytes: Seq<u8>) -> bool {
    bytes.len() >= 4 && bytes[0] == 0 && bytes[1] == 0x61 && bytes[2] == 0x73 && bytes[3] == 0x6d
}

/// Whether bytes begin with the WebAssembly magic number, `\0asm`.
pub(crate) fn has_magic(bytes: &[u8]) -> (yes: bool)
    ensures
        yes == is_module(bytes@),
{
    bytes.len() >= 4 && bytes[0] == 0 && bytes[1] == 0x61 && bytes[2] == 0x73 && bytes[3] == 0x6d
}

/// A "compiler" that accepts an already-compiled WebAssembly module.
///
/// This is what makes the judge testable and CI-runnable without a Rust
/// toolchain in the sandbox: the pipeline is identical, and the compile step is
/// a hash-and-validate rather than an execution. It is genuinely safe for
/// untrusted input because it never executes anything - a malformed module is
/// rejected by the sandbox at instantiation.
#[derive(Debug, Clone, Copy)]
pub struct PrecompiledModule;

impl Default for PrecompiledModule {
    fn default() -> (compiler: PrecompiledModule)
        ensures
            compiler == PrecompiledModule,
    {
        PrecompiledModule
    }
}

/// What the precompiled backend makes of its input. What is not a module is the
/// submitter's input, so it is a compile failure rather than a judge error.
pub open spec fn precompiled(source: Seq<u8>) -> CompileOutputView {
    if is_module(source) {
        CompileOutputView::Module { bytes: source, diagnostics: None }
    } else {
        CompileOutputView::Failed {
            diagnostics: "error: input is not a WebAssembly module (missing \\0asm header)"@,
        }
    }
}

impl CompileBackend for PrecompiledModule {
    open spec fn known_as(&self) -> Seq<char> {
        "precompiled"@
    }

    open spec fn qualified(&self) -> bool {
        true
    }

    open spec fn may_compile(
        &self,
        source: Seq<u8>,
        environment_id: Seq<char>,
        result: Result<CompileOutputView, JudgeErrorView>,
    ) -> bool {
        result == Ok::<CompileOutputView, JudgeErrorView>(precompiled(source))
    }

    fn id(&self) -> &'static str {
        "precompiled"
    }

    fn is_qualified_for_untrusted_code(&self) -> bool {
        true
    }

    fn compile(&self, source: &[u8], _environment_id: &str) -> Result<CompileOutput, JudgeError> {
        if !has_magic(source) {
            return Ok(
                CompileOutput::Failed {
                    diagnostics: "error: input is not a WebAssembly module (missing \\0asm header)".to_owned(),
                },
            );
        }
        Ok(CompileOutput::Module { bytes: copy_bytes(source), diagnostics: None })
    }
}

// ---------------------------------------------------------------------------
// Cargo
// ---------------------------------------------------------------------------

/// Compiles Rust with Cargo for `wasm32-wasip1`.
///
/// # Status: EXPERIMENTAL - not qualified for untrusted code
///
/// This backend shells out to Cargo. Cargo runs `build.rs` and expands
/// procedural macros, both arbitrary native code from the submitter, with the
/// privileges of the worker process. Until that is confined by a sandbox of its
/// own, this backend must only be pointed at input you already trust: your own
/// reference solutions, content-repository validation, and local development.
///
/// It fails closed. Constructing it is not enough;
/// [`Self::unlock_for_trusted_input`] must be called, and the name says what the
/// caller is asserting.
///
/// Cargo itself is run by the caller: [`CargoCompiler::accept`] says whether to,
/// and [`CargoCompiler::compile`] what came of it.
#[derive(Debug)]
pub struct CargoCompiler {
    unlocked: bool,
    cargo: String,
}

/// What a [`CargoCompiler`] is set to.
#[verifier::ext_equal]
pub struct CargoCompilerView {
    pub unlocked: bool,
    pub cargo: Seq<char>,
}

impl View for CargoCompiler {
    type V = CargoCompilerView;

    closed spec fn view(&self) -> CargoCompilerView {
        CargoCompilerView { unlocked: self.unlocked, cargo: self.cargo@ }
    }
}

impl Clone for CargoCompiler {
    fn clone(&self) -> (copy: CargoCompiler)
        ensures
            copy@ == self@,
    {
        CargoCompiler { unlocked: self.unlocked, cargo: copy_text(self.cargo.as_str()) }
    }
}

impl Default for CargoCompiler {
    fn default() -> (compiler: CargoCompiler)
        ensures
            compiler@ == (CargoCompilerView { unlocked: false, cargo: "cargo"@ }),
    {
        CargoCompiler::new()
    }
}

/// What came of running Cargo in a fresh workspace.
#[derive(Debug, PartialEq, Eq)]
pub enum CargoRun {
    /// No workspace could be created.
    NoWorkspace(String),
    /// Its `src/` could not be created.
    NoSourceDirectory(String),
    /// The source could not be written.
    NoSource(String),
    /// The manifest could not be written.
    NoManifest(String),
    /// Cargo could not be run.
    NoCargo(String),
    /// Cargo ran.
    Finished {
        /// Whether it reported success.
        success: bool,
        /// What it printed.
        stderr: Vec<u8>,
        /// Where the artifact was looked for.
        artifact_path: String,
        /// The artifact, or why there is none.
        artifact: Result<Vec<u8>, String>,
    },
}

/// What a [`CargoRun`] says.
#[verifier::ext_equal]
pub enum CargoRunView {
    NoWorkspace(Seq<char>),
    NoSourceDirectory(Seq<char>),
    NoSource(Seq<char>),
    NoManifest(Seq<char>),
    NoCargo(Seq<char>),
    Finished {
        success: bool,
        stderr: Seq<u8>,
        artifact_path: Seq<char>,
        artifact: Result<Seq<u8>, Seq<char>>,
    },
}

/// Bytes that may have been read, or why not.
pub open spec fn bytes_or_reason(read: Result<Vec<u8>, String>) -> Result<Seq<u8>, Seq<char>> {
    match read {
        Ok(bytes) => Ok(bytes@),
        Err(why) => Err(why@),
    }
}

impl View for CargoRun {
    type V = CargoRunView;

    open spec fn view(&self) -> CargoRunView {
        match *self {
            CargoRun::NoWorkspace(why) => CargoRunView::NoWorkspace(why@),
            CargoRun::NoSourceDirectory(why) => CargoRunView::NoSourceDirectory(why@),
            CargoRun::NoSource(why) => CargoRunView::NoSource(why@),
            CargoRun::NoManifest(why) => CargoRunView::NoManifest(why@),
            CargoRun::NoCargo(why) => CargoRunView::NoCargo(why@),
            CargoRun::Finished { success, stderr, artifact_path, artifact } =>
                CargoRunView::Finished {
                success,
                stderr: stderr@,
                artifact_path: artifact_path@,
                artifact: bytes_or_reason(artifact),
            },
        }
    }
}

/// What a locked Cargo compiler answers.
pub open spec fn cargo_locked() -> JudgeErrorView {
    JudgeErrorView::SecurityPolicy(
        "the Cargo compiler is EXPERIMENTAL and locked; it executes build.rs and procedural macros from the input. Call unlock_for_trusted_input() only for source you already trust."@,
    )
}

/// Diagnostics, where there is more to them than white space.
pub open spec fn worth_showing(diagnostics: Seq<char>) -> Option<Seq<char>> {
    if trimmed(diagnostics).len() > 0 {
        Some(diagnostics)
    } else {
        None
    }
}

/// Diagnostics, where there is more to them than white space.
pub(crate) fn shown_diagnostics(diagnostics: String) -> (shown: Option<String>)
    ensures
        text_option(shown) == worth_showing(diagnostics@),
{
    if trim_text(diagnostics.as_str()).as_str().is_empty() {
        None
    } else {
        Some(diagnostics)
    }
}

/// Why a Cargo compiler does not take some source, if it does not.
pub open spec fn cargo_refusal(unlocked: bool, source: Seq<u8>) -> Option<JudgeErrorView> {
    if !unlocked {
        Some(cargo_locked())
    } else if !vstd::utf8::valid_utf8(source) {
        Some(JudgeErrorView::MalformedPackage("submitted source is not valid UTF-8"@))
    } else {
        None
    }
}

/// What comes of compiling with Cargo.
pub open spec fn cargo_result(environment_id: Seq<char>, run: CargoRunView) -> Result<
    CompileOutputView,
    JudgeErrorView,
> {
    match run {
        CargoRunView::NoWorkspace(why) => Err(
            JudgeErrorView::Infrastructure("cannot create a workspace: "@ + why),
        ),
        CargoRunView::NoSourceDirectory(why) => Err(
            JudgeErrorView::Infrastructure("cannot create src/: "@ + why),
        ),
        CargoRunView::NoSource(why) => Err(
            JudgeErrorView::Infrastructure("cannot write source: "@ + why),
        ),
        CargoRunView::NoManifest(why) => Err(
            JudgeErrorView::Infrastructure("cannot write manifest: "@ + why),
        ),
        CargoRunView::NoCargo(why) => Err(JudgeErrorView::Infrastructure("cannot run cargo: "@ + why)),
        CargoRunView::Finished { success, stderr, artifact_path, artifact } => if !success {
            Ok(CompileOutputView::Failed { diagnostics: lossy_text(stderr) })
        } else {
            match artifact {
                Ok(bytes) => Ok(
                    CompileOutputView::Module {
                        bytes,
                        diagnostics: worth_showing(lossy_text(stderr)),
                    },
                ),
                Err(why) => Err(
                    JudgeErrorView::Infrastructure(
                        "cargo reported success for "@ + environment_id + " but "@ + debug_path(
                            artifact_path,
                        ) + " is missing: "@ + why,
                    ),
                ),
            }
        },
    }
}

fn infrastructure(label: &str, why: &String) -> (result: Result<CompileOutput, JudgeError>)
    ensures
        judged(result) == Err::<CompileOutputView, JudgeErrorView>(
            JudgeErrorView::Infrastructure(label@ + why@),
        ),
{
    Err(JudgeError::Infrastructure(joined(label, why.as_str())))
}

/// The arguments Cargo is run with.
pub open spec fn cargo_arguments() -> Seq<Seq<char>> {
    seq!["build"@, "--target"@, "wasm32-wasip1"@, "--offline"@, "--quiet"@]
}

/// The manifest of the workspace. No dependencies: nothing is fetched, so the
/// compile step needs no network at all.
pub const CARGO_MANIFEST: &'static str = "[package]\nname = \"submission\"\nversion = \"0.0.0\"\nedition = \"2021\"\n\n[dependencies]\n\n[profile.dev]\ndebug = false\n";

/// Where the artifact is, below the workspace.
pub const CARGO_ARTIFACT: &'static str = "target/wasm32-wasip1/debug/submission.wasm";

impl CargoCompiler {
    /// A locked compiler. It will refuse to run.
    pub fn new() -> (compiler: CargoCompiler)
        ensures
            compiler@ == (CargoCompilerView { unlocked: false, cargo: "cargo"@ }),
    {
        CargoCompiler { unlocked: false, cargo: "cargo".to_owned() }
    }

    /// Assert that the input to this compiler is trusted, and unlock it.
    ///
    /// The verbose name is the point: this is not a configuration knob, it is a
    /// statement about where the source came from.
    pub fn unlock_for_trusted_input(self) -> (compiler: CargoCompiler)
        ensures
            compiler@ == (CargoCompilerView { unlocked: true, ..self@ }),
    {
        CargoCompiler { unlocked: true, cargo: self.cargo }
    }

    /// Use a specific `cargo` binary.
    pub fn with_cargo(self, cargo: &str) -> (compiler: CargoCompiler)
        ensures
            compiler@ == (CargoCompilerView { cargo: cargo@, ..self@ }),
    {
        CargoCompiler { unlocked: self.unlocked, cargo: copy_text(cargo) }
    }

    /// The `cargo` binary in use.
    pub fn cargo(&self) -> (cargo: &str)
        ensures
            cargo@ == self@.cargo,
    {
        self.cargo.as_str()
    }

    /// The arguments Cargo is run with.
    pub fn arguments(&self) -> (arguments: Vec<String>)
        ensures
            texts(arguments@) == cargo_arguments(),
    {
        let mut arguments: Vec<String> = Vec::new();
        arguments.push("build".to_owned());
        arguments.push("--target".to_owned());
        arguments.push("wasm32-wasip1".to_owned());
        arguments.push("--offline".to_owned());
        arguments.push("--quiet".to_owned());
        assert(texts(arguments@) == cargo_arguments());
        arguments
    }

    /// Stable identifier recorded in result manifests.
    pub fn id(&self) -> (id: &'static str)
        ensures
            id@ == "cargo-wasm32-wasip1"@,
    {
        "cargo-wasm32-wasip1"
    }

    /// Never: unlocking asserts the *input* is trusted; it does not make the
    /// backend safe for input that is not.
    pub fn is_qualified_for_untrusted_code(&self) -> (yes: bool)
        ensures
            !yes,
    {
        false
    }

    /// Whether Cargo may be run on some source at all.
    pub fn accept(&self, source: &[u8]) -> (result: Result<(), JudgeError>)
        ensures
            judged(result) == (match cargo_refusal(self@.unlocked, source@) {
                Some(error) => Err(error),
                None => Ok(()),
            }),
    {
        if !self.unlocked {
            return Err(
                JudgeError::SecurityPolicy(
                    "the Cargo compiler is EXPERIMENTAL and locked; it executes build.rs and procedural macros from the input. Call unlock_for_trusted_input() only for source you already trust.".to_owned(),
                ),
            );
        }
        if utf8_text(source).is_none() {
            return Err(
                JudgeError::MalformedPackage("submitted source is not valid UTF-8".to_owned()),
            );
        }
        Ok(())
    }

    /// What comes of compiling `source` for `environment_id`, given what came of
    /// running Cargo. What is not accepted is refused, whatever `run` says.
    pub fn compile(&self, source: &[u8], environment_id: &str, run: CargoRun) -> (result: Result<
        CompileOutput,
        JudgeError,
    >)
        ensures
            judged(result) == (match cargo_refusal(self@.unlocked, source@) {
                Some(error) => Err(error),
                None => cargo_result(environment_id@, run@),
            }),
    {
        if let Err(error) = self.accept(source) {
            return Err(error);
        }
        match run {
            CargoRun::NoWorkspace(why) => infrastructure("cannot create a workspace: ", &why),
            CargoRun::NoSourceDirectory(why) => infrastructure("cannot create src/: ", &why),
            CargoRun::NoSource(why) => infrastructure("cannot write source: ", &why),
            CargoRun::NoManifest(why) => infrastructure("cannot write manifest: ", &why),
            CargoRun::NoCargo(why) => infrastructure("cannot run cargo: ", &why),
            CargoRun::Finished { success, stderr, artifact_path, artifact } => {
                let diagnostics = lossy_of(stderr.as_slice());
                if !success {
                    return Ok(CompileOutput::Failed { diagnostics });
                }
                match artifact {
                    Ok(bytes) => Ok(
                        CompileOutput::Module { bytes, diagnostics: shown_diagnostics(diagnostics) },
                    ),
                    Err(why) => {
                        let mut message = joined("cargo reported success for ", environment_id);
                        message.append(" but ");
                        message.append(debug_path_of(artifact_path.as_str()).as_str());
                        message.append(" is missing: ");
                        message.append(why.as_str());
                        Err(JudgeError::Infrastructure(message))
                    },
                }
            },
        }
    }
}

/// A Cargo compiler that has not been unlocked never compiles anything, whatever
/// it is given; what it answers is a security event. Unlocking is the only way
/// to change that, and choosing a binary is not.
pub proof fn locked_compiler_compiles_nothing(source: Seq<u8>)
    ensures
        cargo_refusal(false, source) == Some(cargo_locked()),
        cargo_locked().verdict() == Verdict::SecurityEvent,
{
}

/// Where Cargo does not get as far as compiling, or loses what it compiled, the
/// infrastructure is to blame and not the submission.
pub proof fn cargo_failures_are_infrastructure(environment_id: Seq<char>, run: CargoRunView)
    ensures
        cargo_result(environment_id, run) matches Err(error) ==> error.verdict()
            == Verdict::InternalError,
        (cargo_result(environment_id, run) matches Ok(output) && output is Failed) <==> (
        run is Finished && !run->success),
{
}

/// A module begins with four bytes, a NUL and `asm`, and nothing that does not is
/// one.
pub proof fn modules_begin_with_their_mark(bytes: Seq<u8>)
    ensures
        is_module(bytes) <==> bytes.len() >= 4 && bytes.take(4) == seq![0u8, 97, 115, 109],
{
    if bytes.len() >= 4 {
        let head = bytes.take(4);
        assert(head[0] == bytes[0] && head[1] == bytes[1] && head[2] == bytes[2] && head[3]
            == bytes[3]);
        if is_module(bytes) {
            assert(head == seq![0u8, 97, 115, 109]);
        }
    }
}

/// A module that is handed in is handed on as it is, with nothing said of it; and
/// what is none is the submitter's failure.
pub proof fn modules_are_handed_on_as_they_are(source: Seq<u8>)
    ensures
        is_module(source) ==> precompiled(source) == (CompileOutputView::Module {
            bytes: source,
            diagnostics: None,
        }),
        !is_module(source) ==> precompiled(source) == (CompileOutputView::Failed {
            diagnostics: "error: input is not a WebAssembly module (missing \\0asm header)"@,
        }),
{
}

/// Diagnostics are shown as they are, or, where they are nothing but white space,
/// not at all.
pub proof fn diagnostics_are_shown_as_they_are(diagnostics: Seq<char>)
    ensures
        worth_showing(diagnostics) == Some(diagnostics) || worth_showing(diagnostics) is None,
        worth_showing(diagnostics) is None <==> crate::text::blank(diagnostics),
{
    crate::text::trimming_takes_white_space_alone(diagnostics);
    let kept = trimmed(diagnostics);
    if kept.len() == 0 {
        let before = choose|before: int|
            {
                &&& 0 <= before
                &&& before + kept.len() <= diagnostics.len()
                &&& crate::text::blank(#[trigger] diagnostics.take(before))
                &&& diagnostics.subrange(before, before + kept.len()) == kept
                &&& crate::text::blank(diagnostics.skip(before + kept.len()))
            };
        assert forall|i: int| 0 <= i < diagnostics.len() implies crate::text::is_space(
            #[trigger] diagnostics[i],
        ) by {
            if i < before {
                assert(diagnostics.take(before)[i] == diagnostics[i]);
            } else {
                assert(diagnostics.skip(before)[i - before] == diagnostics[i]);
            }
        }
    } else {
        let before = choose|before: int|
            {
                &&& 0 <= before
                &&& before + kept.len() <= diagnostics.len()
                &&& crate::text::blank(#[trigger] diagnostics.take(before))
                &&& diagnostics.subrange(before, before + kept.len()) == kept
                &&& crate::text::blank(diagnostics.skip(before + kept.len()))
            };
        assert(diagnostics.subrange(before, before + kept.len())[0] == diagnostics[before]);
    }
}

/// Cargo takes nothing while it is locked, and then nothing that is no text.
pub proof fn what_cargo_does_not_take(unlocked: bool, source: Seq<u8>)
    ensures
        !unlocked ==> cargo_refusal(unlocked, source) == Some(
            JudgeErrorView::SecurityPolicy(
                "the Cargo compiler is EXPERIMENTAL and locked; it executes build.rs and procedural macros from the input. Call unlock_for_trusted_input() only for source you already trust."@,
            ),
        ),
        unlocked && !vstd::utf8::valid_utf8(source) ==> cargo_refusal(unlocked, source) == Some(
            JudgeErrorView::MalformedPackage("submitted source is not valid UTF-8"@),
        ),
        unlocked && vstd::utf8::valid_utf8(source) ==> cargo_refusal(unlocked, source) is None,
{
}

/// What comes of Cargo: its own words where it did not succeed, the artifact it
/// made and its words, if any, where it did, and otherwise what went wrong.
pub proof fn what_comes_of_cargo(
    environment_id: Seq<char>,
    why: Seq<char>,
    success: bool,
    stderr: Seq<u8>,
    artifact_path: Seq<char>,
    artifact: Result<Seq<u8>, Seq<char>>,
)
    ensures
        cargo_result(environment_id, CargoRunView::NoWorkspace(why)) == Err::<
            CompileOutputView,
            JudgeErrorView,
        >(JudgeErrorView::Infrastructure("cannot create a workspace: "@ + why)),
        cargo_result(environment_id, CargoRunView::NoSourceDirectory(why)) == Err::<
            CompileOutputView,
            JudgeErrorView,
        >(JudgeErrorView::Infrastructure("cannot create src/: "@ + why)),
        cargo_result(environment_id, CargoRunView::NoSource(why)) == Err::<
            CompileOutputView,
            JudgeErrorView,
        >(JudgeErrorView::Infrastructure("cannot write source: "@ + why)),
        cargo_result(environment_id, CargoRunView::NoManifest(why)) == Err::<
            CompileOutputView,
            JudgeErrorView,
        >(JudgeErrorView::Infrastructure("cannot write manifest: "@ + why)),
        cargo_result(environment_id, CargoRunView::NoCargo(why)) == Err::<
            CompileOutputView,
            JudgeErrorView,
        >(JudgeErrorView::Infrastructure("cannot run cargo: "@ + why)),
        ({
            let run = CargoRunView::Finished { success, stderr, artifact_path, artifact };
            let result = cargo_result(environment_id, run);
            &&& !success ==> result == Ok::<CompileOutputView, JudgeErrorView>(
                CompileOutputView::Failed { diagnostics: lossy_text(stderr) },
            )
            &&& success && artifact is Ok ==> result is Ok && result->Ok_0 is Module && {
                let made = result->Ok_0;
                &&& made->Module_bytes == artifact->Ok_0
                &&& made->Module_diagnostics == worth_showing(lossy_text(stderr))
            }
            &&& success && artifact is Err ==> result == Err::<CompileOutputView, JudgeErrorView>(
                JudgeErrorView::Infrastructure(
                    "cargo reported success for "@ + environment_id + " but "@ + debug_path(
                        artifact_path,
                    ) + " is missing: "@ + artifact->Err_0,
                ),
            )
        }),
{
}

/// Cargo builds for the target that is executed, without the network.
pub proof fn cargo_stays_offline()
    ensures
        cargo_arguments()[0] == "build"@,
        cargo_arguments()[1] == "--target"@ && cargo_arguments()[2] == "wasm32-wasip1"@,
        cargo_arguments().contains("--offline"@),
        cargo_arguments().contains("--quiet"@),
        cargo_arguments().len() == 5,
{
    assert(cargo_arguments()[3] == "--offline"@);
    assert(cargo_arguments()[4] == "--quiet"@);
}

/// What was compiled, and what came of Cargo, say what they hold.
pub proof fn compilations_say_what_they_hold(output: CompileOutput, run: CargoRun)
    ensures
        match output {
            CompileOutput::Module { bytes, diagnostics } => output@ == (CompileOutputView::Module {
                bytes: bytes@,
                diagnostics: if diagnostics is Some {
                    Some(diagnostics->0@)
                } else {
                    None
                },
            }),
            CompileOutput::Failed { diagnostics } => output@ == (CompileOutputView::Failed {
                diagnostics: diagnostics@,
            }),
        },
        run matches CargoRun::Finished { success, stderr, artifact_path, artifact } ==> run@ == (
        CargoRunView::Finished {
            success,
            stderr: stderr@,
            artifact_path: artifact_path@,
            artifact: if artifact is Ok {
                Ok(artifact->Ok_0@)
            } else {
                Err(artifact->Err_0@)
            },
        }),
{
}

} // verus!
