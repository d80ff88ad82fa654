//! The execution-backend abstraction.

use vstd::prelude::*;

use crate::error::{judged, JudgeError, JudgeErrorView};
use crate::limits::{LimitViolation, Limits};
use crate::text::{copy_bytes, copy_text, joined, lossy_of, lossy_text, texts};
use crate::verdict::{Verdict, VerdictClass};

verus! {

/// One execution request.
#[derive(Debug, Clone)]
pub struct ExecutionRequest<'a> {
    /// The compiled module to run.
    pub module: &'a [u8],
    /// Bytes written to the guest's stdin.
    pub stdin: &'a [u8],
    /// Command-line arguments passed to the guest.
    pub args: &'a [String],
    /// Bounds to enforce.
    pub limits: Limits,
}

/// What an [`ExecutionRequest`] says.
#[verifier::ext_equal]
pub struct ExecutionRequestView {
    pub module: Seq<u8>,
    pub stdin: Seq<u8>,
    pub args: Seq<Seq<char>>,
    pub limits: Limits,
}

impl<'a> View for ExecutionRequest<'a> {
    type V = ExecutionRequestView;

    open spec fn view(&self) -> ExecutionRequestView {
        ExecutionRequestView {
            module: self.module@,
            stdin: self.stdin@,
            args: texts(self.args@),
            limits: self.limits,
        }
    }
}

/// How an execution ended.
#[derive(Debug, PartialEq, Eq)]
pub enum TerminationReason {
    /// The guest returned normally.
    Exited {
        /// Process exit code as reported by WASI.
        code: i32,
    },
    /// The guest trapped: unreachable, out-of-bounds, integer divide by zero,
    /// an explicit panic, or a stack overflow.
    Trapped {
        /// Short description, safe to show a user.
        detail: String,
    },
    /// A bound was exceeded.
    LimitExceeded {
        /// Which bound.
        violation: LimitViolation,
    },
}

/// What a [`TerminationReason`] says.
#[verifier::ext_equal]
pub enum TerminationReasonView {
    Exited { code: i32 },
    Trapped { detail: Seq<char> },
    LimitExceeded { violation: LimitViolation },
}

impl View for TerminationReason {
    type V = TerminationReasonView;

    open spec fn view(&self) -> TerminationReasonView {
        match *self {
            TerminationReason::Exited { code } => TerminationReasonView::Exited { code },
            TerminationReason::Trapped { detail } => TerminationReasonView::Trapped {
                detail: detail@,
            },
            TerminationReason::LimitExceeded { violation } => TerminationReasonView::LimitExceeded {
                violation,
            },
        }
    }
}

impl Clone for TerminationReason {
    fn clone(&self) -> (copy: TerminationReason)
        ensures
            copy@ == self@,
    {
        match self {
            TerminationReason::Exited { code } => TerminationReason::Exited { code: *code },
            TerminationReason::Trapped { detail } => TerminationReason::Trapped {
                detail: copy_text(detail.as_str()),
            },
            TerminationReason::LimitExceeded { violation } => TerminationReason::LimitExceeded {
                violation: *violation,
            },
        }
    }
}

impl TerminationReasonView {
    /// The verdict implied by termination alone; none after a clean exit.
    pub open spec fn verdict(self) -> Option<Verdict> {
        match self {
            TerminationReasonView::Exited { code } => if code == 0 {
                None
            } else {
                Some(Verdict::RuntimeError)
            },
            TerminationReasonView::Trapped { .. } => Some(Verdict::RuntimeError),
            TerminationReasonView::LimitExceeded { violation } => Some(violation.verdict_of()),
        }
    }
}

/// What an execution produced.
#[derive(Debug, PartialEq, Eq)]
pub struct ExecutionOutcome {
    /// How it ended.
    pub termination: TerminationReason,
    /// Captured stdout, truncated at the output bound.
    pub stdout: Vec<u8>,
    /// Captured stderr, truncated at the output bound.
    pub stderr: Vec<u8>,
    /// Wall-clock duration, milliseconds.
    pub wall_ms: u64,
    /// Work units consumed, when the backend measures them.
    pub fuel_consumed: Option<u64>,
    /// Peak linear memory observed, bytes.
    pub peak_memory_bytes: u64,
}

/// What an [`ExecutionOutcome`] says.
#[verifier::ext_equal]
pub struct ExecutionOutcomeView {
    pub termination: TerminationReasonView,
    pub stdout: Seq<u8>,
    pub stderr: Seq<u8>,
    pub wall_ms: u64,
    pub fuel_consumed: Option<u64>,
    pub peak_memory_bytes: u64,
}

impl View for ExecutionOutcome {
    type V = ExecutionOutcomeView;

    open spec fn view(&self) -> ExecutionOutcomeView {
        ExecutionOutcomeView {
            termination: self.termination@,
            stdout: self.stdout@,
            stderr: self.stderr@,
            wall_ms: self.wall_ms,
            fuel_consumed: self.fuel_consumed,
            peak_memory_bytes: self.peak_memory_bytes,
        }
    }
}

impl Clone for ExecutionOutcome {
    fn clone(&self) -> (copy: ExecutionOutcome)
        ensures
            copy@ == self@,
    {
        ExecutionOutcome {
            termination: self.termination.clone(),
            stdout: copy_bytes(self.stdout.as_slice()),
            stderr: copy_bytes(self.stderr.as_slice()),
            wall_ms: self.wall_ms,
            fuel_consumed: self.fuel_consumed,
            peak_memory_bytes: self.peak_memory_bytes,
        }
    }
}

impl ExecutionOutcome {
    /// The verdict implied by termination alone.
    ///
    /// A clean exit yields `None`: correctness is the checker's job, not the
    /// sandbox's. The sandbox only reports how the program *ended*.
    pub fn termination_verdict(&self) -> (verdict: Option<Verdict>)
        ensures
            verdict == self@.termination.verdict(),
    {
        match &self.termination {
            TerminationReason::Exited { code } => {
                if *code == 0 {
                    None
                } else {
                    Some(Verdict::RuntimeError)
                }
            },
            TerminationReason::Trapped { .. } => Some(Verdict::RuntimeError),
            TerminationReason::LimitExceeded { violation } => Some(violation.verdict()),
        }
    }

    /// Whether the guest exited cleanly.
    pub fn is_clean_exit(&self) -> (yes: bool)
        ensures
            yes == (self@.termination == TerminationReasonView::Exited { code: 0 }),
    {
        match &self.termination {
            TerminationReason::Exited { code } => *code == 0,
            _ => false,
        }
    }

    /// Stdout as UTF-8, lossily. Guest output is arbitrary bytes.
    pub fn stdout_lossy(&self) -> (text: String)
        ensures
            text@ == lossy_text(self@.stdout),
    {
        lossy_of(self.stdout.as_slice())
    }
}

/// How a program ends never is the judge's fault, never is a compile error, and
/// never means that the answer is right: only a clean exit leaves that open.
pub proof fn termination_blames_the_program(reason: TerminationReasonView)
    ensures
        reason.verdict() matches Some(verdict) ==> verdict.class_of() == VerdictClass::UserFault
            && verdict != Verdict::CompileError && verdict != Verdict::SecurityEvent && verdict
            != Verdict::WrongAnswer,
        reason.verdict() is None <==> reason == (TerminationReasonView::Exited { code: 0 }),
{
}

/// A sandboxed execution backend.
///
/// Implementations must enforce every bound in [`Limits`] and must not give the
/// guest network access, host filesystem access outside an explicitly granted
/// directory, an environment, or a real clock beyond what WASI defines.
pub trait ExecutionBackend: Send + Sync {
    /// The identifier of this backend. A backend that does not state it has
    /// some fixed one.
    open spec fn known_as(&self) -> Seq<char> {
        arbitrary()
    }

    /// Whether this backend is qualified for untrusted submissions. A backend
    /// that does not state it always gives the same answer.
    open spec fn qualified(&self) -> bool {
        arbitrary()
    }

    /// Whether this backend runs nothing of what it is handed, and so may be
    /// handed anything. A backend that does not state it cannot be relied on for
    /// it.
    open spec fn inert(&self) -> bool {
        arbitrary()
    }

    /// What may come of a request. A program may behave differently from one
    /// run to the next, so this is a relation. A backend that does not state it
    /// may do anything.
    open spec fn may_yield(
        &self,
        request: ExecutionRequestView,
        result: Result<ExecutionOutcomeView, JudgeErrorView>,
    ) -> bool {
        true
    }

    /// Stable identifier recorded in result manifests, e.g. `"wasmtime"`.
    fn id(&self) -> (id: &'static str)
        ensures
            id@ == self.known_as(),
    ;

    /// Whether this backend has been qualified for untrusted submissions.
    ///
    /// A backend that returns `false` must not be handed user code. The grader
    /// checks this, so an unqualified backend cannot be used by accident.
    fn is_qualified_for_untrusted_code(&self) -> (yes: bool)
        ensures
            yes == self.qualified(),
    ;

    /// Execute `request`.
    ///
    /// Returns `Err` only for *judge* failures. A guest that traps, loops
    /// forever, or floods stdout is a successful execution with a
    /// [`TerminationReason`] saying so - that is a fact about the user's
    /// program, not a failure of ours.
    ///
    /// Only a backend that is qualified for it is handed a program, unless it is
    /// one that runs nothing.
    fn execute(&self, request: ExecutionRequest<'_>) -> (result: Result<
        ExecutionOutcome,
        JudgeError,
    >)
        requires
            self.qualified() || self.inert(),
        ensures
            self.may_yield(request@, judged(result)),
    ;
}

/// What a backend that is not qualified is answered.
pub open spec fn unqualified_error(id: Seq<char>) -> JudgeErrorView {
    JudgeErrorView::Sandbox("backend `"@ + id + "` is not qualified for untrusted code"@)
}

/// Guard used by callers before handing a backend untrusted code.
pub fn ensure_qualified<B: ExecutionBackend>(backend: &B) -> (result: Result<(), JudgeError>)
    ensures
        judged(result) == (if backend.qualified() {
            Ok(())
        } else {
            Err(unqualified_error(backend.known_as()))
        }),
{
    if backend.is_qualified_for_untrusted_code() {
        return Ok(());
    }
    let mut why = joined("backend `", backend.id());
    why.append("` is not qualified for untrusted code");
    Err(JudgeError::Sandbox(why))
}

/// How a program ended says what became of it: nothing yet where it exited with
/// zero, a runtime error where it exited with anything else or trapped, and the
/// bound where it went past one.
pub proof fn endings_and_their_verdicts(code: i32, detail: Seq<char>, violation: LimitViolation)
    ensures
        code == 0 ==> (TerminationReasonView::Exited { code }).verdict() is None,
        code != 0 ==> (TerminationReasonView::Exited { code }).verdict() == Some(
            Verdict::RuntimeError,
        ),
        (TerminationReasonView::Trapped { detail }).verdict() == Some(Verdict::RuntimeError),
        (TerminationReasonView::LimitExceeded { violation }).verdict() == Some(
            match violation {
                LimitViolation::Wall => Verdict::TimeLimitExceeded,
                LimitViolation::Fuel => Verdict::TimeLimitExceeded,
                LimitViolation::Memory => Verdict::MemoryLimitExceeded,
                LimitViolation::Output => Verdict::OutputLimitExceeded,
            },
        ),
{
}

/// A backend that is not qualified is named in what is said of it.
pub proof fn unqualified_backends_are_named(id: Seq<char>)
    ensures
        unqualified_error(id) == JudgeErrorView::Sandbox(
            "backend `"@ + id + "` is not qualified for untrusted code"@,
        ),
        unqualified_error(id).verdict() == Verdict::JudgeError,
{
}

/// A request says what it holds: the module, the input and the arguments as they
/// are, and the limits.
pub proof fn requests_say_what_they_hold(request: ExecutionRequest<'_>)
    ensures
        request@.module == request.module@,
        request@.stdin == request.stdin@,
        request@.args.len() == request.args@.len(),
        forall|i: int|
            0 <= i < request.args@.len() ==> #[trigger] request@.args[i] == request.args@[i]@,
        request@.limits == request.limits,
{
}

/// An outcome says what it holds.
pub proof fn outcomes_say_what_they_hold(outcome: ExecutionOutcome)
    ensures
        outcome@.stdout == outcome.stdout@,
        outcome@.stderr == outcome.stderr@,
        outcome@.wall_ms == outcome.wall_ms,
        outcome@.fuel_consumed == outcome.fuel_consumed,
        outcome@.peak_memory_bytes == outcome.peak_memory_bytes,
        match outcome.termination {
            TerminationReason::Exited { code } => outcome@.termination
                == (TerminationReasonView::Exited { code }),
            TerminationReason::Trapped { detail } => outcome@.termination
                == (TerminationReasonView::Trapped { detail: detail@ }),
            TerminationReason::LimitExceeded { violation } => outcome@.termination
                == (TerminationReasonView::LimitExceeded { violation }),
        },
{
}

} // verus!
