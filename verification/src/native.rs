//! The native execution backend.
//!
//! # Status: EXPERIMENTAL - not a security boundary
//!
//! This backend exists so the [`ExecutionBackend`] abstraction is real rather
//! than hypothetical, and so the work needed to qualify native execution is
//! written down somewhere concrete. **It does not execute anything.**
//!
//! Native isolation on Linux means, at minimum: user namespaces, a seccomp-BPF
//! filter with a deny-by-default syscall policy, cgroup v2 limits for CPU,
//! memory and PIDs, a read-only root with no `/proc` or `/sys`, no network
//! namespace, `no_new_privs`, dropped capabilities, and rlimits for file size
//! and open descriptors. Each of those is a place to get it subtly wrong, and
//! getting it subtly wrong means arbitrary code execution on judge
//! infrastructure.
//!
//! A native sandbox is not safe on the basis that it looked right.
//! Qualification means an independent adversarial corpus, read by someone who
//! did not write it. Until that exists, this backend fails closed.

use vstd::prelude::*;

use crate::backend::{
    ExecutionBackend, ExecutionOutcome, ExecutionOutcomeView, ExecutionRequest,
    ExecutionRequestView,
};
use crate::error::{JudgeError, JudgeErrorView};

verus! {

/// A placeholder for native process isolation.
///
/// Constructing it is allowed; using it is not. [`ExecutionBackend::execute`]
/// always returns a `JudgeError`, and
/// [`ExecutionBackend::is_qualified_for_untrusted_code`] always returns `false`,
/// so callers that route through [`crate::backend::ensure_qualified`] never
/// reach it.
#[derive(Debug, Clone, Copy)]
pub struct NativeBackend;

impl Default for NativeBackend {
    fn default() -> (backend: NativeBackend)
        ensures
            backend == NativeBackend,
    {
        NativeBackend
    }
}

impl NativeBackend {
    /// Requirements that must all be met, independently, before this backend
    /// may run untrusted code.
    ///
    /// Listed in code so the gap is visible to anyone reading the crate, not
    /// only to anyone who opens the threat model.
    pub const QUALIFICATION_REQUIREMENTS: [&'static str; 9] = [
        "deny-by-default seccomp-BPF syscall filter, with an audited allowlist",
        "user namespace with no mapped privileged uid",
        "cgroup v2 limits for cpu, memory, and pids",
        "read-only root filesystem with no /proc, /sys, or device access",
        "network namespace with no interfaces",
        "no_new_privs set and all capabilities dropped",
        "rlimits for file size, open descriptors, and address space",
        "an adversarial escape corpus that the backend survives",
        "independent review by someone who did not implement it",
    ];
}

/// What the native backend answers every request with.
pub open spec fn native_refusal() -> JudgeErrorView {
    JudgeErrorView::Sandbox(
        "the native backend is EXPERIMENTAL and has not been qualified; 9 requirements remain unmet. Use the Wasmtime backend."@,
    )
}

impl ExecutionBackend for NativeBackend {
    open spec fn known_as(&self) -> Seq<char> {
        "native"@
    }

    open spec fn qualified(&self) -> bool {
        false
    }

    open spec fn inert(&self) -> bool {
        true
    }

    open spec fn may_yield(
        &self,
        request: ExecutionRequestView,
        result: Result<ExecutionOutcomeView, JudgeErrorView>,
    ) -> bool {
        result == Err::<ExecutionOutcomeView, JudgeErrorView>(native_refusal())
    }

    fn id(&self) -> &'static str {
        "native"
    }

    fn is_qualified_for_untrusted_code(&self) -> bool {
        false
    }

    fn execute(&self, _request: ExecutionRequest<'_>) -> Result<ExecutionOutcome, JudgeError> {
        Err(
            JudgeError::Sandbox(
                "the native backend is EXPERIMENTAL and has not been qualified; 9 requirements remain unmet. Use the Wasmtime backend.".to_owned(),
            ),
        )
    }
}

/// The native backend is never qualified, and whatever it is asked to run, it
/// answers that it is not.
pub proof fn the_native_backend_runs_nothing(
    backend: NativeBackend,
    request: ExecutionRequestView,
    result: Result<ExecutionOutcomeView, JudgeErrorView>,
)
    requires
        backend.may_yield(request, result),
    ensures
        !backend.qualified(),
        backend.inert(),
        backend.known_as() == "native"@,
        result matches Err(error) && error is Sandbox,
{
}

/// What the native backend answers counts what is missing, and names what to use.
pub proof fn what_the_native_backend_answers()
    ensures
        native_refusal() == JudgeErrorView::Sandbox(
            "the native backend is EXPERIMENTAL and has not been qualified; 9 requirements remain unmet. Use the Wasmtime backend."@,
        ),
{
}

} // verus!
