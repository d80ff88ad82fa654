//! Judge errors.
//!
//! Every error maps to a verdict *class*, and the mapping is the point of this
//! module. A cache miss, a corrupt artifact, or an unreachable object store must
//! never surface as `CE` or `WA`.

use vstd::prelude::*;

use crate::text::{copy_text, joined};
use crate::verdict::{Verdict, VerdictClass};

verus! {

/// Something went wrong while judging.
#[derive(Debug, PartialEq, Eq)]
pub enum JudgeError {
    /// The Trial package is malformed or internally inconsistent.
    ///
    /// The judge cannot judge; the user did nothing wrong. `JE`.
    MalformedPackage(String),
    /// A checker failed, crashed, or produced an unparseable result. `JE`.
    CheckerFailure(String),
    /// The sandbox could not be constructed or the engine failed. `JE`.
    Sandbox(String),
    /// Storage, cache, or network failure. `IE`.
    Infrastructure(String),
    /// A cached artifact failed integrity verification. `IE`.
    ///
    /// Explicitly not `WA`: the cache is disposable, so this means retry and
    /// quarantine, never a wrong verdict for the user.
    CacheIntegrity {
        /// Content identifier of the artifact that failed verification.
        cid: String,
        /// What was wrong.
        detail: String,
    },
    /// A sandbox policy was tripped in a way that indicates intent. `SE`.
    SecurityPolicy(String),
}

/// What a [`JudgeError`] says: the same variants over sequences of characters.
#[verifier::ext_equal]
pub enum JudgeErrorView {
    MalformedPackage(Seq<char>),
    CheckerFailure(Seq<char>),
    Sandbox(Seq<char>),
    Infrastructure(Seq<char>),
    CacheIntegrity { cid: Seq<char>, detail: Seq<char> },
    SecurityPolicy(Seq<char>),
}

impl View for JudgeError {
    type V = JudgeErrorView;

    open spec fn view(&self) -> JudgeErrorView {
        match *self {
            JudgeError::MalformedPackage(s) => JudgeErrorView::MalformedPackage(s@),
            JudgeError::CheckerFailure(s) => JudgeErrorView::CheckerFailure(s@),
            JudgeError::Sandbox(s) => JudgeErrorView::Sandbox(s@),
            JudgeError::Infrastructure(s) => JudgeErrorView::Infrastructure(s@),
            JudgeError::CacheIntegrity { cid, detail } => JudgeErrorView::CacheIntegrity {
                cid: cid@,
                detail: detail@,
            },
            JudgeError::SecurityPolicy(s) => JudgeErrorView::SecurityPolicy(s@),
        }
    }
}

/// A result of the judge, seen through the views of its value and its error.
pub open spec fn judged<T: View>(result: Result<T, JudgeError>) -> Result<T::V, JudgeErrorView> {
    match result {
        Ok(value) => Ok(value@),
        Err(error) => Err(error@),
    }
}

impl JudgeErrorView {
    /// The verdict an error is reported as.
    pub open spec fn verdict(self) -> Verdict {
        match self {
            JudgeErrorView::MalformedPackage(_)
            | JudgeErrorView::CheckerFailure(_)
            | JudgeErrorView::Sandbox(_) => Verdict::JudgeError,
            JudgeErrorView::Infrastructure(_)
            | JudgeErrorView::CacheIntegrity { .. } => Verdict::InternalError,
            JudgeErrorView::SecurityPolicy(_) => Verdict::SecurityEvent,
        }
    }

    /// The sentence an error is shown as.
    pub open spec fn shown(self) -> Seq<char> {
        match self {
            JudgeErrorView::MalformedPackage(s) => "malformed problem package: "@ + s,
            JudgeErrorView::CheckerFailure(s) => "checker failed: "@ + s,
            JudgeErrorView::Sandbox(s) => "sandbox failure: "@ + s,
            JudgeErrorView::Infrastructure(s) => "infrastructure failure: "@ + s,
            JudgeErrorView::CacheIntegrity { cid, detail } => "cache integrity failure for "@ + cid
                + ": "@ + detail,
            JudgeErrorView::SecurityPolicy(s) => "security policy tripped: "@ + s,
        }
    }
}

impl JudgeError {
    /// The verdict this error must be reported as.
    pub fn verdict(&self) -> (verdict: Verdict)
        ensures
            verdict == self@.verdict(),
    {
        match self {
            JudgeError::MalformedPackage(_)
            | JudgeError::CheckerFailure(_)
            | JudgeError::Sandbox(_) => Verdict::JudgeError,
            JudgeError::Infrastructure(_)
            | JudgeError::CacheIntegrity { .. } => Verdict::InternalError,
            JudgeError::SecurityPolicy(_) => Verdict::SecurityEvent,
        }
    }

    /// Whether the job should be retried, possibly on another worker.
    pub fn is_retryable(&self) -> (yes: bool)
        ensures
            yes == (self@.verdict().class_of() == VerdictClass::SystemFault),
    {
        self.verdict().is_retryable()
    }

    /// The sentence this error is shown as.
    pub fn to_string(&self) -> (shown: String)
        ensures
            shown@ == self@.shown(),
    {
        match self {
            JudgeError::MalformedPackage(s) => joined("malformed problem package: ", s.as_str()),
            JudgeError::CheckerFailure(s) => joined("checker failed: ", s.as_str()),
            JudgeError::Sandbox(s) => joined("sandbox failure: ", s.as_str()),
            JudgeError::Infrastructure(s) => joined("infrastructure failure: ", s.as_str()),
            JudgeError::CacheIntegrity { cid, detail } => {
                let mut shown = joined("cache integrity failure for ", cid.as_str());
                shown.append(": ");
                shown.append(detail.as_str());
                shown
            },
            JudgeError::SecurityPolicy(s) => joined("security policy tripped: ", s.as_str()),
        }
    }

    /// A second error that says the same.
    pub fn duplicate(&self) -> (copy: JudgeError)
        ensures
            copy@ == self@,
    {
        match self {
            JudgeError::MalformedPackage(s) => JudgeError::MalformedPackage(copy_text(s.as_str())),
            JudgeError::CheckerFailure(s) => JudgeError::CheckerFailure(copy_text(s.as_str())),
            JudgeError::Sandbox(s) => JudgeError::Sandbox(copy_text(s.as_str())),
            JudgeError::Infrastructure(s) => JudgeError::Infrastructure(copy_text(s.as_str())),
            JudgeError::CacheIntegrity { cid, detail } => JudgeError::CacheIntegrity {
                cid: copy_text(cid.as_str()),
                detail: copy_text(detail.as_str()),
            },
            JudgeError::SecurityPolicy(s) => JudgeError::SecurityPolicy(copy_text(s.as_str())),
        }
    }
}

/// An error of the judge is reported as `JE`, `IE` or `SE`, and as nothing
/// else: it never becomes a verdict on the submission itself.
pub proof fn no_error_becomes_a_user_verdict(error: JudgeErrorView)
    ensures
        error.verdict() == Verdict::JudgeError || error.verdict() == Verdict::InternalError
            || error.verdict() == Verdict::SecurityEvent,
        error.verdict() == Verdict::SecurityEvent <==> error is SecurityPolicy,
        error.verdict().class_of() != VerdictClass::SystemFault <==> error is SecurityPolicy,
{
}

/// A broken package, checker or sandbox is `JE`, broken storage `IE`, and a
/// policy that was tripped `SE`.
pub proof fn errors_have_the_verdict_of_their_kind(error: JudgeErrorView)
    ensures
        error.verdict() == Verdict::JudgeError <==> error is MalformedPackage
            || error is CheckerFailure || error is Sandbox,
        error.verdict() == Verdict::InternalError <==> error is Infrastructure
            || error is CacheIntegrity,
{
}

/// An error is shown with the kind of failure first and then all it says.
pub proof fn errors_show_what_they_say(what: Seq<char>, cid: Seq<char>)
    ensures
        JudgeErrorView::MalformedPackage(what).shown() == "malformed problem package: "@ + what,
        JudgeErrorView::CheckerFailure(what).shown() == "checker failed: "@ + what,
        JudgeErrorView::Sandbox(what).shown() == "sandbox failure: "@ + what,
        JudgeErrorView::Infrastructure(what).shown() == "infrastructure failure: "@ + what,
        JudgeErrorView::SecurityPolicy(what).shown() == "security policy tripped: "@ + what,
        (JudgeErrorView::CacheIntegrity { cid, detail: what }).shown()
            == "cache integrity failure for "@ + cid + ": "@ + what,
{
}

/// An error says what it holds.
pub proof fn errors_say_what_they_hold(error: JudgeError)
    ensures
        match error {
            JudgeError::MalformedPackage(s) => error@ == JudgeErrorView::MalformedPackage(s@),
            JudgeError::CheckerFailure(s) => error@ == JudgeErrorView::CheckerFailure(s@),
            JudgeError::Sandbox(s) => error@ == JudgeErrorView::Sandbox(s@),
            JudgeError::Infrastructure(s) => error@ == JudgeErrorView::Infrastructure(s@),
            JudgeError::CacheIntegrity { cid, detail } => error@ == (
            JudgeErrorView::CacheIntegrity { cid: cid@, detail: detail@ }),
            JudgeError::SecurityPolicy(s) => error@ == JudgeErrorView::SecurityPolicy(s@),
        },
{
}

/// A result says what its value or its error says.
pub proof fn results_say_what_they_hold<T: View>(result: Result<T, JudgeError>)
    ensures
        result matches Ok(value) ==> judged(result) == Ok::<T::V, JudgeErrorView>(value@),
        result matches Err(error) ==> judged(result) == Err::<T::V, JudgeErrorView>(error@),
{
}

} // verus!
