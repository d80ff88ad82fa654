//! The judging pipeline: resolve, compile, grade, report.
//!
//! ```text
//! lease job  ->  resolve CIDs  ->  compile  ->  grade (run many)  ->  report
//!                     |               |              |
//!               ArtifactSource   CompileBackend   ExecutionBackend
//! ```
//!
//! Every step behind a trait, so the whole pipeline is testable offline with no
//! network, no cargo, and no broker.

use vstd::prelude::*;

use crate::artifacts::ArtifactSource;
use crate::backend::{unqualified_error, ExecutionBackend};
use crate::cache::{
    artifact_place, index_place, looked_up_build, put_build_steps, step_views, ArtifactCache,
    FileRead, FileReadView, FileStep, FileStepView, LookupView, TextRead, TextReadView,
    Trust,
};
use crate::checker::FloatReading;
use crate::compile::{CompileBackend, CompileOutput, CompileOutputView};
use crate::digest::{cid, cid_text, is_cid_text};
use crate::error::{judged, JudgeError, JudgeErrorView};
use crate::grader::{
    found_the_same, grade, graded, manifest_for_compile_error, manifest_for_error, may_run,
    reached, runs_alike,
    unrun_manifest, CaseRunView, GradeRequest, GradeRequestView,
};
use crate::problem_format::{ordered, TrialPackage, TrialPackageView};
use crate::protocol::{
    JobSpec, JobSpecView, ResultManifest, ResultManifestView, TrustClass,
};
use crate::text::{joined, same_text, trimmed};
use crate::verdict::{Verdict, VerdictClass};

verus! {

/// Everything the worker needs to judge one job.
pub struct JobContext<'a, A: ArtifactSource, C: CompileBackend, S: ExecutionBackend> {
    /// Where CIDs are resolved.
    pub artifacts: &'a A,
    /// How source becomes a module.
    pub compiler: &'a C,
    /// How a module is executed.
    pub sandbox: &'a S,
    /// Optional compiled-artifact cache.
    pub cache: Option<&'a ArtifactCache>,
    /// This worker's trust class, from its credential.
    pub trust_class: TrustClass,
    /// This worker's identifier.
    pub worker_id: &'a str,
}

/// The result of judging one job.
#[derive(Debug)]
pub struct JobReport {
    /// The full manifest, for the data plane.
    pub manifest: ResultManifest,
    /// A copy safe to show the submitter.
    pub redacted: ResultManifest,
}

/// What a [`JobReport`] says: its manifest. What the submitter sees follows
/// from it.
impl View for JobReport {
    type V = ResultManifestView;

    open spec fn view(&self) -> ResultManifestView {
        self.manifest@
    }
}

impl Clone for JobReport {
    fn clone(&self) -> (copy: JobReport)
        ensures
            copy@ == self@,
            copy.redacted@ == self.redacted@,
    {
        JobReport { manifest: self.manifest.clone(), redacted: self.redacted.clone() }
    }
}

impl JobReport {
    /// Whether the copy for the submitter is the redacted manifest.
    pub open spec fn wf(self) -> bool {
        self.redacted@ == self.manifest@.redacted()
    }

    /// The report on a manifest.
    pub fn new(manifest: ResultManifest) -> (report: JobReport)
        ensures
            report.wf(),
            report@ == manifest@,
    {
        let redacted = manifest.redacted_for_submitter();
        JobReport { manifest, redacted }
    }

    /// The verdict.
    pub fn verdict(&self) -> (verdict: Verdict)
        ensures
            verdict == self@.verdict,
    {
        self.manifest.verdict
    }
}

// ---------------------------------------------------------------------------
// The cache key
// ---------------------------------------------------------------------------

/// What the cache key of a compiled artifact is the digest of.
pub open spec fn key_material(
    source_cid: Seq<char>,
    environment_id: Seq<char>,
    compiler_id: Seq<char>,
) -> Seq<char> {
    "rustly-artifact-v1\0"@ + source_cid + "\0"@ + environment_id + "\0"@ + compiler_id
}

/// The cache key for a compiled artifact.
pub open spec fn artifact_key_of(
    source_cid: Seq<char>,
    environment_id: Seq<char>,
    compiler_id: Seq<char>,
) -> Seq<char> {
    cid_text(vstd::utf8::encode_utf8(key_material(source_cid, environment_id, compiler_id)))
}

/// The cache key for a compiled artifact.
///
/// Includes the environment and the compiler identity, not just the source: the
/// same source compiled by a different toolchain is a different artifact, and
/// serving one for the other would be a silent correctness bug.
pub fn artifact_key(source_cid: &str, environment_id: &str, compiler_id: &str) -> (key: String)
    ensures
        key@ == artifact_key_of(source_cid@, environment_id@, compiler_id@),
        is_cid_text(key@),
{
    let mut material = joined("rustly-artifact-v1\0", source_cid);
    material.append("\0");
    material.append(environment_id);
    material.append("\0");
    material.append(compiler_id);
    cid(material.as_str().as_bytes())
}

/// Whether a string is free of the character that separates the parts of a key.
pub open spec fn has_no_nul(s: Seq<char>) -> bool {
    forall|i: int| 0 <= i < s.len() ==> #[trigger] s[i] != '\0'
}

proof fn lemma_split_at_nul(a: Seq<char>, b: Seq<char>, x: Seq<char>, y: Seq<char>)
    requires
        has_no_nul(a),
        has_no_nul(x),
        a + "\0"@ + b == x + "\0"@ + y,
    ensures
        a == x,
        b == y,
{
    reveal_strlit("\0");
    let left = a + "\0"@ + b;
    let right = x + "\0"@ + y;
    assert(left[a.len() as int] == '\0');
    assert(right[x.len() as int] == '\0');
    if a.len() < x.len() {
        assert(right[a.len() as int] == x[a.len() as int]);
    }
    if x.len() < a.len() {
        assert(left[x.len() as int] == a[x.len() as int]);
    }
    assert(a == left.take(a.len() as int));
    assert(x == right.take(x.len() as int));
    assert(b == left.skip(a.len() as int + 1));
    assert(y == right.skip(x.len() as int + 1));
}

/// What is hashed for a cache key determines the source, the environment and
/// the compiler: none can be confused for another by how they are put together.
/// The separator must not occur in the first two.
pub proof fn key_material_is_unambiguous(
    source_a: Seq<char>,
    environment_a: Seq<char>,
    compiler_a: Seq<char>,
    source_b: Seq<char>,
    environment_b: Seq<char>,
    compiler_b: Seq<char>,
)
    requires
        has_no_nul(source_a),
        has_no_nul(environment_a),
        has_no_nul(source_b),
        has_no_nul(environment_b),
        vstd::utf8::encode_utf8(key_material(source_a, environment_a, compiler_a))
            == vstd::utf8::encode_utf8(key_material(source_b, environment_b, compiler_b)),
    ensures
        source_a == source_b,
        environment_a == environment_b,
        compiler_a == compiler_b,
{
    let a = key_material(source_a, environment_a, compiler_a);
    let b = key_material(source_b, environment_b, compiler_b);
    vstd::utf8::encode_utf8_decode_utf8(a);
    vstd::utf8::encode_utf8_decode_utf8(b);
    let head = "rustly-artifact-v1\0"@;
    let rest_a = environment_a + "\0"@ + compiler_a;
    let rest_b = environment_b + "\0"@ + compiler_b;
    assert(a == head + (source_a + "\0"@ + rest_a));
    assert(b == head + (source_b + "\0"@ + rest_b));
    assert(a.skip(head.len() as int) == source_a + "\0"@ + rest_a);
    assert(b.skip(head.len() as int) == source_b + "\0"@ + rest_b);
    lemma_split_at_nul(source_a, rest_a, source_b, rest_b);
    lemma_split_at_nul(environment_a, compiler_a, environment_b, compiler_b);
}

// ---------------------------------------------------------------------------
// The decisions, one by one
// ---------------------------------------------------------------------------

/// Why a worker does not take on a job, if it does not.
pub open spec fn job_refusal(
    compiler_id: Seq<char>,
    compiler_qualified: bool,
    spec: JobSpecView,
    trust_class: TrustClass,
) -> Option<JudgeErrorView> {
    if !compiler_qualified {
        Some(
            JudgeErrorView::SecurityPolicy(
                "compiler backend "@ + compiler_id + " is not qualified for submitted source"@,
            ),
        )
    } else {
        match spec.refusal(trust_class) {
            Some(why) => Some(
                JudgeErrorView::SecurityPolicy("refusing job "@ + spec.job_id + ": "@ + why),
            ),
            None => None,
        }
    }
}

/// Refuse a job this worker must not accept. Checked here as well as at the
/// broker: a worker that would leak hidden tests should refuse even when the
/// broker gets it wrong.
pub fn accept_job(
    compiler_id: &str,
    compiler_qualified: bool,
    spec: &JobSpec,
    trust_class: TrustClass,
) -> (result: Result<(), JudgeError>)
    ensures
        judged(result) == (match job_refusal(compiler_id@, compiler_qualified, spec@, trust_class) {
            Some(error) => Err(error),
            None => Ok(()),
        }),
{
    if !compiler_qualified {
        let mut why = joined("compiler backend ", compiler_id);
        why.append(" is not qualified for submitted source");
        return Err(JudgeError::SecurityPolicy(why));
    }
    match spec.validate(trust_class) {
        Ok(_) => Ok(()),
        Err(reason) => {
            let mut why = joined("refusing job ", spec.job_id.as_str());
            why.append(": ");
            why.append(reason.as_str());
            Err(JudgeError::SecurityPolicy(why))
        },
    }
}

/// A package that may have been decoded, or why not.
pub open spec fn decoded(package: Result<TrialPackage, String>) -> Result<
    TrialPackageView,
    Seq<char>,
> {
    match package {
        Ok(p) => Ok(p@),
        Err(why) => Err(why@),
    }
}

/// The package a job is judged against, given what was decoded. A worker not
/// entitled to hidden tests does not hold them even if the package it fetched
/// contains them.
pub open spec fn prepared(
    spec: JobSpecView,
    trust_class: TrustClass,
    package: Result<TrialPackageView, Seq<char>>,
) -> Result<TrialPackageView, JudgeErrorView> {
    match package {
        Err(why) => Err(
            JudgeErrorView::MalformedPackage(
                "package "@ + spec.trial_package_cid + " is not valid JSON: "@ + why,
            ),
        ),
        Ok(full) => match full.fault() {
            Some(why) => Err(JudgeErrorView::MalformedPackage(why)),
            None => {
                let kept = if spec.includes_hidden_tests {
                    full
                } else {
                    full.publicly()
                };
                if kept.has_hidden() && trust_class != TrustClass::Trusted {
                    Err(
                        JudgeErrorView::SecurityPolicy(
                            "package still contains hidden tests after filtering"@,
                        ),
                    )
                } else if kept.environment.id != spec.environment_id {
                    Err(
                        JudgeErrorView::MalformedPackage(
                            "job asks for environment "@ + spec.environment_id
                                + " but the package declares "@ + kept.environment.id,
                        ),
                    )
                } else {
                    Ok(kept)
                }
            },
        },
    }
}

/// Prepare the package a job is judged against.
pub fn prepare_package(
    spec: &JobSpec,
    trust_class: TrustClass,
    package: Result<TrialPackage, String>,
) -> (result: Result<TrialPackage, JudgeError>)
    ensures
        judged(result) == prepared(spec@, trust_class, decoded(package)),
{
    let full = match package {
        Ok(full) => full,
        Err(reason) => {
            let mut why = joined("package ", spec.trial_package_cid.as_str());
            why.append(" is not valid JSON: ");
            why.append(reason.as_str());
            return Err(JudgeError::MalformedPackage(why));
        },
    };
    if let Err(error) = full.validate() {
        return Err(error);
    }
    let kept = if spec.includes_hidden_tests {
        full
    } else {
        full.public_only()
    };
    if kept.has_hidden_tests() && !trust_class.may_receive_hidden_tests() {
        return Err(
            JudgeError::SecurityPolicy(
                "package still contains hidden tests after filtering".to_owned(),
            ),
        );
    }
    if !same_text(kept.environment.id.as_str(), spec.environment_id.as_str()) {
        let mut why = joined("job asks for environment ", spec.environment_id.as_str());
        why.append(" but the package declares ");
        why.append(kept.environment.id.as_str());
        return Err(JudgeError::MalformedPackage(why));
    }
    Ok(kept)
}

/// Nanoseconds, in whole milliseconds.
pub open spec fn whole_ms(nanos: u128) -> u64 {
    (nanos / 1_000_000) as u64
}

/// How much what a worker builds is trusted.
pub open spec fn build_trust(trust_class: TrustClass) -> Trust {
    if trust_class == TrustClass::Trusted {
        Trust::Verified
    } else {
        Trust::Quarantined
    }
}

/// What is reported once grading has come to an end: failures that a retry may
/// mend are retried, and others are recorded with the verdict they call for.
pub open spec fn reported(
    spec: JobSpecView,
    package: TrialPackageView,
    graded: Result<ResultManifestView, JudgeErrorView>,
) -> Result<ResultManifestView, JudgeErrorView> {
    match graded {
        Ok(manifest) => Ok(manifest),
        Err(error) => if error.verdict().class_of() == VerdictClass::SystemFault {
            Err(error)
        } else {
            Ok(
                unrun_manifest(
                    spec.job_id,
                    spec.trial_package_cid,
                    package,
                    error.verdict(),
                    None,
                    0,
                ),
            )
        },
    }
}

/// Report on a job once grading has come to an end.
pub fn conclude_job(
    spec: &JobSpec,
    package: &TrialPackage,
    graded: Result<ResultManifest, JudgeError>,
) -> (result: Result<JobReport, JudgeError>)
    ensures
        judged(result) == reported(spec@, package@, judged(graded)),
        result matches Ok(report) ==> report.wf(),
{
    match graded {
        Ok(manifest) => Ok(JobReport::new(manifest)),
        Err(error) => {
            if error.is_retryable() {
                return Err(error);
            }
            Ok(
                JobReport::new(
                    manifest_for_error(
                        spec.job_id.as_str(),
                        spec.trial_package_cid.as_str(),
                        package,
                        &error,
                    ),
                ),
            )
        },
    }
}

// ---------------------------------------------------------------------------
// A whole job
// ---------------------------------------------------------------------------

/// Who judges a job, as far as it matters to the result.
#[verifier::ext_equal]
pub struct JudgeView {
    pub compiler_id: Seq<char>,
    pub compiler_qualified: bool,
    pub sandbox_id: Seq<char>,
    pub sandbox_qualified: bool,
    /// The root of the cache, if there is one.
    pub cache: Option<Seq<char>>,
    pub trust_class: TrustClass,
}

impl<'a, A: ArtifactSource, C: CompileBackend, S: ExecutionBackend> JobContext<'a, A, C, S> {
    /// Who judges, as far as it matters to the result.
    pub open spec fn judge(self) -> JudgeView {
        JudgeView {
            compiler_id: self.compiler.known_as(),
            compiler_qualified: self.compiler.qualified(),
            sandbox_id: self.sandbox.known_as(),
            sandbox_qualified: self.sandbox.qualified(),
            cache: match self.cache {
                Some(cache) => Some(cache@),
                None => None,
            },
            trust_class: self.trust_class,
        }
    }
}

/// What came from outside while a job was judged. What a job does not get to is
/// not looked at.
#[verifier::ext_equal]
pub struct JobEventsView {
    /// What fetching the package gave.
    pub package_bytes: Result<Seq<u8>, JudgeErrorView>,
    /// What decoding it gave.
    pub package: Result<TrialPackageView, Seq<char>>,
    /// What fetching the source gave.
    pub source: Result<Seq<u8>, JudgeErrorView>,
    /// What is in the cache's index.
    pub index: TextReadView,
    /// What is in the file that the index points to.
    pub content: FileReadView,
    /// What compiling gave.
    pub compiled: Result<CompileOutputView, JudgeErrorView>,
    /// When compilation started, in nanoseconds.
    pub started: u128,
    /// How long it took from then on, in nanoseconds.
    pub elapsed: u128,
    /// What running each case gives.
    pub runs: Seq<CaseRunView>,
}

/// What the cache has for a job.
pub open spec fn job_lookup(judge: JudgeView, spec: JobSpecView, events: JobEventsView) -> LookupView {
    match judge.cache {
        Some(root) => looked_up_build(
            root,
            artifact_key_of(spec.source_cid, spec.environment_id, judge.compiler_id),
            Trust::Verified,
            events.index,
            events.content,
        ),
        None => LookupView { result: Ok(None), steps: seq![] },
    }
}

/// The artifact that the cache has for a job. A cached artifact is an
/// accelerator: a miss or a corrupt entry costs time, never correctness.
pub open spec fn job_hit(judge: JudgeView, spec: JobSpecView, events: JobEventsView) -> Option<
    Seq<u8>,
> {
    match job_lookup(judge, spec, events).result {
        Ok(found) => found,
        Err(_) => None,
    }
}

/// What is compiled for a job, from the cache or anew.
pub open spec fn job_build(judge: JudgeView, spec: JobSpecView, events: JobEventsView) -> Result<
    CompileOutputView,
    JudgeErrorView,
> {
    match job_hit(judge, spec, events) {
        Some(bytes) => Ok(CompileOutputView::Module { bytes, diagnostics: None }),
        None => events.compiled,
    }
}

/// What the grader is asked to do for a job that compiled.
pub open spec fn job_request(
    judge: JudgeView,
    spec: JobSpecView,
    package: TrialPackageView,
    module: Seq<u8>,
    diagnostics: Option<Seq<char>>,
    events: JobEventsView,
) -> GradeRequestView {
    GradeRequestView {
        job_id: spec.job_id,
        trial_package_cid: spec.trial_package_cid,
        module,
        package,
        compiler_diagnostics: diagnostics,
        compile_ms: whole_ms(events.elapsed),
        used_cached_artifact: job_hit(judge, spec, events) is Some,
    }
}

/// What grading with a sandbox gives, qualified or not.
pub open spec fn sandbox_graded(
    judge: JudgeView,
    request: GradeRequestView,
    runs: Seq<CaseRunView>,
) -> Result<ResultManifestView, JudgeErrorView> {
    if judge.sandbox_qualified {
        graded(request, runs)
    } else {
        Err(unqualified_error(judge.sandbox_id))
    }
}

/// What comes of a job that got as far as being compiled.
pub open spec fn build_outcome(
    judge: JudgeView,
    spec: JobSpecView,
    package: TrialPackageView,
    events: JobEventsView,
) -> Result<ResultManifestView, JudgeErrorView> {
    match job_build(judge, spec, events) {
        Err(error) => reported(spec, package, Err(error)),
        Ok(CompileOutputView::Failed { diagnostics }) => Ok(
            unrun_manifest(
                spec.job_id,
                spec.trial_package_cid,
                package,
                Verdict::CompileError,
                Some(diagnostics),
                whole_ms(events.elapsed),
            ),
        ),
        Ok(CompileOutputView::Module { bytes, diagnostics }) => reported(
            spec,
            package,
            sandbox_graded(
                judge,
                job_request(judge, spec, package, bytes, diagnostics, events),
                events.runs,
            ),
        ),
    }
}

/// The package a job gets to be judged against, or the error that keeps it from
/// being judged.
pub open spec fn job_package(judge: JudgeView, spec: JobSpecView, events: JobEventsView) -> Result<
    TrialPackageView,
    JudgeErrorView,
> {
    match job_refusal(judge.compiler_id, judge.compiler_qualified, spec, judge.trust_class) {
        Some(error) => Err(error),
        None => match events.package_bytes {
            Err(error) => Err(error),
            Ok(_) => prepared(spec, judge.trust_class, events.package),
        },
    }
}

/// What comes of a job.
pub open spec fn job_outcome(judge: JudgeView, spec: JobSpecView, events: JobEventsView) -> Result<
    ResultManifestView,
    JudgeErrorView,
> {
    match job_package(judge, spec, events) {
        Err(error) => Err(error),
        Ok(package) => match events.source {
            Err(error) => Err(error),
            Ok(_) => build_outcome(judge, spec, package, events),
        },
    }
}

/// Whether a job gets as far as looking into the cache.
pub open spec fn gets_to_build(judge: JudgeView, spec: JobSpecView, events: JobEventsView) -> bool {
    job_package(judge, spec, events) is Ok && events.source is Ok
}

/// What is to be done to the cache because of a job: what does not verify is
/// removed, and what was built is stored. An artifact built by a non-trusted
/// worker is quarantined until trusted capacity reproduces it.
pub open spec fn job_steps(judge: JudgeView, spec: JobSpecView, events: JobEventsView) -> Seq<
    FileStepView,
> {
    if !gets_to_build(judge, spec, events) {
        seq![]
    } else {
        let looked = job_lookup(judge, spec, events).steps;
        match (judge.cache, job_hit(judge, spec, events), events.compiled) {
            (Some(root), None, Ok(CompileOutputView::Module { bytes, .. })) => looked
                + put_build_steps(
                root,
                artifact_key_of(spec.source_cid, spec.environment_id, judge.compiler_id),
                bytes,
                build_trust(judge.trust_class),
            ),
            _ => looked,
        }
    }
}

/// Whether decoding some bytes may give a package.
pub open spec fn may_decode<D: Fn(Vec<u8>) -> Result<TrialPackage, String>>(
    decode: D,
    bytes: Seq<u8>,
    package: Result<TrialPackageView, Seq<char>>,
) -> bool {
    exists|b: Vec<u8>, p: Result<TrialPackage, String>|
        #![trigger call_ensures(decode, (b,), p)]
        b@ == bytes && decoded(p) == package && call_ensures(decode, (b,), p)
}

/// Whether reading a file as text may give something.
pub open spec fn may_read_text<T: Fn(String) -> TextRead>(
    read_text: T,
    path: Seq<char>,
    read: TextReadView,
) -> bool {
    exists|p: String, r: TextRead|
        #![trigger call_ensures(read_text, (p,), r)]
        p@ == path && r@ == read && call_ensures(read_text, (p,), r)
}

/// Whether reading a file may give something.
pub open spec fn may_read_file<R: Fn(String) -> FileRead>(
    read_file: R,
    path: Seq<char>,
    read: FileReadView,
) -> bool {
    exists|p: String, r: FileRead|
        #![trigger call_ensures(read_file, (p,), r)]
        p@ == path && r@ == read && call_ensures(read_file, (p,), r)
}

/// What a job is given to reach the outside with, besides its context.
pub struct JobHost<D, K, E, T, R, F> {
    /// Decodes a Trial package.
    pub decode: D,
    /// Tells the time, in nanoseconds on a monotonic clock.
    pub clock: K,
    /// Tells how many nanoseconds have gone by since a time that `clock` told.
    pub elapsed: E,
    /// Reads a file of the cache as text.
    pub read_text: T,
    /// Reads a file of the cache.
    pub read_file: R,
    /// Reads a pair of tokens as numbers, given the tolerances.
    pub read_values: F,
}

/// Whether the events of a job are ones that may happen: each thing that a job
/// gets to ask for is asked of whom it should be, in the right words, and the
/// answer is one that may be given.
pub open spec fn may_happen<
    'a,
    A: ArtifactSource,
    C: CompileBackend,
    S: ExecutionBackend,
    D: Fn(Vec<u8>) -> Result<TrialPackage, String>,
    K: Fn() -> u128,
    E: Fn(u128) -> u128,
    T: Fn(String) -> TextRead,
    R: Fn(String) -> FileRead,
    F: Fn(String, String, u64, u64) -> FloatReading,
>(
    context: JobContext<'a, A, C, S>,
    host: JobHost<D, K, E, T, R, F>,
    spec: JobSpecView,
    events: JobEventsView,
) -> bool {
    let judge = context.judge();
    let key = artifact_key_of(spec.source_cid, spec.environment_id, judge.compiler_id);
    &&& job_refusal(judge.compiler_id, judge.compiler_qualified, spec, judge.trust_class) is None ==> {
        &&& context.artifacts.may_fetch(spec.trial_package_cid, events.package_bytes)
        &&& events.package_bytes matches Ok(bytes) ==> cid_text(bytes) == spec.trial_package_cid
            && may_decode(host.decode, bytes, events.package)
    }
    &&& job_package(judge, spec, events) is Ok ==> {
        &&& context.artifacts.may_fetch(spec.source_cid, events.source)
        &&& events.source matches Ok(bytes) ==> cid_text(bytes) == spec.source_cid
    }
    &&& gets_to_build(judge, spec, events) ==> {
        &&& judge.cache matches Some(root) ==> {
            &&& may_read_text(
                host.read_text,
                index_place(root, Trust::Verified, key),
                events.index,
            )
            &&& events.index matches TextReadView::Found(text) ==> (is_cid_text(trimmed(text))
                ==> may_read_file(
                host.read_file,
                artifact_place(root, Trust::Verified, trimmed(text)),
                events.content,
            ))
        }
        &&& job_hit(judge, spec, events) is None ==> context.compiler.may_compile(
            events.source->Ok_0,
            spec.environment_id,
            events.compiled,
        )
        &&& job_build(judge, spec, events) is Ok ==> call_ensures(host.clock, (), events.started)
            && call_ensures(host.elapsed, (events.started,), events.elapsed)
        &&& job_build(judge, spec, events) matches Ok(
            CompileOutputView::Module { bytes, diagnostics },
        ) ==> {
            let package = job_package(judge, spec, events)->Ok_0;
            let request = job_request(judge, spec, package, bytes, diagnostics, events);
            judge.sandbox_qualified ==> {
                &&& events.runs.len() == package.tests.len()
                &&& package.well_formed() ==> forall|i: int|
                    #![trigger events.runs[i]]
                    0 <= i < events.runs.len() && reached(package, events.runs, i) ==> may_run(
                        context.sandbox,
                        host.read_values,
                        request,
                        ordered(package.tests)[i],
                        events.runs[i],
                    )
            }
        }
    }
}

/// What judging a job gave.
#[derive(Debug)]
pub struct JobRun {
    /// The report, or why the job should be retried.
    pub result: Result<JobReport, JudgeError>,
    /// What to do to the cache. None of it matters to the result.
    pub steps: Vec<FileStep>,
}

fn stopped(error: JudgeError) -> (run: JobRun)
    ensures
        judged(run.result) == Err::<ResultManifestView, JudgeErrorView>(error@),
        step_views(run.steps@) == Seq::<FileStepView>::empty(),
{
    let steps: Vec<FileStep> = Vec::new();
    assert(step_views(steps@) == Seq::<FileStepView>::empty());
    JobRun { result: Err(error), steps }
}

/// Judge one job end to end.
///
/// The result is `Err` only when the job should be **retried** - the queue was
/// unreachable, an artifact could not be resolved, a cache entry was corrupt.
/// Anything that is a statement about the submission comes back as a
/// [`JobReport`] with the appropriate verdict.
#[verifier::rlimit(60)]
pub fn run_job<
    A: ArtifactSource,
    C: CompileBackend,
    S: ExecutionBackend,
    D: Fn(Vec<u8>) -> Result<TrialPackage, String>,
    K: Fn() -> u128,
    E: Fn(u128) -> u128,
    T: Fn(String) -> TextRead,
    R: Fn(String) -> FileRead,
    F: Fn(String, String, u64, u64) -> FloatReading,
>(
    context: &JobContext<'_, A, C, S>,
    host: JobHost<D, K, E, T, R, F>,
    spec: &JobSpec,
) -> (run: JobRun)
    requires
        forall|bytes: Vec<u8>| call_requires(host.decode, (bytes,)),
        call_requires(host.clock, ()),
        forall|since: u128| call_requires(host.elapsed, (since,)),
        forall|path: String| call_requires(host.read_text, (path,)),
        forall|path: String| call_requires(host.read_file, (path,)),
        forall|w: String, g: String, a: u64, r: u64| call_requires(host.read_values, (w, g, a, r)),
    ensures
        exists|events: JobEventsView|
            {
                &&& judged(run.result) == #[trigger] job_outcome(context.judge(), spec@, events)
                &&& step_views(run.steps@) == job_steps(context.judge(), spec@, events)
                &&& may_happen(*context, host, spec@, events)
            },
        run.result matches Ok(report) ==> report.wf(),
{
    let ghost judge = context.judge();
    let ghost mut events = JobEventsView {
        package_bytes: Err(JudgeErrorView::Sandbox(Seq::empty())),
        package: Err(Seq::empty()),
        source: Err(JudgeErrorView::Sandbox(Seq::empty())),
        index: TextReadView::Missing,
        content: FileReadView::Missing,
        compiled: Err(JudgeErrorView::Sandbox(Seq::empty())),
        started: 0,
        elapsed: 0,
        runs: seq![],
    };
    let compiler_id = context.compiler.id();
    // Refuse a job this worker must not accept.
    if let Err(error) = accept_job(
        compiler_id,
        context.compiler.is_qualified_for_untrusted_code(),
        spec,
        context.trust_class,
    ) {
        let run = stopped(error);
        assert(judged(run.result) == job_outcome(judge, spec@, events));
        return run;
    }
    // Resolve inputs. A failure here is infrastructure, never the user's.
    let fetched = context.artifacts.fetch(spec.trial_package_cid.as_str());
    proof {
        events = JobEventsView { package_bytes: judged(fetched), ..events };
    }
    let package_bytes = match fetched {
        Ok(bytes) => bytes,
        Err(error) => {
            let run = stopped(error);
            assert(judged(run.result) == job_outcome(judge, spec@, events));
            return run;
        },
    };
    let ghost bytes = package_bytes@;
    let decode = &host.decode;
    let package = decode(package_bytes);
    proof {
        events = JobEventsView { package: decoded(package), ..events };
        assert(may_decode(host.decode, bytes, events.package));
    }
    let package = match prepare_package(spec, context.trust_class, package) {
        Ok(package) => package,
        Err(error) => {
            let run = stopped(error);
            assert(judged(run.result) == job_outcome(judge, spec@, events));
            return run;
        },
    };
    assert(job_package(judge, spec@, events) == Ok::<TrialPackageView, JudgeErrorView>(package@));
    let fetched = context.artifacts.fetch(spec.source_cid.as_str());
    proof {
        events = JobEventsView { source: judged(fetched), ..events };
    }
    let source = match fetched {
        Ok(bytes) => bytes,
        Err(error) => {
            let run = stopped(error);
            assert(judged(run.result) == job_outcome(judge, spec@, events));
            return run;
        },
    };
    // Compile once. A cached artifact is an accelerator: a miss or a corrupt
    // entry costs time, never correctness.
    let clock = &host.clock;
    let started: u128 = clock();
    let key = artifact_key(spec.source_cid.as_str(), spec.environment_id.as_str(), compiler_id);
    let mut steps: Vec<FileStep> = Vec::new();
    let mut cached: Option<Vec<u8>> = None;
    assert(step_views(steps@) == Seq::<FileStepView>::empty());
    if let Some(cache) = context.cache {
        let (index, content) = read_build(cache, key.as_str(), &host.read_text, &host.read_file);
        proof {
            events = JobEventsView { index: index@, content: content@, ..events };
        }
        let lookup = cache.get_build(key.as_str(), Trust::Verified, &index, content);
        steps = lookup.steps;
        cached = match lookup.result {
            Ok(found) => found,
            // The cache is disposable: discard, rebuild.
            Err(_) => None,
        };
    }
    assert(step_views(steps@) == job_lookup(judge, spec@, events).steps);
    assert(match cached {
        Some(bytes) => job_hit(judge, spec@, events) == Some(bytes@),
        None => job_hit(judge, spec@, events) is None,
    });
    let used_cached_artifact = cached.is_some();
    let compiled = match cached {
        Some(bytes) => CompileOutput::Module { bytes, diagnostics: None },
        None => {
            let compiled = context.compiler.compile(
                source.as_slice(),
                spec.environment_id.as_str(),
            );
            proof {
                events = JobEventsView { compiled: judged(compiled), ..events };
            }
            match compiled {
                Ok(compiled) => compiled,
                Err(error) => {
                    assert(step_views(steps@) == job_steps(judge, spec@, events));
                    let failed: Result<ResultManifest, JudgeError> = Err(error);
                    let result = conclude_job(spec, &package, failed);
                    assert(judged(result) == job_outcome(judge, spec@, events));
                    assert(may_happen(*context, host, spec@, events));
                    return JobRun { result, steps };
                },
            }
        },
    };
    let since = &host.elapsed;
    let elapsed: u128 = since(started);
    proof {
        events = JobEventsView { started, elapsed, ..events };
    }
    assert(job_build(judge, spec@, events) == Ok::<CompileOutputView, JudgeErrorView>(compiled@));
    let compile_ms: u64 = (elapsed / 1_000_000) as u64;
    let (module, diagnostics) = match compiled {
        CompileOutput::Failed { diagnostics } => {
            let result: Result<JobReport, JudgeError> = Ok(
                JobReport::new(
                    manifest_for_compile_error(
                        spec.job_id.as_str(),
                        spec.trial_package_cid.as_str(),
                        &package,
                        diagnostics,
                        compile_ms,
                    ),
                ),
            );
            assert(step_views(steps@) == job_steps(judge, spec@, events));
            assert(judged(result) == job_outcome(judge, spec@, events));
            assert(may_happen(*context, host, spec@, events));
            return JobRun { result, steps };
        },
        CompileOutput::Module { bytes, diagnostics } => (bytes, diagnostics),
    };
    if !used_cached_artifact {
        if let Some(cache) = context.cache {
            // An artifact built by a non-trusted worker is quarantined until
            // trusted capacity reproduces it.
            let trust = if context.trust_class.requires_artifact_quarantine() {
                Trust::Quarantined
            } else {
                Trust::Verified
            };
            if let Ok(plan) = cache.put_build(key.as_str(), module.as_slice(), trust) {
                let ghost before = steps@;
                let mut more = plan.steps;
                let ghost added = more@;
                steps.append(&mut more);
                assert(step_views(steps@) == step_views(before) + step_views(added));
            }
        }
    }
    assert(step_views(steps@) == job_steps(judge, spec@, events));
    // Run many.
    let request = GradeRequest {
        job_id: spec.job_id.as_str(),
        trial_package_cid: spec.trial_package_cid.as_str(),
        module: module.as_slice(),
        package: &package,
        compiler_diagnostics: diagnostics,
        compile_ms,
        used_cached_artifact,
    };
    let ghost asked = request@;
    let ghost module_said = module@;
    let ghost diagnostics_said = crate::problem_format::text_option(diagnostics);
    assert(asked == job_request(judge, spec@, package@, module_said, diagnostics_said, events));
    let graded_result = grade(context.sandbox, request, host.read_values);
    proof {
        if judge.sandbox_qualified {
            let runs = choose|runs: Seq<CaseRunView>|
                {
                    &&& runs.len() == package@.tests.len()
                    &&& judged(graded_result) == #[trigger] graded(asked, runs)
                    &&& package@.well_formed() ==> forall|i: int|
                        #![trigger runs[i]]
                        0 <= i < runs.len() && reached(package@, runs, i) ==> may_run(
                            context.sandbox,
                            host.read_values,
                            asked,
                            ordered(package@.tests)[i],
                            runs[i],
                        )
                };
            events = JobEventsView { runs, ..events };
        }
        assert(asked == job_request(
            judge,
            spec@,
            package@,
            module_said,
            diagnostics_said,
            events,
        ));
        assert(judged(graded_result) == sandbox_graded(judge, asked, events.runs));
    }
    let result = conclude_job(spec, &package, graded_result);
    assert(judged(result) == job_outcome(judge, spec@, events));
    assert(step_views(steps@) == job_steps(judge, spec@, events));
    assert(may_happen(*context, host, spec@, events));
    JobRun { result, steps }
}

/// Read what the cache has under a build key.
fn read_build<T: Fn(String) -> TextRead, R: Fn(String) -> FileRead>(
    cache: &ArtifactCache,
    key: &str,
    read_text: &T,
    read_file: &R,
) -> (read: (TextRead, FileRead))
    requires
        is_cid_text(key@),
        forall|path: String| call_requires(*read_text, (path,)),
        forall|path: String| call_requires(*read_file, (path,)),
    ensures
        may_read_text(*read_text, index_place(cache@, Trust::Verified, key@), read.0@),
        read.0@ matches TextReadView::Found(text) ==> (is_cid_text(trimmed(text)) ==> may_read_file(
            *read_file,
            artifact_place(cache@, Trust::Verified, trimmed(text)),
            read.1@,
        )),
{
    let index = match cache.index_location(key, Trust::Verified) {
        Ok(path) => read_text(path),
        Err(_) => TextRead::Missing,
    };
    let content = match cache.content_location(&index, Trust::Verified) {
        Some(path) => read_file(path),
        None => FileRead::Missing,
    };
    (index, content)
}

// ---------------------------------------------------------------------------
// What the pipeline promises
// ---------------------------------------------------------------------------

/// A worker that is not trusted never judges against hidden cases, whatever the
/// broker says and whatever the package contains; and what it reports may be
/// published as it is.
pub proof fn untrusted_workers_hold_no_hidden_cases(
    judge: JudgeView,
    spec: JobSpecView,
    events: JobEventsView,
)
    requires
        judge.trust_class != TrustClass::Trusted,
    ensures
        spec.includes_hidden_tests ==> job_outcome(judge, spec, events) is Err,
        job_package(judge, spec, events) matches Ok(package) ==> !package.has_hidden(),
        job_outcome(judge, spec, events) matches Ok(manifest) ==> crate::grader::manifest_is_safe(
            manifest,
        ),
{
    if let Ok(package) = job_package(judge, spec, events) {
        if let Ok(full) = events.package {
            crate::problem_format::public_package_has_no_hidden_case(full);
        }
        if let Ok(CompileOutputView::Module { bytes, diagnostics }) = job_build(
            judge,
            spec,
            events,
        ) {
            let request = job_request(judge, spec, package, bytes, diagnostics, events);
            crate::grader::public_grading_is_publishable(request, events.runs);
        }
    }
}

/// What a worker without hidden cases judges against does not depend on them:
/// two packages that differ in their hidden cases alone are judged as one, where
/// both are well-formed.
pub proof fn hidden_cases_do_not_reach_public_jobs(
    spec: JobSpecView,
    trust_class: TrustClass,
    a: TrialPackageView,
    b: TrialPackageView,
)
    requires
        !spec.includes_hidden_tests,
        a.well_formed(),
        b.well_formed(),
        a.publicly() == b.publicly(),
    ensures
        prepared(spec, trust_class, Ok(a)) == prepared(spec, trust_class, Ok(b)),
{
    crate::problem_format::accepted_iff_well_formed(a);
    crate::problem_format::accepted_iff_well_formed(b);
}

/// Untrusted code reaches no backend that is not qualified for it. A job gets as
/// far as being built only with a compiler that is qualified, and to be refused
/// for the compiler takes nothing else: whatever might be fetched, compiled or
/// run, the answer is the same, and nothing is done to the cache. Without a
/// sandbox that is qualified, nothing that running the build might give makes a
/// difference, and no case is ever on record. That neither is asked to do
/// anything is what [`CompileBackend::compile`] and [`ExecutionBackend::execute`]
/// require.
pub proof fn untrusted_code_reaches_qualified_backends_alone(
    judge: JudgeView,
    spec: JobSpecView,
    events: JobEventsView,
    others: JobEventsView,
)
    ensures
        gets_to_build(judge, spec, events) ==> judge.compiler_qualified,
        !judge.compiler_qualified ==> {
            &&& job_outcome(judge, spec, events) matches Err(error) && error is SecurityPolicy
            &&& job_outcome(judge, spec, events) == job_outcome(judge, spec, others)
            &&& job_steps(judge, spec, events) == Seq::<FileStepView>::empty()
        },
        !judge.sandbox_qualified ==> {
            &&& job_outcome(judge, spec, events) == job_outcome(
                judge,
                spec,
                (JobEventsView { runs: others.runs, ..events }),
            )
            &&& job_outcome(judge, spec, events) matches Ok(manifest) ==> manifest.tests.len() == 0
        },
{
    let changed = JobEventsView { runs: others.runs, ..events };
    assert(job_package(judge, spec, changed) == job_package(judge, spec, events));
    assert(job_hit(judge, spec, changed) == job_hit(judge, spec, events));
}

/// A submission is a compile error exactly when compiling it says so; no
/// failure of the judge or of the infrastructure ever becomes one.
pub proof fn compile_errors_come_from_the_compiler(
    judge: JudgeView,
    spec: JobSpecView,
    events: JobEventsView,
)
    ensures
        (job_outcome(judge, spec, events) matches Ok(manifest) && manifest.verdict
            == Verdict::CompileError) <==> (gets_to_build(judge, spec, events) && (job_build(
            judge,
            spec,
            events,
        ) matches Ok(output) && output is Failed)),
{
    if let Ok(package) = job_package(judge, spec, events) {
        if let Ok(CompileOutputView::Module { bytes, diagnostics }) = job_build(
            judge,
            spec,
            events,
        ) {
            let request = job_request(judge, spec, package, bytes, diagnostics, events);
            crate::grader::grading_never_blames_the_judge(request, events.runs);
        }
    }
}

/// Where a job comes to an error once its package is settled, that is a fault of
/// the judge or of the infrastructure, and the job is retried; before that, it
/// may also be that the job is not for this worker. Where it comes to a report,
/// that never is such a fault. In particular what a compiler or a sandbox refuses
/// as a matter of policy is reported, not retried.
pub proof fn system_faults_are_retried_not_reported(
    judge: JudgeView,
    spec: JobSpecView,
    events: JobEventsView,
)
    ensures
        job_outcome(judge, spec, events) matches Err(error) ==> {
            ||| error.verdict().class_of() == VerdictClass::SystemFault
            ||| (error.verdict() == Verdict::SecurityEvent && !gets_to_build(judge, spec, events))
        },
        gets_to_build(judge, spec, events) ==> (job_build(judge, spec, events) matches Err(error)
            ==> (error is SecurityPolicy ==> (job_outcome(judge, spec, events) matches Ok(manifest)
            && manifest.verdict == Verdict::SecurityEvent))),
        job_outcome(judge, spec, events) matches Ok(manifest) ==> manifest.verdict.class_of()
            != VerdictClass::SystemFault,
{
    if let Ok(package) = job_package(judge, spec, events) {
        if let Ok(CompileOutputView::Module { bytes, diagnostics }) = job_build(
            judge,
            spec,
            events,
        ) {
            let request = job_request(judge, spec, package, bytes, diagnostics, events);
            crate::grader::grading_never_blames_the_judge(request, events.runs);
        }
    }
}

/// Failing to resolve an input is reported as what it is, and judges nothing.
pub proof fn unresolved_inputs_are_not_judged(
    judge: JudgeView,
    spec: JobSpecView,
    events: JobEventsView,
)
    requires
        job_refusal(judge.compiler_id, judge.compiler_qualified, spec, judge.trust_class) is None,
    ensures
        events.package_bytes matches Err(error) ==> job_outcome(judge, spec, events) == Err::<
            ResultManifestView,
            JudgeErrorView,
        >(error),
        job_package(judge, spec, events) is Ok ==> (events.source matches Err(error) ==> job_outcome(
            judge,
            spec,
            events,
        ) == Err::<ResultManifestView, JudgeErrorView>(error)),
{
}

/// The cache is an accelerator: a job that finds in it what compiling would
/// have given comes to the same report, but for the record that it did and for
/// what the compiler would have said.
pub proof fn cache_hits_do_not_change_verdicts(
    judge: JudgeView,
    spec: JobSpecView,
    hit: JobEventsView,
    miss: JobEventsView,
    diagnostics: Option<Seq<char>>,
)
    requires
        miss == (JobEventsView { index: miss.index, content: miss.content, ..hit }),
        job_hit(judge, spec, hit) is Some,
        job_hit(judge, spec, miss) is None,
        miss.compiled == Ok::<CompileOutputView, JudgeErrorView>(
            CompileOutputView::Module { bytes: job_hit(judge, spec, hit)->0, diagnostics },
        ),
    ensures
        match (job_outcome(judge, spec, hit), job_outcome(judge, spec, miss)) {
            (Ok(a), Ok(b)) => a == (ResultManifestView {
                used_cached_artifact: a.used_cached_artifact,
                compiler_diagnostics: a.compiler_diagnostics,
                ..b
            }),
            (Err(a), Err(b)) => a == b,
            _ => false,
        },
{
    if let Ok(package) = job_package(judge, spec, hit) {
        let bytes = job_hit(judge, spec, hit)->0;
        let with = job_request(judge, spec, package, bytes, None, hit);
        let without = job_request(judge, spec, package, bytes, diagnostics, miss);
        assert(with == (GradeRequestView {
            used_cached_artifact: true,
            compiler_diagnostics: None,
            ..without
        }));
    }
}

/// Whether two runs of a job saw the same: the same package and source, a
/// compiler and a sandbox that do the same again, and in the cache, if there is
/// something, what the compiler makes of this source. How long anything took
/// may differ. `cached` is a run with the cache of `judge`, and `plain` one
/// without a cache.
pub open spec fn saw_the_same(
    judge: JudgeView,
    spec: JobSpecView,
    cached: JobEventsView,
    plain: JobEventsView,
) -> bool {
    &&& cached.package_bytes == plain.package_bytes
    &&& cached.package == plain.package
    &&& cached.source == plain.source
    &&& match job_hit(judge, spec, cached) {
        Some(module) => plain.compiled matches Ok(CompileOutputView::Module { bytes, .. }) && bytes
            == module,
        None => cached.compiled == plain.compiled,
    }
    &&& job_package(judge, spec, cached) matches Ok(package) ==> runs_alike(
        package,
        cached.runs,
        plain.runs,
    )
}

/// A job is judged the same with a cache as without, whether the cache has the
/// build, lacks it, or has something that does not verify: the same verdict and
/// the same outcome of every case, or the same error. A cached build is on
/// record only where the cache had one, and always where a case was run with it;
/// and then it does not matter what compiling would have given, because nothing
/// is compiled.
pub proof fn jobs_are_judged_the_same_with_and_without_a_cache(
    judge: JudgeView,
    spec: JobSpecView,
    cached: JobEventsView,
    plain: JobEventsView,
    other: Result<CompileOutputView, JudgeErrorView>,
)
    requires
        saw_the_same(judge, spec, cached, plain),
    ensures
        found_the_same(
            job_outcome(judge, spec, cached),
            job_outcome((JudgeView { cache: None, ..judge }), spec, plain),
        ),
        job_outcome(judge, spec, cached) matches Ok(manifest) ==> {
            &&& manifest.used_cached_artifact ==> job_hit(judge, spec, cached) is Some
            &&& job_hit(judge, spec, cached) is Some && manifest.tests.len() > 0
                ==> manifest.used_cached_artifact
        },
        job_outcome((JudgeView { cache: None, ..judge }), spec, plain) matches Ok(manifest)
            ==> !manifest.used_cached_artifact,
        job_hit(judge, spec, cached) is Some ==> job_outcome(
            judge,
            spec,
            (JobEventsView { compiled: other, ..cached }),
        ) == job_outcome(judge, spec, cached),
{
    let bare = JudgeView { cache: None, ..judge };
    assert(job_package(judge, spec, cached) == job_package(bare, spec, plain));
    let changed = JobEventsView { compiled: other, ..cached };
    assert(job_hit(judge, spec, changed) == job_hit(judge, spec, cached));
    assert(job_package(judge, spec, changed) == job_package(judge, spec, cached));
    if let Ok(package) = job_package(judge, spec, cached) {
        if let Ok(CompileOutputView::Module { bytes, diagnostics }) = job_build(
            judge,
            spec,
            cached,
        ) {
            let said = plain.compiled->Ok_0->Module_diagnostics;
            let with = job_request(judge, spec, package, bytes, diagnostics, cached);
            let without = job_request(bare, spec, package, bytes, said, plain);
            assert(plain.compiled == Ok::<CompileOutputView, JudgeErrorView>(
                CompileOutputView::Module { bytes, diagnostics: said },
            ));
            crate::grader::verdicts_depend_on_the_cases_alone(
                with,
                without,
                cached.runs,
                plain.runs,
            );
            assert(job_request(judge, spec, package, bytes, diagnostics, changed) == with);
        }
    }
}

/// A cache that has nothing, or something that does not verify, is as good as
/// no cache at all: the submission is compiled anew.
pub proof fn corrupt_cache_entries_cause_a_clean_rebuild(
    judge: JudgeView,
    spec: JobSpecView,
    events: JobEventsView,
)
    requires
        job_hit(judge, spec, events) is None,
    ensures
        job_outcome(judge, spec, events) == job_outcome(
            (JudgeView { cache: None, ..judge }),
            spec,
            events,
        ),
        job_lookup(judge, spec, events).result is Err ==> job_hit(judge, spec, events) is None,
{
    let bare = JudgeView { cache: None, ..judge };
    assert(job_package(judge, spec, events) == job_package(bare, spec, events));
    assert(job_build(judge, spec, events) == job_build(bare, spec, events));
    if let Ok(package) = job_package(judge, spec, events) {
        if let Ok(CompileOutputView::Module { bytes, diagnostics }) = events.compiled {
            assert(job_request(judge, spec, package, bytes, diagnostics, events) == job_request(
                bare,
                spec,
                package,
                bytes,
                diagnostics,
                events,
            ));
        }
    }
}

/// What a worker that is not trusted builds is quarantined: beyond removing what
/// does not verify, it changes nothing that a verified lookup sees. The build is
/// kept all the same, where only a lookup of what is quarantined finds it.
pub proof fn untrusted_builds_are_quarantined(
    disk: Map<Seq<char>, Seq<u8>>,
    judge: JudgeView,
    spec: JobSpecView,
    events: JobEventsView,
    root: Seq<char>,
    cid: Seq<char>,
)
    requires
        judge.trust_class != TrustClass::Trusted,
        judge.cache == Some(root),
        events.compiled matches Ok(CompileOutputView::Module { bytes, .. }) ==> is_cid_text(
            cid_text(bytes),
        ),
        is_cid_text(artifact_key_of(spec.source_cid, spec.environment_id, judge.compiler_id)),
        is_cid_text(cid),
    ensures
        gets_to_build(judge, spec, events) ==> {
            let swept = crate::cache::after_steps(disk, job_lookup(judge, spec, events).steps);
            let after = crate::cache::after_steps(disk, job_steps(judge, spec, events));
            let key = artifact_key_of(spec.source_cid, spec.environment_id, judge.compiler_id);
            &&& crate::cache::lookup_on(after, root, cid, Trust::Verified)
                == crate::cache::lookup_on(swept, root, cid, Trust::Verified)
            &&& crate::cache::text_of(after, index_place(root, Trust::Verified, cid))
                == crate::cache::text_of(swept, index_place(root, Trust::Verified, cid))
            &&& job_hit(judge, spec, events) is None ==> (events.compiled matches Ok(
                CompileOutputView::Module { bytes, .. },
            ) ==> crate::cache::build_lookup_on(after, root, key, Trust::Quarantined).result
                == Ok::<Option<Seq<u8>>, JudgeErrorView>(Some(bytes)))
        },
        !gets_to_build(judge, spec, events) ==> job_steps(judge, spec, events) == Seq::<
            FileStepView,
        >::empty(),
{
    let first = job_lookup(judge, spec, events).steps;
    let key = artifact_key_of(spec.source_cid, spec.environment_id, judge.compiler_id);
    if gets_to_build(judge, spec, events) && job_hit(judge, spec, events) is None {
        if let Ok(CompileOutputView::Module { bytes, .. }) = events.compiled {
            let put = put_build_steps(root, key, bytes, Trust::Quarantined);
            let swept = crate::cache::after_steps(disk, first);
            assert(job_steps(judge, spec, events) == first + put);
            crate::cache::after_steps_in_two(disk, first, put);
            crate::cache::quarantine_is_invisible_to_judging(swept, root, key, bytes, cid);
            crate::cache::stored_builds_are_read_back(swept, root, key, bytes, Trust::Quarantined);
        }
    }
}

/// What a trusted worker builds is found the next time: once what it does to the
/// cache has been done, the same build is a hit, and the bytes are the same.
pub proof fn trusted_builds_are_found_again(
    disk: Map<Seq<char>, Seq<u8>>,
    judge: JudgeView,
    spec: JobSpecView,
    events: JobEventsView,
    root: Seq<char>,
    bytes: Seq<u8>,
    diagnostics: Option<Seq<char>>,
)
    requires
        judge.trust_class == TrustClass::Trusted,
        judge.cache == Some(root),
        gets_to_build(judge, spec, events),
        job_hit(judge, spec, events) is None,
        events.compiled == Ok::<CompileOutputView, JudgeErrorView>(
            CompileOutputView::Module { bytes, diagnostics },
        ),
        is_cid_text(cid_text(bytes)),
        is_cid_text(artifact_key_of(spec.source_cid, spec.environment_id, judge.compiler_id)),
    ensures
        crate::cache::build_lookup_on(
            crate::cache::after_steps(disk, job_steps(judge, spec, events)),
            root,
            artifact_key_of(spec.source_cid, spec.environment_id, judge.compiler_id),
            Trust::Verified,
        ).result == Ok::<Option<Seq<u8>>, JudgeErrorView>(Some(bytes)),
{
    let key = artifact_key_of(spec.source_cid, spec.environment_id, judge.compiler_id);
    let first = job_lookup(judge, spec, events).steps;
    let put = put_build_steps(root, key, bytes, Trust::Verified);
    crate::cache::after_steps_in_two(disk, first, put);
    crate::cache::stored_builds_are_read_back(
        crate::cache::after_steps(disk, first),
        root,
        key,
        bytes,
        Trust::Verified,
    );
}

// ---------------------------------------------------------------------------
// What a job is judged by, and what it is answered
// ---------------------------------------------------------------------------

/// The package a job is judged against is the one that was decoded: all of it
/// where the job includes hidden tests, and otherwise all of it but its hidden
/// cases. Nothing else of it is changed: not how output is compared, not the
/// limits, the scoring or the groups, and no case that is kept.
pub proof fn a_job_is_judged_against_the_package_it_names(
    spec: JobSpecView,
    trust_class: TrustClass,
    package: Result<TrialPackageView, Seq<char>>,
)
    ensures
        prepared(spec, trust_class, package) matches Ok(kept) ==> {
            &&& package is Ok
            &&& package->Ok_0.fault() is None
            &&& kept.format_version == package->Ok_0.format_version
            &&& kept.slug == package->Ok_0.slug
            &&& kept.version == package->Ok_0.version
            &&& kept.mode == package->Ok_0.mode
            &&& kept.environment == package->Ok_0.environment
            &&& kept.limits == package->Ok_0.limits
            &&& kept.checker == package->Ok_0.checker
            &&& kept.scoring == package->Ok_0.scoring
            &&& kept.fail_fast == package->Ok_0.fail_fast
            &&& kept.groups == package->Ok_0.groups
            &&& spec.includes_hidden_tests ==> kept.tests == package->Ok_0.tests
            &&& !spec.includes_hidden_tests ==> kept.tests == package->Ok_0.tests.filter(
                |test: crate::problem_format::TestCaseView|
                    test.visibility == crate::problem_format::Visibility::Public,
            )
            &&& spec.environment_id == kept.environment.id
        },
{
    if let Ok(full) = package {
        crate::problem_format::only_hidden_cases_are_taken_out(full);
    }
}

/// A package is turned away where it could not be read, is malformed, would bring
/// hidden cases to a worker that is not trusted, or is for another environment,
/// and nowhere else; and what is said is which, in that order.
pub proof fn why_a_package_is_turned_away(
    spec: JobSpecView,
    trust_class: TrustClass,
    package: Result<TrialPackageView, Seq<char>>,
)
    ensures
        package matches Err(why) ==> prepared(spec, trust_class, package) == Err::<
            TrialPackageView,
            JudgeErrorView,
        >(
            JudgeErrorView::MalformedPackage(
                "package "@ + spec.trial_package_cid + " is not valid JSON: "@ + why,
            ),
        ),
        package matches Ok(full) ==> {
            let leaks = spec.includes_hidden_tests && trust_class != TrustClass::Trusted && exists|
                i: int,
            |
                0 <= i < full.tests.len() && #[trigger] full.tests[i].visibility
                    == crate::problem_format::Visibility::Hidden;
            let fits = full.environment.id == spec.environment_id;
            let result = prepared(spec, trust_class, package);
            &&& full.fault() matches Some(why) ==> result == Err::<TrialPackageView, JudgeErrorView>(
                JudgeErrorView::MalformedPackage(why),
            )
            &&& full.fault() is None && leaks ==> result == Err::<TrialPackageView, JudgeErrorView>(
                JudgeErrorView::SecurityPolicy(
                    "package still contains hidden tests after filtering"@,
                ),
            )
            &&& full.fault() is None && !leaks && !fits ==> result == Err::<
                TrialPackageView,
                JudgeErrorView,
            >(
                JudgeErrorView::MalformedPackage(
                    "job asks for environment "@ + spec.environment_id
                        + " but the package declares "@ + full.environment.id,
                ),
            )
            &&& full.fault() is None && !leaks && fits ==> result is Ok
        },
{
    if let Ok(full) = package {
        crate::problem_format::public_package_has_no_hidden_case(full);
    }
}

/// A job is refused where the compiler is not qualified, and otherwise where the
/// worker must not accept it; both are a matter of policy, and say which.
pub proof fn why_a_job_is_refused(
    compiler_id: Seq<char>,
    compiler_qualified: bool,
    spec: JobSpecView,
    trust_class: TrustClass,
)
    ensures
        ({
            let refusal = job_refusal(compiler_id, compiler_qualified, spec, trust_class);
            &&& !compiler_qualified ==> refusal == Some(
                JudgeErrorView::SecurityPolicy(
                    "compiler backend "@ + compiler_id + " is not qualified for submitted source"@,
                ),
            )
            &&& compiler_qualified && spec.refusal(trust_class) is Some ==> refusal == Some(
                JudgeErrorView::SecurityPolicy(
                    "refusing job "@ + spec.job_id + ": "@ + spec.refusal(trust_class)->0,
                ),
            )
            &&& compiler_qualified && spec.refusal(trust_class) is None ==> refusal is None
        }),
{
}

/// What stops a job before it is built, in order: that it is refused, that its
/// package cannot be fetched or is turned away, and that its source cannot be
/// fetched. Each is answered as it is.
pub proof fn what_stops_a_job_before_it_is_built(
    judge: JudgeView,
    spec: JobSpecView,
    events: JobEventsView,
)
    ensures
        ({
            let outcome = job_outcome(judge, spec, events);
            let refusal = job_refusal(
                judge.compiler_id,
                judge.compiler_qualified,
                spec,
                judge.trust_class,
            );
            let ready = prepared(spec, judge.trust_class, events.package);
            &&& refusal matches Some(error) ==> outcome == Err::<ResultManifestView, JudgeErrorView>(
                error,
            )
            &&& refusal is None ==> (events.package_bytes matches Err(error) ==> outcome == Err::<
                ResultManifestView,
                JudgeErrorView,
            >(error))
            &&& refusal is None && events.package_bytes is Ok ==> (ready matches Err(error)
                ==> outcome == Err::<ResultManifestView, JudgeErrorView>(error))
            &&& refusal is None && events.package_bytes is Ok && ready is Ok ==> (
            events.source matches Err(error) ==> outcome == Err::<
                ResultManifestView,
                JudgeErrorView,
            >(error))
            &&& gets_to_build(judge, spec, events) <==> refusal is None && events.package_bytes is Ok
                && ready is Ok && events.source is Ok
        }),
{
}

/// A submission that does not compile is answered with the compiler's own words
/// and nothing else, on the job and the package it was for.
pub proof fn what_does_not_compile_is_told_so(
    judge: JudgeView,
    spec: JobSpecView,
    events: JobEventsView,
    diagnostics: Seq<char>,
)
    requires
        gets_to_build(judge, spec, events),
        job_hit(judge, spec, events) is None,
        events.compiled == Ok::<CompileOutputView, JudgeErrorView>(
            CompileOutputView::Failed { diagnostics },
        ),
    ensures
        job_outcome(judge, spec, events) matches Ok(manifest) && {
            let package = prepared(spec, judge.trust_class, events.package)->Ok_0;
            &&& manifest.verdict == Verdict::CompileError
            &&& manifest.compiler_diagnostics == Some(diagnostics)
            &&& manifest.tests.len() == 0
            &&& manifest.job_id == spec.job_id
            &&& manifest.trial_package_cid == spec.trial_package_cid
            &&& manifest.trial_version == package.version
            &&& manifest.environment_id == package.environment.id
            &&& manifest.compile_ms == whole_ms(events.elapsed)
            &&& manifest.execution_ms == 0
            &&& !manifest.used_cached_artifact
        },
        job_steps(judge, spec, events) == job_lookup(judge, spec, events).steps,
{
}

/// What a compiler failed at is retried, unless it is a matter of policy: that is
/// reported, with no case and nothing the compiler said.
pub proof fn what_a_compiler_fails_at(
    judge: JudgeView,
    spec: JobSpecView,
    events: JobEventsView,
    error: JudgeErrorView,
)
    requires
        gets_to_build(judge, spec, events),
        job_hit(judge, spec, events) is None,
        events.compiled == Err::<CompileOutputView, JudgeErrorView>(error),
    ensures
        !(error is SecurityPolicy) ==> job_outcome(judge, spec, events) == Err::<
            ResultManifestView,
            JudgeErrorView,
        >(error),
        error is SecurityPolicy ==> (job_outcome(judge, spec, events) matches Ok(manifest) && {
            &&& manifest.verdict == Verdict::SecurityEvent
            &&& manifest.tests.len() == 0
            &&& manifest.compiler_diagnostics is None
            &&& manifest.job_id == spec.job_id
            &&& manifest.trial_package_cid == spec.trial_package_cid
        }),
        job_steps(judge, spec, events) == job_lookup(judge, spec, events).steps,
{
}

/// What compiled is graded, and the grade is the answer: the module that the
/// cache had or the compiler made, against the package the job names, under the
/// job's own name. Failures of the judge are retried, and what a sandbox refuses
/// as a matter of policy is reported without a case.
pub proof fn what_compiles_is_graded(
    judge: JudgeView,
    spec: JobSpecView,
    events: JobEventsView,
    module: Seq<u8>,
    diagnostics: Option<Seq<char>>,
)
    requires
        gets_to_build(judge, spec, events),
        judge.sandbox_qualified,
        job_hit(judge, spec, events) matches Some(bytes) ==> module == bytes && diagnostics is None,
        job_hit(judge, spec, events) is None ==> events.compiled == Ok::<
            CompileOutputView,
            JudgeErrorView,
        >(CompileOutputView::Module { bytes: module, diagnostics }),
    ensures
        ({
            let grade = graded(
                GradeRequestView {
                    job_id: spec.job_id,
                    trial_package_cid: spec.trial_package_cid,
                    module,
                    package: prepared(spec, judge.trust_class, events.package)->Ok_0,
                    compiler_diagnostics: diagnostics,
                    compile_ms: whole_ms(events.elapsed),
                    used_cached_artifact: job_hit(judge, spec, events) is Some,
                },
                events.runs,
            );
            let outcome = job_outcome(judge, spec, events);
            &&& grade is Ok ==> outcome == grade
            &&& grade matches Err(error) ==> {
                &&& !(error is SecurityPolicy) ==> outcome == Err::<
                    ResultManifestView,
                    JudgeErrorView,
                >(error)
                &&& error is SecurityPolicy ==> outcome is Ok && outcome->Ok_0.verdict
                    == Verdict::SecurityEvent && outcome->Ok_0.tests.len() == 0
                    && outcome->Ok_0.job_id == spec.job_id
            }
        }),
{
}

/// What is done to the cache: a build that was found, or that there is no cache
/// for, is not stored; one that was made is, under the key of what it was made
/// from, as verified by a trusted worker and as quarantined by any other.
pub proof fn what_is_stored_of_a_job(
    judge: JudgeView,
    spec: JobSpecView,
    events: JobEventsView,
)
    ensures
        judge.cache is None ==> job_steps(judge, spec, events).len() == 0 && job_hit(
            judge,
            spec,
            events,
        ) is None,
        gets_to_build(judge, spec, events) && job_hit(judge, spec, events) is Some ==> job_steps(
            judge,
            spec,
            events,
        ) == job_lookup(judge, spec, events).steps,
        gets_to_build(judge, spec, events) && job_hit(judge, spec, events) is None
            && judge.cache is Some ==> (events.compiled matches Ok(
            CompileOutputView::Module { bytes, .. },
        ) ==> job_steps(judge, spec, events) == job_lookup(judge, spec, events).steps
            + put_build_steps(
            judge.cache->0,
            artifact_key_of(spec.source_cid, spec.environment_id, judge.compiler_id),
            bytes,
            if judge.trust_class == TrustClass::Trusted {
                Trust::Verified
            } else {
                Trust::Quarantined
            },
        )),
        judge.cache matches Some(root) ==> job_lookup(judge, spec, events) == looked_up_build(
            root,
            artifact_key_of(spec.source_cid, spec.environment_id, judge.compiler_id),
            Trust::Verified,
            events.index,
            events.content,
        ),
        job_lookup(judge, spec, events).result matches Ok(found) ==> job_hit(judge, spec, events)
            == found,
{
}

/// The key of a build is the BLAKE3 CID of what it is made from: a mark of its
/// own, the source, the environment and the compiler, with a NUL between each two.
pub proof fn keys_are_made_of_what_builds_are_made_from(
    source_cid: Seq<char>,
    environment_id: Seq<char>,
    compiler_id: Seq<char>,
)
    ensures
        artifact_key_of(source_cid, environment_id, compiler_id) == "b3:"@
            + crate::digest::blake3_hex(
            vstd::utf8::encode_utf8(
                "rustly-artifact-v1"@ + seq!['\0'] + source_cid + seq!['\0'] + environment_id + seq![
                    '\0',
                ] + compiler_id,
            ),
        ),
{
    reveal_strlit("rustly-artifact-v1\0");
    reveal_strlit("rustly-artifact-v1");
    reveal_strlit("\0");
    assert("rustly-artifact-v1\0"@ == "rustly-artifact-v1"@ + seq!['\0']);
    assert("\0"@ == seq!['\0']);
}

/// A time in milliseconds is what fits of them into it.
pub proof fn milliseconds_are_whole(nanos: u128)
    requires
        nanos / 1_000_000 <= u64::MAX,
    ensures
        whole_ms(nanos) * 1_000_000 <= nanos < (whole_ms(nanos) + 1) * 1_000_000,
{
}

/// What a worker builds is verified where the worker is trusted, and nowhere
/// else.
pub proof fn builds_are_trusted_as_their_worker_is(trust_class: TrustClass)
    ensures
        build_trust(trust_class) == Trust::Verified <==> trust_class == TrustClass::Trusted,
        build_trust(trust_class) == Trust::Quarantined <==> trust_class != TrustClass::Trusted,
{
}

/// What a job asks for from outside, and of whom: its package and its source by
/// the names the job gives them, and both are what those names say; the decoding
/// of the package that was fetched; the build in the cache by its key, as verified;
/// and else the compilation of the source that was fetched, for the environment
/// that the job names.
pub proof fn what_a_job_asks_for<
    'a,
    A: ArtifactSource,
    C: CompileBackend,
    S: ExecutionBackend,
    D: Fn(Vec<u8>) -> Result<TrialPackage, String>,
    K: Fn() -> u128,
    E: Fn(u128) -> u128,
    T: Fn(String) -> TextRead,
    R: Fn(String) -> FileRead,
    F: Fn(String, String, u64, u64) -> FloatReading,
>(
    context: JobContext<'a, A, C, S>,
    host: JobHost<D, K, E, T, R, F>,
    spec: JobSpecView,
    events: JobEventsView,
)
    requires
        may_happen(context, host, spec, events),
        gets_to_build(context.judge(), spec, events),
    ensures
        context.artifacts.may_fetch(spec.trial_package_cid, events.package_bytes),
        events.package_bytes is Ok,
        cid_text(events.package_bytes->Ok_0) == spec.trial_package_cid,
        exists|b: Vec<u8>, p: Result<TrialPackage, String>|
            #![trigger call_ensures(host.decode, (b,), p)]
            b@ == events.package_bytes->Ok_0 && call_ensures(host.decode, (b,), p) && (
            p matches Ok(package) ==> events.package == Ok::<TrialPackageView, Seq<char>>(
                package@,
            )) && (p matches Err(why) ==> events.package == Err::<TrialPackageView, Seq<char>>(
                why@,
            )),
        context.artifacts.may_fetch(spec.source_cid, events.source),
        events.source is Ok,
        cid_text(events.source->Ok_0) == spec.source_cid,
        context.cache matches Some(cache) ==> exists|p: String, r: TextRead|
            #![trigger call_ensures(host.read_text, (p,), r)]
            p@ == index_place(
                cache@,
                Trust::Verified,
                artifact_key_of(spec.source_cid, spec.environment_id, context.compiler.known_as()),
            ) && r@ == events.index && call_ensures(host.read_text, (p,), r),
        context.cache matches Some(cache) ==> (events.index matches TextReadView::Found(text) ==> (
        is_cid_text(trimmed(text)) ==> exists|p: String, r: FileRead|
            #![trigger call_ensures(host.read_file, (p,), r)]
            p@ == artifact_place(cache@, Trust::Verified, trimmed(text)) && r@ == events.content
                && call_ensures(host.read_file, (p,), r))),
        job_hit(context.judge(), spec, events) is None ==> context.compiler.may_compile(
            events.source->Ok_0,
            spec.environment_id,
            events.compiled,
        ),
        job_build(context.judge(), spec, events) is Ok ==> call_ensures(
            host.clock,
            (),
            events.started,
        ) && call_ensures(host.elapsed, (events.started,), events.elapsed),
{
    assert(may_decode(host.decode, events.package_bytes->Ok_0, events.package));
}

/// And what a job has run: the module it built, against each case that grading
/// gets to, by the sandbox it was given.
pub proof fn what_a_job_has_run<
    'a,
    A: ArtifactSource,
    C: CompileBackend,
    S: ExecutionBackend,
    D: Fn(Vec<u8>) -> Result<TrialPackage, String>,
    K: Fn() -> u128,
    E: Fn(u128) -> u128,
    T: Fn(String) -> TextRead,
    R: Fn(String) -> FileRead,
    F: Fn(String, String, u64, u64) -> FloatReading,
>(
    context: JobContext<'a, A, C, S>,
    host: JobHost<D, K, E, T, R, F>,
    spec: JobSpecView,
    events: JobEventsView,
    module: Seq<u8>,
    diagnostics: Option<Seq<char>>,
    i: int,
)
    requires
        may_happen(context, host, spec, events),
        gets_to_build(context.judge(), spec, events),
        context.sandbox.qualified(),
        job_build(context.judge(), spec, events) == Ok::<CompileOutputView, JudgeErrorView>(
            CompileOutputView::Module { bytes: module, diagnostics },
        ),
        ({
            let package = prepared(spec, context.trust_class, events.package)->Ok_0;
            &&& package.well_formed()
            &&& 0 <= i < package.tests.len()
            &&& reached(package, events.runs, i)
        }),
    ensures
        ({
            let package = prepared(spec, context.trust_class, events.package)->Ok_0;
            let test = ordered(package.tests)[i];
            &&& events.runs.len() == package.tests.len()
            &&& context.sandbox.may_yield(
                (crate::backend::ExecutionRequestView {
                    module,
                    stdin: vstd::utf8::encode_utf8(test.stdin),
                    args: test.args,
                    limits: if test.limits is Some {
                        test.limits->0
                    } else {
                        package.limits
                    },
                }),
                events.runs[i].result,
            )
        }),
{
    let package = prepared(spec, context.trust_class, events.package)->Ok_0;
    let request = job_request(context.judge(), spec, package, module, diagnostics, events);
    let run = events.runs[i];
    assert(may_run(context.sandbox, host.read_values, request, ordered(package.tests)[i], run));
    crate::grader::a_run_is_of_its_case(
        context.sandbox,
        host.read_values,
        request,
        ordered(package.tests)[i],
        run,
        0,
    );
}

/// Who judges a job is who the context names.
pub proof fn the_judge_is_the_context<
    'a,
    A: ArtifactSource,
    C: CompileBackend,
    S: ExecutionBackend,
>(context: JobContext<'a, A, C, S>)
    ensures
        context.judge().compiler_id == context.compiler.known_as(),
        context.judge().compiler_qualified == context.compiler.qualified(),
        context.judge().sandbox_id == context.sandbox.known_as(),
        context.judge().sandbox_qualified == context.sandbox.qualified(),
        context.judge().trust_class == context.trust_class,
        context.cache matches Some(cache) ==> context.judge().cache == Some(cache@),
        context.cache is None ==> context.judge().cache is None,
{
}

/// A sandbox that is not qualified is answered for by name, and the job retried.
pub proof fn jobs_without_a_qualified_sandbox_are_retried(
    judge: JudgeView,
    spec: JobSpecView,
    events: JobEventsView,
)
    requires
        gets_to_build(judge, spec, events),
        !judge.sandbox_qualified,
        job_build(judge, spec, events) is Ok,
        job_build(judge, spec, events)->Ok_0 is Module,
    ensures
        job_outcome(judge, spec, events) == Err::<ResultManifestView, JudgeErrorView>(
            JudgeErrorView::Sandbox(
                "backend `"@ + judge.sandbox_id + "` is not qualified for untrusted code"@,
            ),
        ),
{
}

/// A report is its manifest, and what the submitter sees of it is that manifest
/// redacted.
pub proof fn reports_are_their_manifests(report: JobReport)
    ensures
        report@ == report.manifest@,
        report.wf() <==> report.redacted@ == report.manifest@.redacted(),
{
}

} // verus!
