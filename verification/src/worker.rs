//! What a worker decides around the pipeline.

use vstd::prelude::*;

use crate::error::{judged, JudgeError, JudgeErrorView};
use crate::limits::Limits;
use crate::pipeline::JobReport;
use crate::problem_format::{TrialPackage, TrialPackageView};
use crate::protocol::{
    Backend, JobSpec, JobSpecView, ResultManifestView, ResultSummary, ResultSummaryView,
    TrustClass, PROTOCOL_VERSION,
};
use crate::queue::spec_views;
use crate::routes::{LeaseRequest, LeaseResponse};
use crate::text::{
    begins_with, copy_text, debug_of, debug_text, has_prefix, joined, same_text,
};
use crate::verdict::{Verdict, VerdictClass};

verus! {

/// The trust class that a word stands for.
pub open spec fn trust_of(word: Seq<char>) -> Option<TrustClass> {
    if word == "volunteer"@ {
        Some(TrustClass::Volunteer)
    } else if word == "community"@ {
        Some(TrustClass::Community)
    } else if word == "trusted"@ {
        Some(TrustClass::Trusted)
    } else {
        None
    }
}

/// Read a trust class.
pub fn parse_trust(value: &str) -> (result: Result<TrustClass, String>)
    ensures
        match result {
            Ok(class) => trust_of(value@) == Some(class),
            Err(why) => trust_of(value@) is None && why@ == "unknown trust class "@ + debug_text(
                value@,
            ),
        },
{
    if same_text(value, "volunteer") {
        Ok(TrustClass::Volunteer)
    } else if same_text(value, "community") {
        Ok(TrustClass::Community)
    } else if same_text(value, "trusted") {
        Ok(TrustClass::Trusted)
    } else {
        Err(joined("unknown trust class ", debug_of(value).as_str()))
    }
}

/// A job to judge from local files. Its environment, version and limits are
/// those of its package, once it is aligned with that.
pub open spec fn local_spec(
    source_cid: Seq<char>,
    trial_package_cid: Seq<char>,
    trust: TrustClass,
    hidden: bool,
) -> JobSpecView {
    JobSpecView {
        protocol_version: PROTOCOL_VERSION,
        job_id: "local"@,
        source_cid,
        trial_package_cid,
        trial_version: 0,
        environment_id: Seq::empty(),
        limits: Limits {
            wall_ms: 2_000,
            memory_bytes: 67_108_864,
            output_bytes: 262_144,
            fuel: 500_000_000,
            table_elements: 10_000,
            instances: 1,
        },
        backend: Backend::Wasmtime,
        includes_hidden_tests: hidden && trust == TrustClass::Trusted,
    }
}

/// Describe a job to judge from local files. Hidden tests are included where
/// they are asked for and the trust class may have them.
pub fn local_job(source_cid: &str, trial_package_cid: &str, trust: TrustClass, hidden: bool) -> (spec:
    JobSpec)
    ensures
        spec@ == local_spec(source_cid@, trial_package_cid@, trust, hidden),
{
    let spec = JobSpec {
        protocol_version: PROTOCOL_VERSION,
        job_id: "local".to_owned(),
        source_cid: copy_text(source_cid),
        trial_package_cid: copy_text(trial_package_cid),
        trial_version: 0,
        environment_id: String::new(),
        limits: Limits::default(),
        backend: Backend::Wasmtime,
        includes_hidden_tests: hidden && trust.may_receive_hidden_tests(),
    };
    assert(spec@.environment_id == Seq::<char>::empty());
    spec
}

/// A local run never refuses its own job, whatever is asked for and whoever
/// judges: what may not be had is left out instead.
pub proof fn local_jobs_are_never_refused(
    source_cid: Seq<char>,
    trial_package_cid: Seq<char>,
    trust: TrustClass,
    hidden: bool,
    package: TrialPackageView,
)
    requires
        package.well_formed(),
    ensures
        ({
            let spec = aligned_spec(
                local_spec(source_cid, trial_package_cid, trust, hidden),
                package,
            );
            &&& spec.refusal(trust) is None
            &&& crate::pipeline::prepared(spec, trust, Ok(package)) is Ok
            &&& spec.includes_hidden_tests ==> trust == TrustClass::Trusted
        }),
{
    aligned_jobs_fit_their_package(
        local_spec(source_cid, trial_package_cid, trust, hidden),
        package,
        trust,
    );
}

/// Fill in the fields of a job that must agree with its package.
///
/// The environment, version, and limits are properties of the package; reading
/// them from there keeps a local run identical to a brokered one.
pub fn align_with_package(spec: JobSpec, package: &TrialPackage) -> (aligned: JobSpec)
    ensures
        aligned@ == aligned_spec(spec@, package@),
{
    let mut aligned = spec;
    aligned.environment_id = copy_text(package.environment.id.as_str());
    aligned.trial_version = package.version;
    aligned.limits = package.limits;
    aligned
}

/// A job whose fields agree with its package.
pub open spec fn aligned_spec(spec: JobSpecView, package: TrialPackageView) -> JobSpecView {
    JobSpecView {
        environment_id: package.environment.id,
        trial_version: package.version,
        limits: package.limits,
        ..spec
    }
}

/// A job that was aligned with a well-formed package is never refused for the
/// environment, nor for missing bounds.
pub proof fn aligned_jobs_fit_their_package(
    spec: JobSpecView,
    package: TrialPackageView,
    worker_trust: TrustClass,
)
    requires
        package.well_formed(),
        spec.refusal(worker_trust) is None,
    ensures
        aligned_spec(spec, package).refusal(worker_trust) is None,
        crate::pipeline::prepared(aligned_spec(spec, package), worker_trust, Ok(package)) is Ok,
{
    crate::problem_format::accepted_iff_well_formed(package);
    crate::problem_format::public_package_has_no_hidden_case(package);
}

/// What a worker reports of a job that came to an error.
pub open spec fn failure_summary_of(
    worker_id: Seq<char>,
    trial_package_cid: Seq<char>,
    error: JudgeErrorView,
) -> ResultSummaryView {
    ResultSummaryView {
        protocol_version: PROTOCOL_VERSION,
        worker_id,
        trial_package_cid,
        verdict: error.verdict(),
        result_manifest_hash: Seq::empty(),
        peak_memory_bytes: 0,
        execution_ms: 0,
        compile_ms: 0,
        used_cached_artifact: false,
    }
}

/// Report a job that came to an error: honestly, as what it is, rather than
/// dressed up as a user verdict.
pub fn failure_summary(worker_id: &str, trial_package_cid: &str, error: &JudgeError) -> (summary:
    ResultSummary)
    ensures
        summary@ == failure_summary_of(worker_id@, trial_package_cid@, error@),
{
    ResultSummary {
        protocol_version: PROTOCOL_VERSION,
        worker_id: copy_text(worker_id),
        trial_package_cid: copy_text(trial_package_cid),
        verdict: error.verdict(),
        result_manifest_hash: String::new(),
        peak_memory_bytes: 0,
        execution_ms: 0,
        compile_ms: 0,
        used_cached_artifact: false,
    }
}

/// What a worker reports of a job.
pub open spec fn summary_of(
    worker_id: Seq<char>,
    spec: JobSpecView,
    result: Result<ResultManifestView, JudgeErrorView>,
) -> ResultSummaryView {
    match result {
        Ok(manifest) => manifest.summarised(worker_id),
        Err(error) => failure_summary_of(worker_id, spec.trial_package_cid, error),
    }
}

/// Report a job, judged or not.
pub fn job_summary(worker_id: &str, spec: &JobSpec, result: &Result<JobReport, JudgeError>) -> (summary:
    ResultSummary)
    ensures
        summary@ == summary_of(worker_id@, spec@, judged(*result)),
{
    match result {
        Ok(report) => report.manifest.summary(worker_id),
        Err(error) => failure_summary(worker_id, spec.trial_package_cid.as_str(), error),
    }
}

/// A job that came to an error is never reported as solved, nor as anything
/// that the program did: the report names no manifest, and its verdict is the
/// judge's own fault or a security event.
pub proof fn failures_are_reported_honestly(
    worker_id: Seq<char>,
    spec: JobSpecView,
    error: JudgeErrorView,
)
    ensures
        ({
            let summary = summary_of(worker_id, spec, Err(error));
            &&& summary.trial_package_cid == spec.trial_package_cid
            &&& summary.result_manifest_hash.len() == 0
            &&& summary.verdict.class_of() == VerdictClass::SystemFault || summary.verdict
                == Verdict::SecurityEvent
        }),
{
}

/// Ask for work.
pub fn lease_request(worker_id: &str, trust_class: TrustClass, capacity: u32) -> (request:
    LeaseRequest)
    ensures
        request.protocol_version == PROTOCOL_VERSION,
        request.worker_id@ == worker_id@,
        request.trust_class == trust_class,
        request.capacity == capacity,
{
    LeaseRequest {
        protocol_version: PROTOCOL_VERSION,
        worker_id: copy_text(worker_id),
        trust_class,
        capacity,
    }
}

/// What a worker does once a broker has answered.
#[derive(Debug)]
pub enum NextMove {
    /// There is no work: wait, and ask again.
    Wait {
        /// How long.
        seconds: u64,
    },
    /// Judge these jobs in order, report each, and ask again.
    Judge {
        /// The jobs.
        jobs: Vec<JobSpec>,
    },
}

/// Decide what to do with a broker's answer.
pub fn after_lease(leased: LeaseResponse) -> (next: NextMove)
    ensures
        match next {
            NextMove::Wait { seconds } => {
                &&& leased.jobs@.len() == 0
                &&& seconds == delay(leased.poll_after_seconds)
            },
            NextMove::Judge { jobs } => {
                &&& leased.jobs@.len() > 0
                &&& spec_views(jobs@) == spec_views(leased.jobs@)
            },
        },
{
    if leased.jobs.len() == 0 {
        NextMove::Wait { seconds: poll_delay(leased.poll_after_seconds) }
    } else {
        NextMove::Judge { jobs: leased.jobs }
    }
}

/// How many seconds to wait before asking an empty queue again: at least one.
pub open spec fn delay(poll_after_seconds: u32) -> int {
    if poll_after_seconds == 0 {
        1
    } else {
        poll_after_seconds as int
    }
}

/// How many seconds to wait before asking an empty queue again: at least one.
pub fn poll_delay(poll_after_seconds: u32) -> (seconds: u64)
    ensures
        seconds == delay(poll_after_seconds),
{
    if poll_after_seconds == 0 {
        1
    } else {
        poll_after_seconds as u64
    }
}

/// Where a broker leases jobs.
pub fn lease_url(broker: &str) -> (url: String)
    ensures
        url@ == broker@ + "/api/v1/judge/leases"@,
{
    joined(broker, "/api/v1/judge/leases")
}

/// Where a broker takes the result of a job.
pub fn result_url(broker: &str, job_id: &str) -> (url: String)
    ensures
        url@ == broker@ + "/api/v1/judge/jobs/"@ + job_id@ + "/result"@,
{
    let mut url = joined(broker, "/api/v1/judge/jobs/");
    url.append(job_id);
    url.append("/result");
    url
}

/// Whether an address is one that only this machine reaches. A broker has no
/// authentication; anywhere else it must be on a trusted network.
pub fn is_local_address(bind: &str) -> (yes: bool)
    ensures
        yes == (begins_with(bind@, "127.0.0.1"@) || begins_with(bind@, "localhost"@)),
{
    has_prefix(bind, "127.0.0.1") || has_prefix(bind, "localhost")
}

/// Three words stand for a trust class, each for its own, and no other does.
pub proof fn words_for_trust(word: Seq<char>)
    ensures
        trust_of(word) == Some(TrustClass::Volunteer) <==> word == "volunteer"@,
        trust_of(word) == Some(TrustClass::Community) <==> word == "community"@,
        trust_of(word) == Some(TrustClass::Trusted) <==> word == "trusted"@,
{
    reveal_strlit("volunteer");
    reveal_strlit("community");
    reveal_strlit("trusted");
    assert("volunteer"@[0] == 'v' && "community"@[0] == 'c' && "trusted"@[0] == 't');
}

/// A local job is about the source and the package it was asked about, in this
/// protocol and on the qualified backend, under default limits until it is
/// aligned; and hidden tests are in it exactly where they were asked for by who
/// may have them.
pub proof fn local_jobs_are_what_was_asked_for(
    source_cid: Seq<char>,
    trial_package_cid: Seq<char>,
    trust: TrustClass,
    hidden: bool,
)
    ensures
        ({
            let spec = local_spec(source_cid, trial_package_cid, trust, hidden);
            &&& spec.protocol_version == 1
            &&& spec.job_id == "local"@
            &&& spec.source_cid == source_cid
            &&& spec.trial_package_cid == trial_package_cid
            &&& spec.backend == Backend::Wasmtime
            &&& spec.includes_hidden_tests <==> hidden && trust == TrustClass::Trusted
            &&& spec.limits.bounded()
        }),
{
}

/// Aligning a job takes the environment, the version and the limits from the
/// package, and leaves everything else of the job alone.
pub proof fn aligning_changes_what_is_the_packages(spec: JobSpecView, package: TrialPackageView)
    ensures
        ({
            let aligned = aligned_spec(spec, package);
            &&& aligned.environment_id == package.environment.id
            &&& aligned.trial_version == package.version
            &&& aligned.limits == package.limits
            &&& aligned.protocol_version == spec.protocol_version
            &&& aligned.job_id == spec.job_id
            &&& aligned.source_cid == spec.source_cid
            &&& aligned.trial_package_cid == spec.trial_package_cid
            &&& aligned.backend == spec.backend
            &&& aligned.includes_hidden_tests == spec.includes_hidden_tests
        }),
{
}

/// What a worker reports is its own and about the package of the job. Of a job
/// that was judged it is what the manifest says, and of one that was not the
/// verdict of the error, with nothing else on record.
pub proof fn reports_say_what_came_of_a_job(
    worker_id: Seq<char>,
    spec: JobSpecView,
    manifest: ResultManifestView,
    error: JudgeErrorView,
)
    ensures
        ({
            let judged = summary_of(worker_id, spec, Ok(manifest));
            let failed = summary_of(worker_id, spec, Err(error));
            &&& judged.protocol_version == 1 && failed.protocol_version == 1
            &&& judged.worker_id == worker_id && failed.worker_id == worker_id
            &&& judged.trial_package_cid == manifest.trial_package_cid
            &&& judged.verdict == manifest.verdict
            &&& judged.result_manifest_hash == manifest.hash()
            &&& judged.execution_ms == manifest.execution_ms
            &&& judged.compile_ms == manifest.compile_ms
            &&& judged.used_cached_artifact == manifest.used_cached_artifact
            &&& failed.trial_package_cid == spec.trial_package_cid
            &&& failed.verdict == error.verdict()
            &&& failed.result_manifest_hash.len() == 0
            &&& failed.peak_memory_bytes == 0
            &&& failed.execution_ms == 0
            &&& failed.compile_ms == 0
            &&& !failed.used_cached_artifact
        }),
{
}

/// A worker waits as long as it was told to, and never not at all.
pub proof fn workers_wait_as_told(seconds: u32)
    ensures
        delay(seconds) >= 1,
        delay(seconds) >= seconds,
        seconds > 0 ==> delay(seconds) == seconds,
        delay(0) == 1,
{
}

} // verus!
