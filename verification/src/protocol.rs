//! Judge wire contracts.
//!
//! Three independently meaningful shapes live here, all carrying
//! [`PROTOCOL_VERSION`]:
//!
//! * [`JobSpec`] - what a worker is asked to do. Identifiers and limits only.
//! * [`ResultManifest`] - the full per-test record, stored in the data plane.
//! * [`ResultSummary`] - the small thing reported to the control plane: a
//!   verdict, timings, and the **hash** of the manifest.
//!
//! The split is the point. Diagnostics can be large and are a user's own data;
//! they belong in content-addressed storage. The control plane records a verdict
//! and a hash, so a result can be audited later without the API ever having
//! carried it.

use vstd::prelude::*;

use crate::digest::{cid, cid_text, is_cid_text};
use crate::limits::Limits;
use crate::problem_format::{text_option, Visibility};
use crate::text::{copy_text, dec, joined, push_decimal};
use crate::verdict::Verdict;

verus! {

/// Version of the job, result, and worker protocols.
pub const PROTOCOL_VERSION: u32 = 1;

/// How much a worker is trusted. Mirrors the control plane's classification.
#[derive(Debug, Clone, Copy, PartialEq, Eq, Structural, PartialOrd, Ord)]
pub enum TrustClass {
    /// Anonymous donated capacity.
    Volunteer,
    /// Known community operator.
    Community,
    /// Operator-run infrastructure.
    Trusted,
}

impl TrustClass {
    /// The name a class goes by in messages.
    pub open spec fn name_text(self) -> Seq<char> {
        match self {
            TrustClass::Volunteer => "Volunteer"@,
            TrustClass::Community => "Community"@,
            TrustClass::Trusted => "Trusted"@,
        }
    }

    /// Whether this class may receive hidden test material.
    pub fn may_receive_hidden_tests(self) -> (yes: bool)
        ensures
            yes == (self == TrustClass::Trusted),
    {
        match self {
            TrustClass::Trusted => true,
            _ => false,
        }
    }

    /// Whether artifacts from this class must be quarantined until reproduced.
    pub fn requires_artifact_quarantine(self) -> (yes: bool)
        ensures
            yes == (self != TrustClass::Trusted),
    {
        match self {
            TrustClass::Trusted => false,
            _ => true,
        }
    }

    fn name(self) -> (name: &'static str)
        ensures
            name@ == self.name_text(),
    {
        match self {
            TrustClass::Volunteer => "Volunteer",
            TrustClass::Community => "Community",
            TrustClass::Trusted => "Trusted",
        }
    }
}

/// Execution backend selection.
#[derive(Debug, Clone, Copy, PartialEq, Eq, Structural)]
pub enum Backend {
    /// Wasmtime. The only backend qualified for untrusted submissions.
    Wasmtime,
    /// Native isolation. EXPERIMENTAL and qualification-gated.
    Native,
}

/// A unit of judging work.
///
/// Carries no source and no test data: only content identifiers the worker
/// resolves through the data plane.
#[derive(Debug, PartialEq, Eq)]
pub struct JobSpec {
    /// Protocol version of this payload.
    pub protocol_version: u32,
    /// Immutable job identifier.
    pub job_id: String,
    /// CID of the submitted source.
    pub source_cid: String,
    /// CID of the Trial package.
    pub trial_package_cid: String,
    /// Trial content version, for verdict traceability.
    pub trial_version: u32,
    /// Environment identifier the package requires.
    pub environment_id: String,
    /// Bounds to enforce.
    pub limits: Limits,
    /// Backend to use.
    pub backend: Backend,
    /// Whether the referenced package includes hidden tests.
    ///
    /// Only ever `true` for a [`TrustClass::Trusted`] worker.
    pub includes_hidden_tests: bool,
}

/// What a [`JobSpec`] says.
#[verifier::ext_equal]
pub struct JobSpecView {
    pub protocol_version: u32,
    pub job_id: Seq<char>,
    pub source_cid: Seq<char>,
    pub trial_package_cid: Seq<char>,
    pub trial_version: u32,
    pub environment_id: Seq<char>,
    pub limits: Limits,
    pub backend: Backend,
    pub includes_hidden_tests: bool,
}

impl View for JobSpec {
    type V = JobSpecView;

    open spec fn view(&self) -> JobSpecView {
        JobSpecView {
            protocol_version: self.protocol_version,
            job_id: self.job_id@,
            source_cid: self.source_cid@,
            trial_package_cid: self.trial_package_cid@,
            trial_version: self.trial_version,
            environment_id: self.environment_id@,
            limits: self.limits,
            backend: self.backend,
            includes_hidden_tests: self.includes_hidden_tests,
        }
    }
}

impl Clone for JobSpec {
    fn clone(&self) -> (copy: JobSpec)
        ensures
            copy@ == self@,
    {
        JobSpec {
            protocol_version: self.protocol_version,
            job_id: copy_text(self.job_id.as_str()),
            source_cid: copy_text(self.source_cid.as_str()),
            trial_package_cid: copy_text(self.trial_package_cid.as_str()),
            trial_version: self.trial_version,
            environment_id: copy_text(self.environment_id.as_str()),
            limits: self.limits,
            backend: self.backend,
            includes_hidden_tests: self.includes_hidden_tests,
        }
    }
}

impl JobSpecView {
    /// Why a worker of a class refuses a job, if it does.
    pub open spec fn refusal(self, worker_trust: TrustClass) -> Option<Seq<char>> {
        if self.protocol_version != PROTOCOL_VERSION {
            Some(
                "job speaks protocol v"@ + dec(self.protocol_version as nat)
                    + ", this worker speaks v1"@,
            )
        } else if self.includes_hidden_tests && worker_trust != TrustClass::Trusted {
            Some("refusing a job with hidden tests as a "@ + worker_trust.name_text() + " worker"@)
        } else if self.backend == Backend::Native {
            Some("the native backend is EXPERIMENTAL and not qualified for submissions"@)
        } else if !self.limits.bounded() {
            Some("invalid limits: "@ + self.limits.complaint())
        } else {
            None
        }
    }
}

impl JobSpec {
    /// Reject a job that violates a protocol invariant.
    ///
    /// The hidden-test rule is checked here as well as at the broker. It is
    /// cheap, and a worker that would leak hidden tests should refuse the job
    /// even if the broker made a mistake.
    pub fn validate(&self, worker_trust: TrustClass) -> (result: Result<(), String>)
        ensures
            match result {
                Ok(_) => self@.refusal(worker_trust) is None,
                Err(why) => self@.refusal(worker_trust) == Some(why@),
            },
    {
        if self.protocol_version != PROTOCOL_VERSION {
            let mut why = "job speaks protocol v".to_owned();
            push_decimal(&mut why, self.protocol_version as u64);
            why.append(", this worker speaks v1");
            return Err(why);
        }
        if self.includes_hidden_tests && !worker_trust.may_receive_hidden_tests() {
            let mut why = joined("refusing a job with hidden tests as a ", worker_trust.name());
            why.append(" worker");
            return Err(why);
        }
        if self.backend == Backend::Native {
            return Err(
                "the native backend is EXPERIMENTAL and not qualified for submissions".to_owned(),
            );
        }
        match self.limits.validate() {
            Ok(_) => Ok(()),
            Err(why) => Err(joined("invalid limits: ", why)),
        }
    }
}

/// A job that a worker takes on speaks its protocol, has every bound, runs on
/// the qualified backend, and brings hidden tests to trusted workers alone.
pub proof fn accepted_job_is_safe(job: JobSpecView, worker_trust: TrustClass)
    ensures
        job.refusal(worker_trust) is None <==> {
            &&& job.protocol_version == PROTOCOL_VERSION
            &&& job.includes_hidden_tests ==> worker_trust == TrustClass::Trusted
            &&& job.backend == Backend::Wasmtime
            &&& job.limits.bounded()
        },
{
}

/// The outcome of one test case.
#[derive(Debug, PartialEq, Eq)]
pub struct TestOutcome {
    /// Test identifier from the package.
    pub test_id: String,
    /// Whether the case was public or hidden.
    pub visibility: Visibility,
    /// Verdict for this case.
    pub verdict: Verdict,
    /// Wall-clock duration, milliseconds.
    pub wall_ms: u64,
    /// Work units consumed.
    pub fuel_consumed: Option<u64>,
    /// Peak memory, bytes.
    pub peak_memory_bytes: u64,
    /// Submitter-safe explanation of a failure.
    ///
    /// For a hidden case this must never quote the input or the expected
    /// output; [`ResultManifest::redacted_for_submitter`] enforces that.
    pub detail: Option<String>,
}

/// What a [`TestOutcome`] says.
#[verifier::ext_equal]
pub struct TestOutcomeView {
    pub test_id: Seq<char>,
    pub visibility: Visibility,
    pub verdict: Verdict,
    pub wall_ms: u64,
    pub fuel_consumed: Option<u64>,
    pub peak_memory_bytes: u64,
    pub detail: Option<Seq<char>>,
}

impl View for TestOutcome {
    type V = TestOutcomeView;

    open spec fn view(&self) -> TestOutcomeView {
        TestOutcomeView {
            test_id: self.test_id@,
            visibility: self.visibility,
            verdict: self.verdict,
            wall_ms: self.wall_ms,
            fuel_consumed: self.fuel_consumed,
            peak_memory_bytes: self.peak_memory_bytes,
            detail: text_option(self.detail),
        }
    }
}

pub(crate) fn copy_option(text: &Option<String>) -> (copy: Option<String>)
    ensures
        text_option(copy) == text_option(*text),
{
    match text {
        Some(t) => Some(copy_text(t.as_str())),
        None => None,
    }
}

impl Clone for TestOutcome {
    fn clone(&self) -> (copy: TestOutcome)
        ensures
            copy@ == self@,
    {
        TestOutcome {
            test_id: copy_text(self.test_id.as_str()),
            visibility: self.visibility,
            verdict: self.verdict,
            wall_ms: self.wall_ms,
            fuel_consumed: self.fuel_consumed,
            peak_memory_bytes: self.peak_memory_bytes,
            detail: copy_option(&self.detail),
        }
    }
}

/// The full record of a judged submission.
///
/// Stored in the data plane and addressed by [`ResultManifest::hash`].
#[derive(Debug, PartialEq, Eq)]
pub struct ResultManifest {
    /// Protocol version of this payload.
    pub protocol_version: u32,
    /// Job this manifest describes.
    pub job_id: String,
    /// Immutable Trial package judged for this result.
    pub trial_package_cid: String,
    /// Trial content version judged against.
    pub trial_version: u32,
    /// Environment used.
    pub environment_id: String,
    /// Final verdict.
    pub verdict: Verdict,
    /// Per-test outcomes.
    pub tests: Vec<TestOutcome>,
    /// Compiler diagnostics, verbatim.
    ///
    /// Raw `rustc` output is preserved exactly. Explaining a diagnostic is a
    /// job for the UI; replacing it is never acceptable.
    pub compiler_diagnostics: Option<String>,
    /// Compilation time, milliseconds.
    pub compile_ms: u64,
    /// Total execution time across cases, milliseconds.
    pub execution_ms: u64,
    /// Whether a cached compilation artifact was reused. Metrics only.
    pub used_cached_artifact: bool,
}

/// What a [`ResultManifest`] says.
#[verifier::ext_equal]
pub struct ResultManifestView {
    pub protocol_version: u32,
    pub job_id: Seq<char>,
    pub trial_package_cid: Seq<char>,
    pub trial_version: u32,
    pub environment_id: Seq<char>,
    pub verdict: Verdict,
    pub tests: Seq<TestOutcomeView>,
    pub compiler_diagnostics: Option<Seq<char>>,
    pub compile_ms: u64,
    pub execution_ms: u64,
    pub used_cached_artifact: bool,
}

/// What the outcomes of a list say.
pub open spec fn outcome_views(tests: Seq<TestOutcome>) -> Seq<TestOutcomeView> {
    Seq::new(tests.len(), |i: int| tests[i]@)
}

impl View for ResultManifest {
    type V = ResultManifestView;

    open spec fn view(&self) -> ResultManifestView {
        ResultManifestView {
            protocol_version: self.protocol_version,
            job_id: self.job_id@,
            trial_package_cid: self.trial_package_cid@,
            trial_version: self.trial_version,
            environment_id: self.environment_id@,
            verdict: self.verdict,
            tests: outcome_views(self.tests@),
            compiler_diagnostics: text_option(self.compiler_diagnostics),
            compile_ms: self.compile_ms,
            execution_ms: self.execution_ms,
            used_cached_artifact: self.used_cached_artifact,
        }
    }
}

fn copy_outcomes(tests: &Vec<TestOutcome>) -> (copy: Vec<TestOutcome>)
    ensures
        outcome_views(copy@) == outcome_views(tests@),
{
    let mut copy: Vec<TestOutcome> = Vec::new();
    let mut i: usize = 0;
    while i < tests.len()
        invariant
            i <= tests@.len(),
            outcome_views(copy@) == outcome_views(tests@).take(i as int),
        decreases tests@.len() - i,
    {
        let ghost before = copy@;
        copy.push(tests[i].clone());
        assert(outcome_views(copy@) == outcome_views(before).push(tests@[i as int]@));
        i += 1;
    }
    assert(outcome_views(tests@).take(i as int) == outcome_views(tests@));
    copy
}

impl Clone for ResultManifest {
    fn clone(&self) -> (copy: ResultManifest)
        ensures
            copy@ == self@,
    {
        ResultManifest {
            protocol_version: self.protocol_version,
            job_id: copy_text(self.job_id.as_str()),
            trial_package_cid: copy_text(self.trial_package_cid.as_str()),
            trial_version: self.trial_version,
            environment_id: copy_text(self.environment_id.as_str()),
            verdict: self.verdict,
            tests: copy_outcomes(&self.tests),
            compiler_diagnostics: copy_option(&self.compiler_diagnostics),
            compile_ms: self.compile_ms,
            execution_ms: self.execution_ms,
            used_cached_artifact: self.used_cached_artifact,
        }
    }
}

// ---------------------------------------------------------------------------
// The canonical encoding
// ---------------------------------------------------------------------------

/// The hexadecimal digit `d`, for `d` below sixteen.
pub open spec fn hex_char(d: int) -> char {
    if d < 10 {
        (48 + d) as char
    } else {
        (87 + d) as char
    }
}

/// A character inside a JSON string literal.
pub open spec fn json_char(c: char) -> Seq<char> {
    if c == '"' || c == '\\' {
        seq!['\\', c]
    } else if c as int == 0x08 {
        seq!['\\', 'b']
    } else if c as int == 0x09 {
        seq!['\\', 't']
    } else if c as int == 0x0a {
        seq!['\\', 'n']
    } else if c as int == 0x0c {
        seq!['\\', 'f']
    } else if c as int == 0x0d {
        seq!['\\', 'r']
    } else if (c as int) < 0x20 {
        seq!['\\', 'u', '0', '0', hex_char(c as int / 16), hex_char(c as int % 16)]
    } else {
        seq![c]
    }
}

/// What stands between the quotes of a JSON string literal.
pub open spec fn json_chars(s: Seq<char>) -> Seq<char>
    decreases s.len(),
{
    if s.len() == 0 {
        Seq::empty()
    } else {
        json_char(s[0]) + json_chars(s.drop_first())
    }
}

/// A string as a JSON string literal, quotes included.
pub open spec fn json_string(s: Seq<char>) -> Seq<char> {
    seq!['"'] + (json_chars(s) + seq!['"'])
}

/// `serde_json::to_string` of a `str`: quotes around it, a backslash before
/// quotes and backslashes, the short escapes for backspace, tab, line feed, form
/// feed and carriage return, `\u00xx` with lowercase digits for the other
/// characters below U+0020, and every other character as it is. Encoding a `str`
/// into memory has no way to fail.
#[verifier::external_body]
fn json_of(s: &str) -> (json: String)
    ensures
        json@ == json_string(s@),
{
    serde_json::to_string(s).expect("a string is always serialisable")
}

/// A truth value in JSON.
pub open spec fn json_bool(b: bool) -> Seq<char> {
    if b {
        "true"@
    } else {
        "false"@
    }
}

/// A member that is left out where there is no string.
pub open spec fn json_member(name: Seq<char>, text: Option<Seq<char>>) -> Seq<char> {
    match text {
        Some(t) => name + json_string(t),
        None => Seq::empty(),
    }
}

/// A member that is left out where there is no number.
pub open spec fn json_count(name: Seq<char>, count: Option<u64>) -> Seq<char> {
    match count {
        Some(n) => name + dec(n as nat),
        None => Seq::empty(),
    }
}

/// How a visibility is written.
pub open spec fn visibility_text(visibility: Visibility) -> Seq<char> {
    match visibility {
        Visibility::Public => "public"@,
        Visibility::Hidden => "hidden"@,
    }
}

impl TestOutcomeView {
    /// The JSON object of an outcome.
    pub open spec fn json(self) -> Seq<char> {
        "{\"test_id\":"@ + json_string(self.test_id) + ",\"visibility\":\""@ + visibility_text(
            self.visibility,
        ) + "\",\"verdict\":\""@ + self.verdict.code_text() + "\",\"wall_ms\":"@ + dec(
            self.wall_ms as nat,
        ) + json_count(",\"fuel_consumed\":"@, self.fuel_consumed) + ",\"peak_memory_bytes\":"@
            + dec(self.peak_memory_bytes as nat) + json_member(",\"detail\":"@, self.detail)
            + "}"@
    }
}

/// The JSON objects of some outcomes, with commas between them.
pub open spec fn json_outcomes(tests: Seq<TestOutcomeView>) -> Seq<char>
    decreases tests.len(),
{
    if tests.len() == 0 {
        Seq::empty()
    } else if tests.len() == 1 {
        tests[0].json()
    } else {
        json_outcomes(tests.drop_last()) + ","@ + tests.last().json()
    }
}

impl ResultManifestView {
    /// The part of the encoding before the verdict.
    pub open spec fn json_head(self) -> Seq<char> {
        "{\"protocol_version\":"@ + dec(self.protocol_version as nat) + ",\"job_id\":"@ + json_string(
            self.job_id,
        ) + ",\"trial_package_cid\":"@ + json_string(self.trial_package_cid)
            + ",\"trial_version\":"@ + dec(self.trial_version as nat) + ",\"environment_id\":"@
            + json_string(self.environment_id) + ",\"verdict\":\""@
    }

    /// The part of the encoding between the verdict and the timings.
    pub open spec fn json_middle(self) -> Seq<char> {
        "\",\"tests\":["@ + json_outcomes(self.tests) + "]"@ + json_member(
            ",\"compiler_diagnostics\":"@,
            self.compiler_diagnostics,
        )
    }

    /// The timings.
    pub open spec fn json_timings(self) -> Seq<char> {
        ",\"compile_ms\":"@ + dec(self.compile_ms as nat) + ",\"execution_ms\":"@ + dec(
            self.execution_ms as nat,
        ) + ",\"used_cached_artifact\":"@
    }

    /// The canonical JSON encoding: compact, members in declaration order, and
    /// none for what is missing.
    pub open spec fn json(self) -> Seq<char> {
        self.json_head() + self.verdict.code_text() + self.json_middle() + self.json_timings()
            + json_bool(self.used_cached_artifact) + "}"@
    }

    /// The hash that addresses a manifest.
    pub open spec fn hash(self) -> Seq<char> {
        cid_text(vstd::utf8::encode_utf8(self.json()))
    }

    /// The manifest a submitter may see.
    pub open spec fn redacted(self) -> ResultManifestView {
        ResultManifestView {
            tests: self.tests.map_values(|t: TestOutcomeView| redacted_outcome(t)),
            ..self
        }
    }

    /// The summary a worker reports.
    pub open spec fn summarised(self, worker_id: Seq<char>) -> ResultSummaryView {
        ResultSummaryView {
            protocol_version: PROTOCOL_VERSION,
            worker_id,
            trial_package_cid: self.trial_package_cid,
            verdict: self.verdict,
            result_manifest_hash: self.hash(),
            peak_memory_bytes: peak_memory(self.tests),
            execution_ms: self.execution_ms,
            compile_ms: self.compile_ms,
            used_cached_artifact: self.used_cached_artifact,
        }
    }
}

/// The outcome of a case as a submitter may see it: of a hidden case neither
/// the name nor the reason.
pub open spec fn redacted_outcome(test: TestOutcomeView) -> TestOutcomeView {
    if test.visibility == Visibility::Hidden {
        TestOutcomeView { test_id: "hidden"@, detail: None, ..test }
    } else {
        test
    }
}

/// The largest peak of memory among some outcomes; nothing where there are none.
pub open spec fn peak_memory(tests: Seq<TestOutcomeView>) -> u64
    decreases tests.len(),
{
    if tests.len() == 0 {
        0
    } else {
        let rest = peak_memory(tests.drop_last());
        if tests.last().peak_memory_bytes > rest {
            tests.last().peak_memory_bytes
        } else {
            rest
        }
    }
}

/// What the worker reports to the control plane.
#[derive(Debug, PartialEq, Eq)]
pub struct ResultSummary {
    /// Protocol version of this payload.
    pub protocol_version: u32,
    /// Reporting worker.
    pub worker_id: String,
    /// Immutable Trial package that produced this result.
    pub trial_package_cid: String,
    /// Final verdict.
    pub verdict: Verdict,
    /// Hash of the full manifest in the data plane.
    pub result_manifest_hash: String,
    /// Peak memory across cases, bytes.
    pub peak_memory_bytes: u64,
    /// Total execution time, milliseconds.
    pub execution_ms: u64,
    /// Compilation time, milliseconds.
    pub compile_ms: u64,
    /// Whether a cached artifact was reused. Metrics only; never affects the verdict.
    pub used_cached_artifact: bool,
}

/// What a [`ResultSummary`] says.
#[verifier::ext_equal]
pub struct ResultSummaryView {
    pub protocol_version: u32,
    pub worker_id: Seq<char>,
    pub trial_package_cid: Seq<char>,
    pub verdict: Verdict,
    pub result_manifest_hash: Seq<char>,
    pub peak_memory_bytes: u64,
    pub execution_ms: u64,
    pub compile_ms: u64,
    pub used_cached_artifact: bool,
}

impl View for ResultSummary {
    type V = ResultSummaryView;

    open spec fn view(&self) -> ResultSummaryView {
        ResultSummaryView {
            protocol_version: self.protocol_version,
            worker_id: self.worker_id@,
            trial_package_cid: self.trial_package_cid@,
            verdict: self.verdict,
            result_manifest_hash: self.result_manifest_hash@,
            peak_memory_bytes: self.peak_memory_bytes,
            execution_ms: self.execution_ms,
            compile_ms: self.compile_ms,
            used_cached_artifact: self.used_cached_artifact,
        }
    }
}

impl Clone for ResultSummary {
    fn clone(&self) -> (copy: ResultSummary)
        ensures
            copy@ == self@,
    {
        ResultSummary {
            protocol_version: self.protocol_version,
            worker_id: copy_text(self.worker_id.as_str()),
            trial_package_cid: copy_text(self.trial_package_cid.as_str()),
            verdict: self.verdict,
            result_manifest_hash: copy_text(self.result_manifest_hash.as_str()),
            peak_memory_bytes: self.peak_memory_bytes,
            execution_ms: self.execution_ms,
            compile_ms: self.compile_ms,
            used_cached_artifact: self.used_cached_artifact,
        }
    }
}

impl TestOutcome {
    /// The JSON object of this outcome.
    fn to_json(&self) -> (json: String)
        ensures
            json@ == self@.json(),
    {
        let mut json = "{\"test_id\":".to_owned();
        json.append(json_of(self.test_id.as_str()).as_str());
        json.append(",\"visibility\":\"");
        match self.visibility {
            Visibility::Public => json.append("public"),
            Visibility::Hidden => json.append("hidden"),
        }
        json.append("\",\"verdict\":\"");
        json.append(self.verdict.code());
        json.append("\",\"wall_ms\":");
        push_decimal(&mut json, self.wall_ms);
        let ghost before = json@;
        if let Some(fuel) = self.fuel_consumed {
            json.append(",\"fuel_consumed\":");
            push_decimal(&mut json, fuel);
        }
        assert(json@ == before + json_count(",\"fuel_consumed\":"@, self.fuel_consumed));
        json.append(",\"peak_memory_bytes\":");
        push_decimal(&mut json, self.peak_memory_bytes);
        push_member(&mut json, ",\"detail\":", &self.detail);
        json.append("}");
        json
    }
}

fn push_member(json: &mut String, name: &str, text: &Option<String>)
    ensures
        final(json)@ == old(json)@ + json_member(name@, text_option(*text)),
{
    if let Some(t) = text {
        json.append(name);
        json.append(json_of(t.as_str()).as_str());
    }
    assert(json@ == old(json)@ + json_member(name@, text_option(*text)));
}

impl ResultManifest {
    /// The canonical JSON encoding of this manifest.
    pub fn canonical_json(&self) -> (json: String)
        ensures
            json@ == self@.json(),
    {
        let mut json = "{\"protocol_version\":".to_owned();
        push_decimal(&mut json, self.protocol_version as u64);
        json.append(",\"job_id\":");
        json.append(json_of(self.job_id.as_str()).as_str());
        json.append(",\"trial_package_cid\":");
        json.append(json_of(self.trial_package_cid.as_str()).as_str());
        json.append(",\"trial_version\":");
        push_decimal(&mut json, self.trial_version as u64);
        json.append(",\"environment_id\":");
        json.append(json_of(self.environment_id.as_str()).as_str());
        json.append(",\"verdict\":\"");
        assert(json@ == self@.json_head());
        json.append(self.verdict.code());
        let ghost head = json@;
        let tests = self.tests_json();
        let mut middle = "\",\"tests\":[".to_owned();
        middle.append(tests.as_str());
        middle.append("]");
        push_member(&mut middle, ",\"compiler_diagnostics\":", &self.compiler_diagnostics);
        assert(middle@ == self@.json_middle());
        json.append(middle.as_str());
        let mut timings = ",\"compile_ms\":".to_owned();
        push_decimal(&mut timings, self.compile_ms);
        timings.append(",\"execution_ms\":");
        push_decimal(&mut timings, self.execution_ms);
        timings.append(",\"used_cached_artifact\":");
        assert(timings@ == self@.json_timings());
        json.append(timings.as_str());
        json.append(if self.used_cached_artifact { "true" } else { "false" });
        json.append("}");
        json
    }

    fn tests_json(&self) -> (json: String)
        ensures
            json@ == json_outcomes(self@.tests),
    {
        let ghost views = self@.tests;
        let mut json = String::new();
        let mut i: usize = 0;
        assert(json@ == json_outcomes(views.take(0)));
        while i < self.tests.len()
            invariant
                i <= self.tests@.len(),
                views == outcome_views(self.tests@),
                json@ == json_outcomes(views.take(i as int)),
            decreases self.tests@.len() - i,
        {
            let ghost before = json@;
            let one = self.tests[i].to_json();
            if i > 0 {
                json.append(",");
            }
            json.append(one.as_str());
            proof {
                let next = views.take(i + 1);
                assert(next.drop_last() == views.take(i as int));
                assert(next.last() == self.tests@[i as int]@);
                if i == 0 {
                    assert(before == Seq::<char>::empty());
                    assert(json@ == one@);
                    assert(next[0] == next.last());
                }
                assert(json@ == json_outcomes(next));
            }
            i += 1;
        }
        assert(views.take(i as int) == views);
        json
    }

    /// Canonical hash of this manifest.
    ///
    /// Computed over the canonical JSON encoding, so the control plane can
    /// record a value that later proves which manifest produced a verdict.
    pub fn hash(&self) -> (hash: String)
        ensures
            hash@ == self@.hash(),
            is_cid_text(hash@),
    {
        let json = self.canonical_json();
        cid(json.as_str().as_bytes())
    }

    /// A copy safe to show the submitter.
    ///
    /// Hidden-case details are stripped: a failure message is allowed to say
    /// *that* a hidden case failed, never *why*, because "expected 42, got 41"
    /// leaks the answer.
    pub fn redacted_for_submitter(&self) -> (manifest: ResultManifest)
        ensures
            manifest@ == self@.redacted(),
    {
        let mut tests: Vec<TestOutcome> = Vec::new();
        let ghost views = self@.redacted().tests;
        let mut i: usize = 0;
        while i < self.tests.len()
            invariant
                i <= self.tests@.len(),
                views == self@.redacted().tests,
                outcome_views(tests@) == views.take(i as int),
            decreases self.tests@.len() - i,
        {
            let ghost before = tests@;
            let mut test = self.tests[i].clone();
            if test.visibility == Visibility::Hidden {
                test.test_id = "hidden".to_owned();
                test.detail = None;
            }
            assert(test@ == redacted_outcome(self.tests@[i as int]@));
            tests.push(test);
            assert(outcome_views(tests@) == outcome_views(before).push(test@));
            assert(views[i as int] == test@);
            i += 1;
        }
        assert(views.take(i as int) == views);
        let mut manifest = self.clone();
        manifest.tests = tests;
        manifest
    }

    /// A small summary for the control plane.
    pub fn summary(&self, worker_id: &str) -> (summary: ResultSummary)
        ensures
            summary@ == self@.summarised(worker_id@),
    {
        let ghost views = self@.tests;
        let mut peak: u64 = 0;
        let mut i: usize = 0;
        while i < self.tests.len()
            invariant
                i <= self.tests@.len(),
                views == outcome_views(self.tests@),
                peak == peak_memory(views.take(i as int)),
            decreases self.tests@.len() - i,
        {
            assert(views.take(i + 1).drop_last() == views.take(i as int));
            if self.tests[i].peak_memory_bytes > peak {
                peak = self.tests[i].peak_memory_bytes;
            }
            i += 1;
        }
        assert(views.take(i as int) == views);
        ResultSummary {
            protocol_version: PROTOCOL_VERSION,
            worker_id: copy_text(worker_id),
            trial_package_cid: copy_text(self.trial_package_cid.as_str()),
            verdict: self.verdict,
            result_manifest_hash: self.hash(),
            peak_memory_bytes: peak,
            execution_ms: self.execution_ms,
            compile_ms: self.compile_ms,
            used_cached_artifact: self.used_cached_artifact,
        }
    }
}

// ---------------------------------------------------------------------------
// What manifests promise
// ---------------------------------------------------------------------------

/// Redaction leaves of a hidden case neither name nor reason, keeps every
/// verdict and every public case as it was, and is idempotent.
pub proof fn redaction_hides_names_and_reasons(manifest: ResultManifestView)
    ensures
        manifest.redacted().tests.len() == manifest.tests.len(),
        manifest.redacted().verdict == manifest.verdict,
        manifest.redacted().redacted() == manifest.redacted(),
        forall|i: int|
            #![trigger manifest.redacted().tests[i]]
            0 <= i < manifest.tests.len() ==> {
                let before = manifest.tests[i];
                let after = manifest.redacted().tests[i];
                &&& after.verdict == before.verdict
                &&& before.visibility == Visibility::Public ==> after == before
                &&& before.visibility == Visibility::Hidden ==> after.test_id == "hidden"@
                    && after.detail is None
            },
{
    let once = manifest.redacted();
    assert(once.redacted().tests == once.tests);
}

/// A redacted manifest does not depend on the names and reasons of hidden
/// cases: manifests that differ in those alone are redacted to the same.
pub proof fn redaction_reveals_nothing_hidden(a: ResultManifestView, b: ResultManifestView)
    requires
        (ResultManifestView { tests: b.tests, ..a }) == b,
        a.tests.len() == b.tests.len(),
        forall|i: int|
            0 <= i < a.tests.len() ==> {
                ||| #[trigger] a.tests[i] == b.tests[i]
                ||| a.tests[i].visibility == Visibility::Hidden && (TestOutcomeView {
                    test_id: b.tests[i].test_id,
                    detail: b.tests[i].detail,
                    ..a.tests[i]
                }) == b.tests[i]
            },
    ensures
        a.redacted() == b.redacted(),
        a.redacted().hash() == b.redacted().hash(),
{
    assert forall|i: int| 0 <= i < a.tests.len() implies redacted_outcome(#[trigger] a.tests[i])
        == redacted_outcome(b.tests[i]) by {}
    assert(a.redacted().tests == b.redacted().tests);
}

/// The peak that is reported is the largest among the cases.
pub proof fn peak_memory_is_the_largest(tests: Seq<TestOutcomeView>)
    ensures
        forall|i: int|
            0 <= i < tests.len() ==> #[trigger] tests[i].peak_memory_bytes <= peak_memory(tests),
        tests.len() > 0 ==> exists|i: int|
            0 <= i < tests.len() && #[trigger] tests[i].peak_memory_bytes == peak_memory(tests),
    decreases tests.len(),
{
    if tests.len() > 0 {
        let init = tests.drop_last();
        peak_memory_is_the_largest(init);
        assert forall|i: int| 0 <= i < tests.len() implies #[trigger] tests[i].peak_memory_bytes
            <= peak_memory(tests) by {
            if i < init.len() {
                assert(init[i] == tests[i]);
            }
        }
        if tests.last().peak_memory_bytes >= peak_memory(init) {
            assert(tests[tests.len() - 1].peak_memory_bytes == peak_memory(tests));
        } else {
            assert(init.len() > 0);
            let i = choose|i: int|
                0 <= i < init.len() && #[trigger] init[i].peak_memory_bytes == peak_memory(init);
            assert(tests[i] == init[i]);
        }
    }
}

// ---------------------------------------------------------------------------
// What is said, in full
// ---------------------------------------------------------------------------

/// Why a job is refused: the first thing that a worker must not accept, its
/// protocol before what is hidden, the backend and the limits.
pub proof fn what_a_refused_job_is_told(job: JobSpecView, worker_trust: TrustClass)
    ensures
        job.protocol_version != 1 ==> job.refusal(worker_trust) == Some(
            "job speaks protocol v"@ + dec(job.protocol_version as nat)
                + ", this worker speaks v1"@,
        ),
        ({
            let spoken = job.protocol_version == 1;
            let leaks = job.includes_hidden_tests && worker_trust != TrustClass::Trusted;
            &&& spoken && leaks && worker_trust == TrustClass::Volunteer ==> job.refusal(
                worker_trust,
            ) == Some("refusing a job with hidden tests as a "@ + "Volunteer"@ + " worker"@)
            &&& spoken && leaks && worker_trust == TrustClass::Community ==> job.refusal(
                worker_trust,
            ) == Some("refusing a job with hidden tests as a "@ + "Community"@ + " worker"@)
            &&& spoken && !leaks && job.backend == Backend::Native ==> job.refusal(worker_trust)
                == Some("the native backend is EXPERIMENTAL and not qualified for submissions"@)
            &&& spoken && !leaks && job.backend == Backend::Wasmtime && !job.limits.bounded()
                ==> job.refusal(worker_trust) == Some("invalid limits: "@ + job.limits.complaint())
        }),
{
}

/// Redaction changes the names of hidden cases and takes their reasons, and
/// leaves everything else as it is, of those cases and of the manifest.
pub proof fn redaction_changes_nothing_else(manifest: ResultManifestView)
    ensures
        ({
            let shown = manifest.redacted();
            &&& shown.protocol_version == manifest.protocol_version
            &&& shown.job_id == manifest.job_id
            &&& shown.trial_package_cid == manifest.trial_package_cid
            &&& shown.trial_version == manifest.trial_version
            &&& shown.environment_id == manifest.environment_id
            &&& shown.verdict == manifest.verdict
            &&& shown.compiler_diagnostics == manifest.compiler_diagnostics
            &&& shown.compile_ms == manifest.compile_ms
            &&& shown.execution_ms == manifest.execution_ms
            &&& shown.used_cached_artifact == manifest.used_cached_artifact
            &&& shown.tests.len() == manifest.tests.len()
            &&& forall|i: int|
                0 <= i < manifest.tests.len() ==> {
                    let after = #[trigger] shown.tests[i];
                    let before = manifest.tests[i];
                    &&& after.visibility == before.visibility
                    &&& after.verdict == before.verdict
                    &&& after.wall_ms == before.wall_ms
                    &&& after.fuel_consumed == before.fuel_consumed
                    &&& after.peak_memory_bytes == before.peak_memory_bytes
                    &&& before.visibility == Visibility::Public ==> after.test_id == before.test_id
                        && after.detail == before.detail
                    &&& before.visibility == Visibility::Hidden ==> after.test_id == seq![
                        'h',
                        'i',
                        'd',
                        'd',
                        'e',
                        'n',
                    ] && after.detail is None
                }
        }),
{
    reveal_strlit("hidden");
    assert("hidden"@ == seq!['h', 'i', 'd', 'd', 'e', 'n']);
}

/// A summary says who reports, and of the manifest its package, verdict, times,
/// whether a cached artifact was used, the largest memory of a case, and the
/// BLAKE3 CID of its canonical bytes.
pub proof fn summaries_say_what_the_manifest_says(
    manifest: ResultManifestView,
    worker_id: Seq<char>,
)
    ensures
        ({
            let summary = manifest.summarised(worker_id);
            &&& summary.protocol_version == 1
            &&& summary.worker_id == worker_id
            &&& summary.trial_package_cid == manifest.trial_package_cid
            &&& summary.verdict == manifest.verdict
            &&& summary.result_manifest_hash == "b3:"@ + crate::digest::blake3_hex(
                vstd::utf8::encode_utf8(manifest.json()),
            )
            &&& forall|i: int|
                0 <= i < manifest.tests.len() ==> #[trigger] manifest.tests[i].peak_memory_bytes
                    <= summary.peak_memory_bytes
            &&& manifest.tests.len() == 0 ==> summary.peak_memory_bytes == 0
            &&& manifest.tests.len() > 0 ==> exists|i: int|
                0 <= i < manifest.tests.len() && #[trigger] manifest.tests[i].peak_memory_bytes
                    == summary.peak_memory_bytes
            &&& summary.execution_ms == manifest.execution_ms
            &&& summary.compile_ms == manifest.compile_ms
            &&& summary.used_cached_artifact == manifest.used_cached_artifact
        }),
{
    peak_memory_is_the_largest(manifest.tests);
}

/// Inside a string literal, quotes, backslashes and what is below a space are
/// escaped, and everything else stands for itself. An escape begins with a
/// backslash; one without a short form is `u` and four hexadecimal digits.
pub proof fn what_is_escaped_in_a_string(c: char)
    ensures
        ({
            let shown = json_char(c);
            let n = c as int;
            &&& n >= 0x20 && c != '"' && c != '\\' ==> shown == seq![c]
            &&& c == '"' || c == '\\' ==> shown == seq!['\\', c]
            &&& n == 8 ==> shown == seq!['\\', 'b']
            &&& n == 9 ==> shown == seq!['\\', 't']
            &&& n == 10 ==> shown == seq!['\\', 'n']
            &&& n == 12 ==> shown == seq!['\\', 'f']
            &&& n == 13 ==> shown == seq!['\\', 'r']
            &&& n < 8 || n == 11 || (13 < n && n < 0x20) ==> {
                &&& shown.len() == 6
                &&& shown[0] == '\\' && shown[1] == 'u' && shown[2] == '0' && shown[3] == '0'
                &&& shown[4] as int == '0' as int + n / 16
                &&& n % 16 < 10 ==> shown[5] as int == '0' as int + n % 16
                &&& n % 16 >= 10 ==> shown[5] as int == 'a' as int + (n % 16 - 10)
            }
        }),
{
}

/// A string literal is its characters, each as it is shown, between quotes.
pub proof fn string_literals_grow_by_a_character(s: Seq<char>, c: char)
    ensures
        json_string(Seq::empty()) == seq!['"', '"'],
        json_string(seq![c] + s) == seq!['"'] + json_char(c) + json_string(s).skip(1),
{
    assert((seq![c] + s).drop_first() == s);
    assert(json_chars(Seq::<char>::empty()) == Seq::<char>::empty());
    assert(json_string(Seq::empty()) == seq!['"', '"']);
    assert(json_string(s).skip(1) == json_chars(s) + seq!['"']);
    assert(json_string(seq![c] + s) == seq!['"'] + json_char(c) + json_string(s).skip(1));
}

/// Jobs, outcomes, manifests and summaries say what they hold.
pub proof fn records_say_what_they_hold(
    job: JobSpec,
    outcome: TestOutcome,
    manifest: ResultManifest,
    summary: ResultSummary,
)
    ensures
        job@.protocol_version == job.protocol_version,
        job@.job_id == job.job_id@,
        job@.source_cid == job.source_cid@,
        job@.trial_package_cid == job.trial_package_cid@,
        job@.trial_version == job.trial_version,
        job@.environment_id == job.environment_id@,
        job@.limits == job.limits,
        job@.backend == job.backend,
        job@.includes_hidden_tests == job.includes_hidden_tests,
        outcome@.test_id == outcome.test_id@,
        outcome@.visibility == outcome.visibility,
        outcome@.verdict == outcome.verdict,
        outcome@.wall_ms == outcome.wall_ms,
        outcome@.fuel_consumed == outcome.fuel_consumed,
        outcome@.peak_memory_bytes == outcome.peak_memory_bytes,
        outcome.detail matches Some(detail) ==> outcome@.detail == Some(detail@),
        outcome.detail is None ==> outcome@.detail is None,
        manifest@.protocol_version == manifest.protocol_version,
        manifest@.job_id == manifest.job_id@,
        manifest@.trial_package_cid == manifest.trial_package_cid@,
        manifest@.trial_version == manifest.trial_version,
        manifest@.environment_id == manifest.environment_id@,
        manifest@.verdict == manifest.verdict,
        manifest@.tests.len() == manifest.tests@.len(),
        forall|i: int|
            0 <= i < manifest.tests@.len() ==> #[trigger] manifest@.tests[i]
                == manifest.tests@[i]@,
        manifest.compiler_diagnostics matches Some(said) ==> manifest@.compiler_diagnostics == Some(
            said@,
        ),
        manifest.compiler_diagnostics is None ==> manifest@.compiler_diagnostics is None,
        manifest@.compile_ms == manifest.compile_ms,
        manifest@.execution_ms == manifest.execution_ms,
        manifest@.used_cached_artifact == manifest.used_cached_artifact,
        summary@.protocol_version == summary.protocol_version,
        summary@.worker_id == summary.worker_id@,
        summary@.trial_package_cid == summary.trial_package_cid@,
        summary@.verdict == summary.verdict,
        summary@.result_manifest_hash == summary.result_manifest_hash@,
        summary@.peak_memory_bytes == summary.peak_memory_bytes,
        summary@.execution_ms == summary.execution_ms,
        summary@.compile_ms == summary.compile_ms,
        summary@.used_cached_artifact == summary.used_cached_artifact,
{
}

/// A class goes by its name in messages.
pub proof fn names_of_trust_classes(class: TrustClass)
    ensures
        class == TrustClass::Volunteer ==> class.name_text() == "Volunteer"@,
        class == TrustClass::Community ==> class.name_text() == "Community"@,
        class == TrustClass::Trusted ==> class.name_text() == "Trusted"@,
{
}

} // verus!
