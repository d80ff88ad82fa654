//! Grading: turn a compiled module and a Trial package into a verdict.
//!
//! # Compile once, run many
//!
//! Compilation is by far the most expensive step, and it does not depend on the
//! test case. The grader takes an **already compiled** module and runs every
//! case against it. Compilation itself is the worker's job, because it is a
//! separate security domain: `build.rs` and procedural macros mean compiling
//! untrusted Rust is running untrusted code.
//!
//! # Rules encoded here
//!
//! * A system fault on **any** case makes the whole submission a system fault.
//!   Reporting `WA` because one case could not be executed would be a lie.
//! * `fail_fast` stops early, but only on a *user* fault. A system fault always
//!   stops immediately, because continuing would produce a misleading result.
//! * A group with `fail_fast` of its own is not run past its first failure; the
//!   other cases still are.
//! * Public cases run before hidden ones, so a failing submission gets the most
//!   actionable feedback first.
//! * A backend that is not qualified for untrusted code never sees user code.
//! * An exact comparison is one of bytes: output that is not UTF-8 never equals
//!   the expected text, though it may read the same once it is decoded.

use vstd::prelude::*;

use crate::backend::{
    ensure_qualified, unqualified_error, ExecutionBackend, ExecutionOutcome, ExecutionOutcomeView,
    ExecutionRequest, ExecutionRequestView, TerminationReason, TerminationReasonView,
};
use crate::checker::{
    check, check_result, difference_detail, first_difference, float_pairs, reading_views, readings_present, token_or_nothing,
    FloatReading, FloatReadingView, Match, MatchView,
};
use crate::error::{judged, JudgeError, JudgeErrorView};
use crate::limits::LimitViolation;
use crate::problem_format::{
    case_ref_views, group_views, ordered, text_option, Checker, CheckerView, Group, GroupView,
    TestCase, TestCaseView, TrialPackage, TrialPackageView, Visibility,
};
use crate::protocol::{
    copy_option, outcome_views, redacted_outcome, ResultManifest, ResultManifestView, TestOutcome,
    TestOutcomeView, PROTOCOL_VERSION,
};
use crate::text::{copy_text, dec_int, decimal_int, joined, lossy_text, same_bytes, same_text, words};
use crate::verdict::{aggregate, Verdict, VerdictClass};

verus! {

/// What the grader was given.
#[derive(Debug)]
pub struct GradeRequest<'a> {
    /// Job identifier, recorded in the manifest.
    pub job_id: &'a str,
    /// Immutable Trial package identifier, recorded in the manifest.
    pub trial_package_cid: &'a str,
    /// The compiled module.
    pub module: &'a [u8],
    /// The Trial package. Hidden cases must already have been removed if this
    /// worker is not entitled to them.
    pub package: &'a TrialPackage,
    /// Raw compiler diagnostics, preserved verbatim.
    pub compiler_diagnostics: Option<String>,
    /// Compilation time, milliseconds.
    pub compile_ms: u64,
    /// Whether a cached artifact was reused. Metrics only.
    pub used_cached_artifact: bool,
}

/// What a [`GradeRequest`] says.
#[verifier::ext_equal]
pub struct GradeRequestView {
    pub job_id: Seq<char>,
    pub trial_package_cid: Seq<char>,
    pub module: Seq<u8>,
    pub package: TrialPackageView,
    pub compiler_diagnostics: Option<Seq<char>>,
    pub compile_ms: u64,
    pub used_cached_artifact: bool,
}

impl<'a> View for GradeRequest<'a> {
    type V = GradeRequestView;

    open spec fn view(&self) -> GradeRequestView {
        GradeRequestView {
            job_id: self.job_id@,
            trial_package_cid: self.trial_package_cid@,
            module: self.module@,
            package: self.package@,
            compiler_diagnostics: text_option(self.compiler_diagnostics),
            compile_ms: self.compile_ms,
            used_cached_artifact: self.used_cached_artifact,
        }
    }
}

impl<'a> Clone for GradeRequest<'a> {
    fn clone(&self) -> (copy: GradeRequest<'a>)
        ensures
            copy@ == self@,
    {
        GradeRequest {
            job_id: self.job_id,
            trial_package_cid: self.trial_package_cid,
            module: self.module,
            package: self.package,
            compiler_diagnostics: copy_option(&self.compiler_diagnostics),
            compile_ms: self.compile_ms,
            used_cached_artifact: self.used_cached_artifact,
        }
    }
}

// ---------------------------------------------------------------------------
// One case
// ---------------------------------------------------------------------------

/// What running one case gave: what the backend returned, and how the values of
/// its output read as numbers, where the checker compares numbers.
#[verifier::ext_equal]
pub struct CaseRunView {
    pub result: Result<ExecutionOutcomeView, JudgeErrorView>,
    pub readings: Seq<FloatReadingView>,
}

/// A submitter-safe explanation of how a program ended, if it did not end well.
pub open spec fn description(reason: TerminationReasonView) -> Option<Seq<char>> {
    match reason {
        TerminationReasonView::Exited { code } => if code == 0 {
            None
        } else {
            Some("the program exited with code "@ + dec_int(code as int))
        },
        TerminationReasonView::Trapped { detail } => Some("the program aborted: "@ + detail),
        TerminationReasonView::LimitExceeded { violation } => Some(
            match violation {
                LimitViolation::Wall => "the program ran longer than the time limit"@,
                LimitViolation::Fuel => "the program did more work than the limit allows"@,
                LimitViolation::Memory =>
                    "the program tried to use more memory than the limit allows"@,
                LimitViolation::Output => "the program printed more than the output limit allows"@,
            },
        ),
    }
}

/// What is recorded of a case.
pub open spec fn outcome_of(
    test: TestCaseView,
    ran: ExecutionOutcomeView,
    verdict: Verdict,
    detail: Option<Seq<char>>,
) -> TestOutcomeView {
    TestOutcomeView {
        test_id: test.id,
        visibility: test.visibility,
        verdict,
        wall_ms: ran.wall_ms,
        fuel_consumed: ran.fuel_consumed,
        peak_memory_bytes: ran.peak_memory_bytes,
        detail,
    }
}

/// Whether what a program printed matches what was expected of it. Bytes are
/// compared where the comparison is exact, and the text that they stand for where
/// it is not.
pub open spec fn output_match(
    checker: CheckerView,
    expected: Seq<char>,
    stdout: Seq<u8>,
    readings: Seq<FloatReadingView>,
) -> Result<MatchView, JudgeErrorView> {
    let wanted = vstd::utf8::encode_utf8(expected);
    if !(checker is Exact) {
        check_result(checker, expected, lossy_text(stdout), readings)
    } else if stdout == wanted {
        Ok(MatchView::Accepted)
    } else if lossy_text(stdout) == expected {
        Ok(MatchView::Rejected { detail: difference_detail(wanted, stdout) })
    } else {
        Ok(
            MatchView::Rejected {
                detail: difference_detail(wanted, vstd::utf8::encode_utf8(lossy_text(stdout))),
            },
        )
    }
}

/// The judgement of a case: how the program ended, and where it ended well
/// whether its output matches.
pub open spec fn case_judgement(
    checker: CheckerView,
    test: TestCaseView,
    run: CaseRunView,
) -> Result<TestOutcomeView, JudgeErrorView> {
    match run.result {
        Err(error) => Err(error),
        Ok(ran) => match ran.termination.verdict() {
            Some(verdict) => Ok(outcome_of(test, ran, verdict, description(ran.termination))),
            None => match output_match(checker, test.expected_stdout, ran.stdout, run.readings) {
                Err(error) => Err(error),
                Ok(MatchView::Accepted) => Ok(outcome_of(test, ran, Verdict::Accepted, None)),
                Ok(MatchView::Rejected { detail }) => Ok(
                    outcome_of(test, ran, Verdict::WrongAnswer, Some(detail)),
                ),
            },
        },
    }
}

/// Whether a case is the last one to run: nothing after a system fault would
/// mean anything, and a package may ask to stop at the first failure.
pub open spec fn stops(fail_fast: bool, verdict: Verdict) -> bool {
    verdict.class_of() == VerdictClass::SystemFault || (fail_fast && verdict != Verdict::Accepted)
}

/// Turn a non-clean termination into a submitter-safe explanation.
fn describe(reason: &TerminationReason) -> (detail: Option<String>)
    ensures
        text_option(detail) == description(reason@),
{
    match reason {
        TerminationReason::Exited { code } => {
            if *code == 0 {
                None
            } else {
                Some(joined("the program exited with code ", decimal_int(*code).as_str()))
            }
        },
        TerminationReason::Trapped { detail } => Some(
            joined("the program aborted: ", detail.as_str()),
        ),
        TerminationReason::LimitExceeded { violation } => Some(
            match violation {
                LimitViolation::Wall => "the program ran longer than the time limit".to_owned(),
                LimitViolation::Fuel =>
                    "the program did more work than the limit allows".to_owned(),
                LimitViolation::Memory =>
                    "the program tried to use more memory than the limit allows".to_owned(),
                LimitViolation::Output =>
                    "the program printed more than the output limit allows".to_owned(),
            },
        ),
    }
}

/// Compare what a program printed with what was expected of it.
fn check_output(
    checker: &Checker,
    expected: &str,
    ran: &ExecutionOutcome,
    readings: &Vec<FloatReading>,
) -> (result: Result<Match, JudgeError>)
    requires
        readings_present(checker@, expected@, readings@.len()),
    ensures
        judged(result) == output_match(
            checker@,
            expected@,
            ran@.stdout,
            reading_views(readings@),
        ),
{
    let output = ran.stdout_lossy();
    if let Checker::Exact = checker {
        let wanted = expected.as_bytes();
        let got = ran.stdout.as_slice();
        if same_bytes(wanted, got) {
            return Ok(Match::Accepted);
        }
        if same_text(expected, output.as_str()) {
            return Ok(Match::Rejected { detail: first_difference(wanted, got) });
        }
    }
    check(checker, expected, output.as_str(), readings)
}

/// Judge a case from what running it gave.
///
/// `readings` holds what [`crate::checker::check`] needs where the program
/// ended well and the checker compares numbers.
pub fn judge_case(
    checker: &Checker,
    test: &TestCase,
    ran: &ExecutionOutcome,
    readings: &Vec<FloatReading>,
) -> (result: Result<TestOutcome, JudgeError>)
    requires
        ran@.termination.verdict() is None ==> readings_present(
            checker@,
            test@.expected_stdout,
            readings@.len(),
        ),
    ensures
        judged(result) == case_judgement(
            checker@,
            test@,
            (CaseRunView { result: Ok(ran@), readings: reading_views(readings@) }),
        ),
{
    let (verdict, detail) = match ran.termination_verdict() {
        Some(verdict) => (verdict, describe(&ran.termination)),
        None => {
            match check_output(checker, test.expected_stdout.as_str(), ran, readings) {
                Err(error) => {
                    return Err(error);
                },
                Ok(Match::Accepted) => (Verdict::Accepted, None),
                Ok(Match::Rejected { detail }) => (Verdict::WrongAnswer, Some(detail)),
            }
        },
    };
    Ok(
        TestOutcome {
            test_id: copy_text(test.id.as_str()),
            visibility: test.visibility,
            verdict,
            wall_ms: ran.wall_ms,
            fuel_consumed: ran.fuel_consumed,
            peak_memory_bytes: ran.peak_memory_bytes,
            detail,
        },
    )
}

// ---------------------------------------------------------------------------
// All cases
// ---------------------------------------------------------------------------

/// Whether a group is one that stops at its first failure.
pub open spec fn group_fails_fast(groups: Seq<GroupView>, name: Seq<char>) -> bool {
    exists|k: int| 0 <= k < groups.len() && #[trigger] groups[k].name == name && groups[k].fail_fast
}

/// Whether a case was judged and not accepted.
pub open spec fn failed(package: TrialPackageView, test: TestCaseView, run: CaseRunView) -> bool {
    case_judgement(package.checker, test, run) matches Ok(outcome) && outcome.verdict
        != Verdict::Accepted
}

/// Whether one of the first `n` cases belongs to a group and failed.
pub open spec fn group_failed(
    package: TrialPackageView,
    runs: Seq<CaseRunView>,
    n: int,
    name: Seq<char>,
) -> bool {
    exists|j: int|
        0 <= j < n && ordered(package.tests)[j].group == Some(name) && #[trigger] failed(
            package,
            ordered(package.tests)[j],
            runs[j],
        )
}

/// Whether the `i`-th case is left out: its group stops at its first failure,
/// and a case of it has failed before. What a case that is left out itself
/// would have given does not matter, because one before it has failed too.
pub open spec fn skipped(package: TrialPackageView, runs: Seq<CaseRunView>, i: int) -> bool {
    match ordered(package.tests)[i].group {
        Some(name) => group_fails_fast(package.groups, name) && group_failed(
            package,
            runs,
            i,
            name,
        ),
        None => false,
    }
}

/// What is recorded of the cases from the `i`-th on.
pub open spec fn judged_cases(
    package: TrialPackageView,
    runs: Seq<CaseRunView>,
    i: int,
) -> Result<Seq<TestOutcomeView>, JudgeErrorView>
    decreases package.tests.len() - i,
{
    let tests = ordered(package.tests);
    if i >= package.tests.len() {
        Ok(seq![])
    } else if skipped(package, runs, i) {
        judged_cases(package, runs, i + 1)
    } else {
        match case_judgement(package.checker, tests[i], runs[i]) {
            Err(error) => Err(error),
            Ok(outcome) => if stops(package.fail_fast, outcome.verdict) {
                Ok(seq![outcome])
            } else {
                match judged_cases(package, runs, i + 1) {
                    Err(error) => Err(error),
                    Ok(rest) => Ok(seq![outcome] + rest),
                }
            },
        }
    }
}

/// Whether a case was judged and the next one is run.
pub open spec fn goes_on(package: TrialPackageView, test: TestCaseView, run: CaseRunView) -> bool {
    match case_judgement(package.checker, test, run) {
        Ok(outcome) => !stops(package.fail_fast, outcome.verdict),
        Err(_) => false,
    }
}

/// Whether grading gets to the `i`-th case: every case before it was left out,
/// or was judged and did not stop the grading.
pub open spec fn gets_to(package: TrialPackageView, runs: Seq<CaseRunView>, i: int) -> bool {
    forall|j: int|
        0 <= j < i ==> skipped(package, runs, j) || #[trigger] goes_on(
            package,
            ordered(package.tests)[j],
            runs[j],
        )
}

/// Whether the `i`-th case is run: grading gets to it and does not leave it out.
pub open spec fn reached(package: TrialPackageView, runs: Seq<CaseRunView>, i: int) -> bool {
    gets_to(package, runs, i) && !skipped(package, runs, i)
}

/// Which cases from the `i`-th on are run, where grading gets to that one.
pub open spec fn played(package: TrialPackageView, runs: Seq<CaseRunView>, i: int) -> Seq<int>
    decreases package.tests.len() - i,
{
    if i >= package.tests.len() {
        seq![]
    } else if skipped(package, runs, i) {
        played(package, runs, i + 1)
    } else if goes_on(package, ordered(package.tests)[i], runs[i]) {
        seq![i] + played(package, runs, i + 1)
    } else {
        seq![i]
    }
}

/// The verdicts of some outcomes.
pub open spec fn verdicts(tests: Seq<TestOutcomeView>) -> Seq<Verdict> {
    tests.map_values(|t: TestOutcomeView| t.verdict)
}

/// How long some cases ran in all.
pub open spec fn wall_sum(tests: Seq<TestOutcomeView>) -> nat
    decreases tests.len(),
{
    if tests.len() == 0 {
        0
    } else {
        wall_sum(tests.drop_last()) + tests.last().wall_ms as nat
    }
}

/// The same, as far as it can be counted.
pub open spec fn wall_total(tests: Seq<TestOutcomeView>) -> u64 {
    if wall_sum(tests) > u64::MAX {
        u64::MAX
    } else {
        wall_sum(tests) as u64
    }
}

/// The manifest of a submission whose cases have been judged.
pub open spec fn graded_manifest(
    request: GradeRequestView,
    tests: Seq<TestOutcomeView>,
) -> ResultManifestView {
    ResultManifestView {
        protocol_version: PROTOCOL_VERSION,
        job_id: request.job_id,
        trial_package_cid: request.trial_package_cid,
        trial_version: request.package.version,
        environment_id: request.package.environment.id,
        verdict: aggregate(verdicts(tests)),
        tests,
        compiler_diagnostics: request.compiler_diagnostics,
        compile_ms: request.compile_ms,
        execution_ms: wall_total(tests),
        used_cached_artifact: request.used_cached_artifact,
    }
}

/// What comes of grading a submission with a backend that is qualified, given
/// what running each case gives. Runs that are not reached do not matter.
pub open spec fn graded(request: GradeRequestView, runs: Seq<CaseRunView>) -> Result<
    ResultManifestView,
    JudgeErrorView,
> {
    match request.package.fault() {
        Some(why) => Err(JudgeErrorView::MalformedPackage(why)),
        None => match judged_cases(request.package, runs, 0) {
            Err(error) => Err(error),
            Ok(tests) => Ok(graded_manifest(request, tests)),
        },
    }
}

/// What a backend is asked to run for a case.
pub open spec fn case_request(request: GradeRequestView, test: TestCaseView) -> ExecutionRequestView {
    ExecutionRequestView {
        module: request.module,
        stdin: vstd::utf8::encode_utf8(test.stdin),
        args: test.args,
        limits: request.package.limits_of(test),
    }
}

/// Whether a reading is one that `read` may give of two tokens.
pub open spec fn may_read<F: Fn(String, String, u64, u64) -> FloatReading>(
    read: F,
    want: Seq<char>,
    got: Seq<char>,
    absolute: u64,
    relative: u64,
    reading: FloatReadingView,
) -> bool {
    exists|w: String, g: String, r: FloatReading|
        #![trigger call_ensures(read, (w, g, absolute, relative), r)]
        w@ == want && g@ == got && r@ == reading && call_ensures(
            read,
            (w, g, absolute, relative),
            r,
        )
}

/// Whether readings are ones that `read` may give of what a comparison looks
/// at: every expected value with its counterpart, where values are compared, and
/// nothing otherwise.
pub open spec fn may_read_all<F: Fn(String, String, u64, u64) -> FloatReading>(
    read: F,
    checker: CheckerView,
    expected: Seq<char>,
    actual: Seq<char>,
    readings: Seq<FloatReadingView>,
) -> bool {
    match checker {
        CheckerView::Float { absolute, relative } => {
            let want = words(expected);
            let got = words(actual);
            &&& readings.len() == want.len()
            &&& forall|i: int|
                0 <= i < readings.len() ==> may_read(
                    read,
                    want[i],
                    token_or_nothing(got, i),
                    absolute,
                    relative,
                    #[trigger] readings[i],
                )
        },
        _ => readings.len() == 0,
    }
}

/// Whether a run is one that a backend and a way of reading numbers may give.
pub open spec fn may_run<B: ExecutionBackend, F: Fn(String, String, u64, u64) -> FloatReading>(
    backend: &B,
    read: F,
    request: GradeRequestView,
    test: TestCaseView,
    run: CaseRunView,
) -> bool {
    &&& backend.may_yield(case_request(request, test), run.result)
    &&& run.result matches Ok(ran) ==> (ran.termination.verdict() is None ==> may_read_all(
        read,
        request.package.checker,
        test.expected_stdout,
        lossy_text(ran.stdout),
        run.readings,
    ))
}

/// Read the values that a comparison looks at.
fn read_values<F: Fn(String, String, u64, u64) -> FloatReading>(
    read: &F,
    checker: &Checker,
    expected: &str,
    actual: &str,
) -> (readings: Vec<FloatReading>)
    requires
        forall|w: String, g: String, a: u64, r: u64| call_requires(*read, (w, g, a, r)),
    ensures
        may_read_all(*read, checker@, expected@, actual@, reading_views(readings@)),
        readings_present(checker@, expected@, readings@.len()),
{
    let mut readings: Vec<FloatReading> = Vec::new();
    if let Checker::Float { absolute, relative } = checker {
        let pairs = float_pairs(expected, actual);
        let ghost want = words(expected@);
        let ghost got = words(actual@);
        let mut i: usize = 0;
        while i < pairs.len()
            invariant
                forall|w: String, g: String, a: u64, r: u64| call_requires(*read, (w, g, a, r)),
                i <= pairs@.len(),
                forall|j: int|
                    0 <= j < pairs@.len() ==> (#[trigger] pairs@[j]).0@ == want[j] && pairs@[j].1@
                        == token_or_nothing(got, j),
                readings@.len() == i,
                forall|j: int|
                    0 <= j < i ==> may_read(
                        *read,
                        want[j],
                        token_or_nothing(got, j),
                        *absolute,
                        *relative,
                        #[trigger] reading_views(readings@)[j],
                    ),
            decreases pairs@.len() - i,
        {
            let w = copy_text(pairs[i].0.as_str());
            let g = copy_text(pairs[i].1.as_str());
            let ghost before = readings@;
            let one = read(w, g, *absolute, *relative);
            readings.push(one);
            proof {
                assert(call_ensures(*read, (w, g, *absolute, *relative), one));
                assert(may_read(
                    *read,
                    want[i as int],
                    token_or_nothing(got, i as int),
                    *absolute,
                    *relative,
                    one@,
                ));
                let views = reading_views(readings@);
                assert forall|j: int| 0 <= j < i + 1 implies may_read(
                    *read,
                    want[j],
                    token_or_nothing(got, j),
                    *absolute,
                    *relative,
                    #[trigger] views[j],
                ) by {
                    if j < i {
                        assert(views[j] == reading_views(before)[j]);
                    } else {
                        assert(views[j] == one@);
                    }
                }
            }
            i += 1;
        }
    }
    readings
}

/// Whether a list holds a name.
fn holds(names: &Vec<String>, name: &str) -> (yes: bool)
    ensures
        yes == exists|k: int| 0 <= k < names@.len() && #[trigger] names@[k]@ == name@,
{
    let mut k: usize = 0;
    while k < names.len()
        invariant
            k <= names@.len(),
            forall|m: int| 0 <= m < k ==> #[trigger] names@[m]@ != name@,
        decreases names@.len() - k,
    {
        if same_text(names[k].as_str(), name) {
            return true;
        }
        k += 1;
    }
    false
}

/// Whether a group is one that stops at its first failure.
fn stops_at_failure(groups: &Vec<Group>, name: &str) -> (yes: bool)
    ensures
        yes == group_fails_fast(group_views(groups@), name@),
{
    let ghost views = group_views(groups@);
    let mut k: usize = 0;
    while k < groups.len()
        invariant
            k <= groups@.len(),
            views == group_views(groups@),
            forall|m: int|
                0 <= m < k ==> !(#[trigger] views[m].name == name@ && views[m].fail_fast),
        decreases groups@.len() - k,
    {
        assert(views[k as int] == groups@[k as int]@);
        if groups[k].fail_fast && same_text(groups[k].name.as_str(), name) {
            assert(views[k as int].name == name@);
            return true;
        }
        k += 1;
    }
    false
}

/// Grade a compiled submission.
///
/// Returns a full [`ResultManifest`]. A `JudgeError` is returned only when the
/// judge itself could not proceed; a misbehaving submission is a manifest with
/// a user-fault verdict.
///
/// `read` reads a pair of tokens, expected and actual, as numbers, given the
/// absolute and the relative tolerance. It is asked only where the checker
/// compares numbers.
#[verifier::loop_isolation(false)]
#[verifier::rlimit(60)]
pub fn grade<B: ExecutionBackend, F: Fn(String, String, u64, u64) -> FloatReading>(
    backend: &B,
    request: GradeRequest<'_>,
    read: F,
) -> (result: Result<ResultManifest, JudgeError>)
    requires
        forall|w: String, g: String, a: u64, r: u64| call_requires(read, (w, g, a, r)),
    ensures
        !backend.qualified() ==> judged(result) == Err::<ResultManifestView, JudgeErrorView>(
            unqualified_error(backend.known_as()),
        ),
        backend.qualified() ==> exists|runs: Seq<CaseRunView>|
            {
                &&& runs.len() == request@.package.tests.len()
                &&& judged(result) == #[trigger] graded(request@, runs)
                &&& request@.package.well_formed() ==> forall|i: int|
                    #![trigger runs[i]]
                    0 <= i < runs.len() && reached(request@.package, runs, i) ==> may_run(
                        backend,
                        read,
                        request@,
                        ordered(request@.package.tests)[i],
                        runs[i],
                    )
            },
{
    let ghost asked = request@;
    let ghost tests = ordered(asked.package.tests);
    proof {
        crate::problem_format::ordered_tests_are_sorted(asked.package.tests);
        crate::problem_format::accepted_iff_well_formed(asked.package);
    }
    // Refuse before the module is ever handed to an unqualified backend.
    if let Err(error) = ensure_qualified(backend) {
        return Err(error);
    }
    let ghost none = Seq::new(
        asked.package.tests.len(),
        |i: int| arbitrary_run(),
    );
    if let Err(error) = request.package.validate() {
        assert(judged::<ResultManifest>(Err(error)) == graded(asked, none));
        return Err(error);
    }
    let cases = request.package.ordered_tests();
    let mut outcomes: Vec<TestOutcome> = Vec::new();
    let mut verdict = Verdict::Accepted;
    let mut execution_ms: u64 = 0;
    let ghost mut runs: Seq<CaseRunView> = none;
    let mut i: usize = 0;
    let mut stopped = false;
    let mut failures: Vec<String> = Vec::new();
    proof {
        lemma_no_cases();
        lemma_start(asked.package, runs, failures@);
        assert(outcome_views(outcomes@) == Seq::<TestOutcomeView>::empty());
        assert(verdicts(outcome_views(outcomes@)) == Seq::<Verdict>::empty());
        lemma_ran_start(backend, read, asked, runs);
    }
    while i < cases.len() && !stopped
        invariant
            asked == request@,
            tests == ordered(asked.package.tests),
            tests == case_ref_views(cases@),
            cases@.len() == asked.package.tests.len(),
            i <= cases@.len(),
            runs.len() == cases@.len(),
            !stopped ==> so_far(asked.package, runs, i as int, outcome_views(outcomes@)),
            !stopped ==> failures_are(asked.package, runs, i as int, failures@),
            !stopped ==> ran_so_far(backend, read, asked, runs, i as int),
            stopped ==> judged_cases(asked.package, runs, 0) == Ok::<
                Seq<TestOutcomeView>,
                JudgeErrorView,
            >(outcome_views(outcomes@)),
            stopped ==> ran_so_far(backend, read, asked, runs, runs.len() as int),
            verdict == aggregate(verdicts(outcome_views(outcomes@))),
            execution_ms == wall_total(outcome_views(outcomes@)),
        decreases cases@.len() - i,
    {
        let test = cases[i];
        assert(tests[i as int] == test@);
        let left_out = match &test.group {
            Some(name) => {
                proof {
                    lemma_left_out(asked.package, runs, i as int, failures@, name@);
                }
                stops_at_failure(&request.package.groups, name.as_str()) && holds(
                    &failures,
                    name.as_str(),
                )
            },
            None => false,
        };
        assert(left_out == skipped(asked.package, runs, i as int));
        if left_out {
            proof {
                lemma_skip(asked.package, runs, i as int, outcome_views(outcomes@), failures@);
                lemma_ran_skip(backend, read, asked, runs, i as int);
            }
            i += 1;
            continue ;
        }
        let limits = request.package.limits_for(test);
        let asked_of = ExecutionRequest {
            module: request.module,
            stdin: test.stdin.as_str().as_bytes(),
            args: test.args.as_slice(),
            limits,
        };
        assert(asked_of@ == case_request(asked, test@));
        let ran = match backend.execute(asked_of) {
            Ok(ran) => ran,
            Err(error) => {
                proof {
                    let run = CaseRunView { result: Err(error@), readings: seq![] };
                    lemma_end(asked.package, runs, i as int, outcome_views(outcomes@), run);
                    lemma_ran_step(backend, read, asked, runs, i as int, run);
                    let next = runs.update(i as int, run);
                    lemma_ran_end(backend, read, asked, next, i as int);
                    assert(judged::<ResultManifest>(Err(error)) == graded(asked, next));
                    lemma_ran_all(backend, read, asked, next);
                }
                return Err(error);
            },
        };
        let readings = if ran.is_clean_exit() {
            let output = ran.stdout_lossy();
            read_values(
                &read,
                &request.package.checker,
                test.expected_stdout.as_str(),
                output.as_str(),
            )
        } else {
            Vec::new()
        };
        let ghost run = CaseRunView { result: Ok(ran@), readings: reading_views(readings@) };
        let ghost next = runs.update(i as int, run);
        proof {
            assert(may_run(backend, read, asked, tests[i as int], run));
            lemma_ran_step(backend, read, asked, runs, i as int, run);
            lemma_end(asked.package, runs, i as int, outcome_views(outcomes@), run);
        }
        let outcome = match judge_case(&request.package.checker, test, &ran, &readings) {
            Ok(outcome) => outcome,
            Err(error) => {
                proof {
                    lemma_ran_end(backend, read, asked, next, i as int);
                    assert(judged::<ResultManifest>(Err(error)) == graded(asked, next));
                    lemma_ran_all(backend, read, asked, next);
                }
                return Err(error);
            },
        };
        let ghost said = outcome@;
        let ghost before = outcome_views(outcomes@);
        let case_verdict = outcome.verdict;
        let wall: u64 = outcome.wall_ms;
        outcomes.push(outcome);
        execution_ms = if wall <= u64::MAX - execution_ms {
            execution_ms + wall
        } else {
            u64::MAX
        };
        verdict = verdict.worst(case_verdict);
        let ghost known = failures@;
        if case_verdict != Verdict::Accepted {
            if let Some(name) = &test.group {
                failures.push(copy_text(name.as_str()));
            }
        }
        proof {
            let after = outcome_views(outcomes@);
            assert(after == before.push(said));
            assert(after.drop_last() == before);
            assert(verdicts(after) == verdicts(before).push(said.verdict));
            assert(verdicts(after).drop_last() == verdicts(before));
        }
        // Never keep going after a system fault: the remaining results would be
        // meaningless and the aggregate would look like a user failure.
        if case_verdict.is_retryable() || (request.package.fail_fast && case_verdict
            != Verdict::Accepted) {
            proof {
                lemma_ran_end(backend, read, asked, next, i as int);
            }
            stopped = true;
        } else {
            proof {
                lemma_step(asked.package, runs, i as int, before, run, said);
                if failures@.len() > known.len() {
                    assert(failures@.drop_last() == known);
                }
                lemma_failures_grow(asked.package, runs, i as int, run, known, failures@);
            }
        }
        proof {
            runs = next;
        }
        i += 1;
    }
    proof {
        if !stopped {
            lemma_done(asked.package, runs, outcome_views(outcomes@));
        }
        lemma_ran_all(backend, read, asked, runs);
    }
    let manifest = ResultManifest {
        protocol_version: PROTOCOL_VERSION,
        job_id: copy_text(request.job_id),
        trial_package_cid: copy_text(request.trial_package_cid),
        trial_version: request.package.version,
        environment_id: copy_text(request.package.environment.id.as_str()),
        verdict,
        tests: outcomes,
        compiler_diagnostics: request.compiler_diagnostics,
        compile_ms: request.compile_ms,
        execution_ms,
        used_cached_artifact: request.used_cached_artifact,
    };
    assert(judged::<ResultManifest>(Ok(manifest)) == graded(asked, runs));
    Ok(manifest)
}

spec fn arbitrary_run() -> CaseRunView {
    CaseRunView {
        result: Err(JudgeErrorView::Sandbox(Seq::empty())),
        readings: seq![],
    }
}

/// Some outcomes, and then what comes of the rest.
spec fn prepended(
    first: Seq<TestOutcomeView>,
    rest: Result<Seq<TestOutcomeView>, JudgeErrorView>,
) -> Result<Seq<TestOutcomeView>, JudgeErrorView> {
    match rest {
        Ok(more) => Ok(first + more),
        Err(error) => Err(error),
    }
}

proof fn lemma_no_cases()
    ensures
        forall|rest: Result<Seq<TestOutcomeView>, JudgeErrorView>|
            #[trigger] prepended(Seq::empty(), rest) == rest,
        wall_total(Seq::empty()) == 0,
        aggregate(Seq::empty()) == Verdict::Accepted,
{
    assert forall|rest: Result<Seq<TestOutcomeView>, JudgeErrorView>| #[trigger] prepended(
        Seq::empty(),
        rest,
    ) == rest by {
        match rest {
            Ok(more) => {
                assert(Seq::<TestOutcomeView>::empty() + more == more);
            },
            Err(_) => {},
        }
    }
}

proof fn lemma_prepended_step(
    before: Seq<TestOutcomeView>,
    said: TestOutcomeView,
    rest: Result<Seq<TestOutcomeView>, JudgeErrorView>,
)
    ensures
        prepended(before.push(said), rest) == prepended(
            before,
            (match rest {
                Err(error) => Err(error),
                Ok(more) => Ok(seq![said] + more),
            }),
        ),
{
    match rest {
        Ok(more) => {
            assert(before.push(said) + more == before + (seq![said] + more));
        },
        Err(_) => {},
    }
}

proof fn lemma_group_failed_same(
    package: TrialPackageView,
    a: Seq<CaseRunView>,
    b: Seq<CaseRunView>,
    n: int,
    name: Seq<char>,
)
    requires
        forall|j: int| 0 <= j < n ==> #[trigger] a[j] == b[j],
    ensures
        group_failed(package, a, n, name) == group_failed(package, b, n, name),
{
    let tests = ordered(package.tests);
    if group_failed(package, a, n, name) {
        let j = choose|j: int|
            0 <= j < n && tests[j].group == Some(name) && #[trigger] failed(package, tests[j], a[j]);
        assert(a[j] == b[j]);
        assert(failed(package, tests[j], b[j]));
    }
    if group_failed(package, b, n, name) {
        let j = choose|j: int|
            0 <= j < n && tests[j].group == Some(name) && #[trigger] failed(package, tests[j], b[j]);
        assert(a[j] == b[j]);
        assert(failed(package, tests[j], a[j]));
    }
}

proof fn lemma_group_failed_grows(
    package: TrialPackageView,
    runs: Seq<CaseRunView>,
    n: int,
    name: Seq<char>,
)
    requires
        0 <= n,
    ensures
        group_failed(package, runs, n + 1, name) == (group_failed(package, runs, n, name) || (
        ordered(package.tests)[n].group == Some(name) && failed(
            package,
            ordered(package.tests)[n],
            runs[n],
        ))),
{
    let tests = ordered(package.tests);
    if group_failed(package, runs, n + 1, name) {
        let j = choose|j: int|
            0 <= j < n + 1 && tests[j].group == Some(name) && #[trigger] failed(
                package,
                tests[j],
                runs[j],
            );
        if j < n {
            assert(group_failed(package, runs, n, name));
        }
    }
    if group_failed(package, runs, n, name) {
        let j = choose|j: int|
            0 <= j < n && tests[j].group == Some(name) && #[trigger] failed(package, tests[j], runs[j]);
        assert(0 <= j < n + 1);
    }
}

/// Whether a list names exactly the groups of which one of the first `i` cases
/// failed, and nothing is known of the cases from there on.
#[verifier::opaque]
spec fn failures_are(
    package: TrialPackageView,
    runs: Seq<CaseRunView>,
    i: int,
    names: Seq<String>,
) -> bool {
    &&& forall|name: Seq<char>|
        #[trigger] group_failed(package, runs, i, name) <==> exists|k: int|
            0 <= k < names.len() && #[trigger] names[k]@ == name
    &&& forall|j: int| i <= j < runs.len() ==> #[trigger] runs[j] == arbitrary_run()
}

/// Whether some outcomes are what is recorded of the first `i` cases, whatever
/// the later ones give, and grading goes on.
#[verifier::opaque]
spec fn so_far(
    package: TrialPackageView,
    runs: Seq<CaseRunView>,
    i: int,
    outcomes: Seq<TestOutcomeView>,
) -> bool {
    &&& gets_to(package, runs, i)
    &&& forall|later: Seq<CaseRunView>|
        #![trigger judged_cases(package, later, 0)]
        later.len() == runs.len() && (forall|j: int|
            0 <= j < i ==> #[trigger] later[j] == runs[j]) ==> judged_cases(package, later, 0)
            == prepended(outcomes, judged_cases(package, later, i))
}

/// Whether every case that is run, of the first `n`, is run as it should be.
#[verifier::opaque]
spec fn ran_so_far<B: ExecutionBackend, F: Fn(String, String, u64, u64) -> FloatReading>(
    backend: &B,
    read: F,
    request: GradeRequestView,
    runs: Seq<CaseRunView>,
    n: int,
) -> bool {
    forall|j: int|
        #![trigger runs[j]]
        0 <= j < n && reached(request.package, runs, j) ==> may_run(
            backend,
            read,
            request,
            ordered(request.package.tests)[j],
            runs[j],
        )
}

proof fn lemma_ran_start<B: ExecutionBackend, F: Fn(String, String, u64, u64) -> FloatReading>(
    backend: &B,
    read: F,
    request: GradeRequestView,
    runs: Seq<CaseRunView>,
)
    ensures
        ran_so_far(backend, read, request, runs, 0),
{
    reveal(ran_so_far);
}

proof fn lemma_ran_skip<B: ExecutionBackend, F: Fn(String, String, u64, u64) -> FloatReading>(
    backend: &B,
    read: F,
    request: GradeRequestView,
    runs: Seq<CaseRunView>,
    i: int,
)
    requires
        ran_so_far(backend, read, request, runs, i),
        skipped(request.package, runs, i),
    ensures
        ran_so_far(backend, read, request, runs, i + 1),
{
    reveal(ran_so_far);
}

proof fn lemma_ran_step<B: ExecutionBackend, F: Fn(String, String, u64, u64) -> FloatReading>(
    backend: &B,
    read: F,
    request: GradeRequestView,
    runs: Seq<CaseRunView>,
    i: int,
    run: CaseRunView,
)
    requires
        0 <= i < runs.len(),
        ran_so_far(backend, read, request, runs, i),
        may_run(backend, read, request, ordered(request.package.tests)[i], run),
    ensures
        ran_so_far(backend, read, request, runs.update(i, run), i + 1),
{
    reveal(ran_so_far);
    let next = runs.update(i, run);
    let package = request.package;
    assert forall|j: int| #![trigger next[j]] 0 <= j < i + 1 && reached(
        package,
        next,
        j,
    ) implies may_run(backend, read, request, ordered(package.tests)[j], next[j]) by {
        if j < i {
            assert(next[j] == runs[j]);
            lemma_reached_same(package, runs, next, i, j);
        }
    }
}

proof fn lemma_ran_end<B: ExecutionBackend, F: Fn(String, String, u64, u64) -> FloatReading>(
    backend: &B,
    read: F,
    request: GradeRequestView,
    runs: Seq<CaseRunView>,
    i: int,
)
    requires
        0 <= i < runs.len(),
        ran_so_far(backend, read, request, runs, i + 1),
        !skipped(request.package, runs, i),
        !goes_on(request.package, ordered(request.package.tests)[i], runs[i]),
    ensures
        ran_so_far(backend, read, request, runs, runs.len() as int),
{
    reveal(ran_so_far);
    let package = request.package;
    assert forall|j: int| #![trigger runs[j]] 0 <= j < runs.len() && reached(
        package,
        runs,
        j,
    ) implies may_run(backend, read, request, ordered(package.tests)[j], runs[j]) by {
        if j > i {
            assert(gets_to(package, runs, j));
            assert(goes_on(package, ordered(package.tests)[i], runs[i]));
        }
    }
}

proof fn lemma_ran_all<B: ExecutionBackend, F: Fn(String, String, u64, u64) -> FloatReading>(
    backend: &B,
    read: F,
    request: GradeRequestView,
    runs: Seq<CaseRunView>,
)
    requires
        ran_so_far(backend, read, request, runs, runs.len() as int),
    ensures
        forall|j: int|
            #![trigger runs[j]]
            0 <= j < runs.len() && reached(request.package, runs, j) ==> may_run(
                backend,
                read,
                request,
                ordered(request.package.tests)[j],
                runs[j],
            ),
{
    reveal(ran_so_far);
}

proof fn lemma_start(package: TrialPackageView, runs: Seq<CaseRunView>, names: Seq<String>)
    requires
        names.len() == 0,
        forall|j: int| 0 <= j < runs.len() ==> #[trigger] runs[j] == arbitrary_run(),
    ensures
        so_far(package, runs, 0, Seq::empty()),
        failures_are(package, runs, 0, names),
{
    reveal(so_far);
    reveal(failures_are);
    lemma_no_cases();
}

proof fn lemma_left_out(
    package: TrialPackageView,
    runs: Seq<CaseRunView>,
    i: int,
    names: Seq<String>,
    name: Seq<char>,
)
    requires
        failures_are(package, runs, i, names),
    ensures
        group_failed(package, runs, i, name) <==> exists|k: int|
            0 <= k < names.len() && #[trigger] names[k]@ == name,
{
    reveal(failures_are);
}

proof fn lemma_skip(
    package: TrialPackageView,
    runs: Seq<CaseRunView>,
    i: int,
    outcomes: Seq<TestOutcomeView>,
    names: Seq<String>,
)
    requires
        0 <= i < package.tests.len() == runs.len(),
        skipped(package, runs, i),
        so_far(package, runs, i, outcomes),
        failures_are(package, runs, i, names),
    ensures
        so_far(package, runs, i + 1, outcomes),
        failures_are(package, runs, i + 1, names),
{
    reveal(so_far);
    reveal(failures_are);
    assert(runs[i] == arbitrary_run());
    assert forall|name: Seq<char>| #[trigger]
        group_failed(package, runs, i + 1, name) <==> group_failed(package, runs, i, name) by {
        lemma_group_failed_grows(package, runs, i, name);
    }
    assert forall|name: Seq<char>| #[trigger]
        group_failed(package, runs, i + 1, name) <==> exists|k: int|
            0 <= k < names.len() && #[trigger] names[k]@ == name by {
        assert(group_failed(package, runs, i, name) == group_failed(package, runs, i + 1, name));
    }
    assert forall|later: Seq<CaseRunView>|
        #![trigger judged_cases(package, later, 0)]
        later.len() == runs.len() && (forall|j: int|
            0 <= j < i + 1 ==> #[trigger] later[j] == runs[j]) implies judged_cases(
        package,
        later,
        0,
    ) == prepended(outcomes, judged_cases(package, later, i + 1)) by {
        lemma_skipped_same(package, runs, later, i, i);
    }
}

proof fn lemma_step(
    package: TrialPackageView,
    runs: Seq<CaseRunView>,
    i: int,
    outcomes: Seq<TestOutcomeView>,
    run: CaseRunView,
    said: TestOutcomeView,
)
    requires
        0 <= i < package.tests.len() == runs.len(),
        !skipped(package, runs, i),
        so_far(package, runs, i, outcomes),
        case_judgement(package.checker, ordered(package.tests)[i], run) == Ok::<
            TestOutcomeView,
            JudgeErrorView,
        >(said),
        !stops(package.fail_fast, said.verdict),
    ensures
        so_far(package, runs.update(i, run), i + 1, outcomes.push(said)),
{
    reveal(so_far);
    let next = runs.update(i, run);
    let tests = ordered(package.tests);
    lemma_reached_update(package, runs, i, run);
    assert(gets_to(package, next, i + 1)) by {
        assert forall|j: int| 0 <= j < i + 1 implies skipped(package, next, j)
            || #[trigger] goes_on(package, tests[j], next[j]) by {}
    }
    assert forall|later: Seq<CaseRunView>|
        #![trigger judged_cases(package, later, 0)]
        later.len() == next.len() && (forall|j: int|
            0 <= j < i + 1 ==> #[trigger] later[j] == next[j]) implies judged_cases(
        package,
        later,
        0,
    ) == prepended(outcomes.push(said), judged_cases(package, later, i + 1)) by {
        assert forall|j: int| 0 <= j < i implies #[trigger] later[j] == runs[j] by {
            assert(later[j] == next[j]);
        }
        assert(later[i] == next[i]);
        lemma_skipped_same(package, runs, later, i, i);
        lemma_prepended_step(outcomes, said, judged_cases(package, later, i + 1));
    }
}

proof fn lemma_end(
    package: TrialPackageView,
    runs: Seq<CaseRunView>,
    i: int,
    outcomes: Seq<TestOutcomeView>,
    run: CaseRunView,
)
    requires
        0 <= i < package.tests.len() == runs.len(),
        !skipped(package, runs, i),
        so_far(package, runs, i, outcomes),
    ensures
        !skipped(package, runs.update(i, run), i),
        match case_judgement(package.checker, ordered(package.tests)[i], run) {
            Err(error) => judged_cases(package, runs.update(i, run), 0) == Err::<
                Seq<TestOutcomeView>,
                JudgeErrorView,
            >(error),
            Ok(said) => stops(package.fail_fast, said.verdict) ==> judged_cases(
                package,
                runs.update(i, run),
                0,
            ) == Ok::<Seq<TestOutcomeView>, JudgeErrorView>(outcomes.push(said)),
        },
{
    reveal(so_far);
    let next = runs.update(i, run);
    lemma_skipped_same(package, runs, next, i, i);
    assert(judged_cases(package, next, 0) == prepended(outcomes, judged_cases(package, next, i)));
    if let Ok(said) = case_judgement(package.checker, ordered(package.tests)[i], run) {
        assert(outcomes + seq![said] == outcomes.push(said));
    }
}

proof fn lemma_done(
    package: TrialPackageView,
    runs: Seq<CaseRunView>,
    outcomes: Seq<TestOutcomeView>,
)
    requires
        runs.len() == package.tests.len(),
        so_far(package, runs, runs.len() as int, outcomes),
    ensures
        judged_cases(package, runs, 0) == Ok::<Seq<TestOutcomeView>, JudgeErrorView>(outcomes),
{
    reveal(so_far);
    assert(judged_cases(package, runs, runs.len() as int) == Ok::<
        Seq<TestOutcomeView>,
        JudgeErrorView,
    >(seq![]));
    assert(outcomes + seq![] == outcomes);
}

proof fn lemma_failures_grow(
    package: TrialPackageView,
    runs: Seq<CaseRunView>,
    i: int,
    run: CaseRunView,
    known: Seq<String>,
    after: Seq<String>,
)
    requires
        0 <= i < runs.len(),
        failures_are(package, runs, i, known),
        if failed(package, ordered(package.tests)[i], run) && ordered(
            package.tests,
        )[i].group is Some {
            &&& after.len() == known.len() + 1
            &&& after.drop_last() == known
            &&& Some(after.last()@) == ordered(package.tests)[i].group
        } else {
            after == known
        },
    ensures
        failures_are(package, runs.update(i, run), i + 1, after),
{
    reveal(failures_are);
    let next = runs.update(i, run);
    let test = ordered(package.tests)[i];
    assert forall|name: Seq<char>| #[trigger]
        group_failed(package, next, i + 1, name) <==> exists|k: int|
            0 <= k < after.len() && #[trigger] after[k]@ == name by {
        lemma_group_failed_grows(package, next, i, name);
        lemma_group_failed_same(package, runs, next, i, name);
        let before = exists|k: int| 0 <= k < known.len() && #[trigger] known[k]@ == name;
        let now = exists|k: int| 0 <= k < after.len() && #[trigger] after[k]@ == name;
        if before {
            let k = choose|k: int| 0 <= k < known.len() && #[trigger] known[k]@ == name;
            assert(after[k] == known[k]);
        }
        if now {
            let k = choose|k: int| 0 <= k < after.len() && #[trigger] after[k]@ == name;
            if k < known.len() {
                assert(known[k] == after[k]);
            }
        }
        if failed(package, test, run) && test.group == Some(name) {
            assert(after[after.len() - 1]@ == name);
        }
    }
}

proof fn lemma_skipped_same(
    package: TrialPackageView,
    a: Seq<CaseRunView>,
    b: Seq<CaseRunView>,
    n: int,
    i: int,
)
    requires
        0 <= i <= n,
        forall|j: int| 0 <= j < n ==> #[trigger] a[j] == b[j],
    ensures
        skipped(package, a, i) == skipped(package, b, i),
{
    if let Some(name) = ordered(package.tests)[i].group {
        lemma_group_failed_same(package, a, b, i, name);
    }
}

proof fn lemma_reached_same(
    package: TrialPackageView,
    a: Seq<CaseRunView>,
    b: Seq<CaseRunView>,
    n: int,
    i: int,
)
    requires
        0 <= i <= n,
        forall|j: int| 0 <= j < n ==> #[trigger] a[j] == b[j],
    ensures
        gets_to(package, a, i) == gets_to(package, b, i),
        reached(package, a, i) == reached(package, b, i),
{
    lemma_skipped_same(package, a, b, n, i);
    let tests = ordered(package.tests);
    if gets_to(package, a, i) {
        assert forall|j: int| #![trigger b[j]] 0 <= j < i implies skipped(package, b, j) || goes_on(
            package,
            tests[j],
            b[j],
        ) by {
            assert(a[j] == b[j]);
            lemma_skipped_same(package, a, b, n, j);
        }
    }
    if gets_to(package, b, i) {
        assert forall|j: int| #![trigger a[j]] 0 <= j < i implies skipped(package, a, j) || goes_on(
            package,
            tests[j],
            a[j],
        ) by {
            assert(a[j] == b[j]);
            lemma_skipped_same(package, a, b, n, j);
        }
    }
}

proof fn lemma_reached_update(
    package: TrialPackageView,
    runs: Seq<CaseRunView>,
    i: int,
    run: CaseRunView,
)
    requires
        0 <= i < runs.len(),
    ensures
        reached(package, runs.update(i, run), i) == reached(package, runs, i),
        gets_to(package, runs.update(i, run), i) == gets_to(package, runs, i),
        forall|j: int| 0 <= j < i ==> #[trigger] runs.update(i, run)[j] == runs[j],
{
    lemma_reached_same(package, runs, runs.update(i, run), i, i);
}

// ---------------------------------------------------------------------------
// Manifests without a run
// ---------------------------------------------------------------------------

/// The manifest of a submission of which no case was run.
pub open spec fn unrun_manifest(
    job_id: Seq<char>,
    trial_package_cid: Seq<char>,
    package: TrialPackageView,
    verdict: Verdict,
    compiler_diagnostics: Option<Seq<char>>,
    compile_ms: u64,
) -> ResultManifestView {
    ResultManifestView {
        protocol_version: PROTOCOL_VERSION,
        job_id,
        trial_package_cid,
        trial_version: package.version,
        environment_id: package.environment.id,
        verdict,
        tests: seq![],
        compiler_diagnostics,
        compile_ms,
        execution_ms: 0,
        used_cached_artifact: false,
    }
}

/// Build a manifest for a submission that failed to compile.
///
/// Raw diagnostics are preserved verbatim: explaining a `rustc` error is the
/// UI's job, and replacing it would take away the thing a learner most needs to
/// get used to reading.
pub fn manifest_for_compile_error(
    job_id: &str,
    trial_package_cid: &str,
    package: &TrialPackage,
    diagnostics: String,
    compile_ms: u64,
) -> (manifest: ResultManifest)
    ensures
        manifest@ == unrun_manifest(
            job_id@,
            trial_package_cid@,
            package@,
            Verdict::CompileError,
            Some(diagnostics@),
            compile_ms,
        ),
{
    ResultManifest {
        protocol_version: PROTOCOL_VERSION,
        job_id: copy_text(job_id),
        trial_package_cid: copy_text(trial_package_cid),
        trial_version: package.version,
        environment_id: copy_text(package.environment.id.as_str()),
        verdict: Verdict::CompileError,
        tests: Vec::new(),
        compiler_diagnostics: Some(diagnostics),
        compile_ms,
        execution_ms: 0,
        used_cached_artifact: false,
    }
}

/// Convert a judge error into the manifest that should be reported.
///
/// Used when execution could not even begin. The verdict comes from the error's
/// own classification, so an infrastructure failure cannot become a `CE`.
pub fn manifest_for_error(
    job_id: &str,
    trial_package_cid: &str,
    package: &TrialPackage,
    error: &JudgeError,
) -> (manifest: ResultManifest)
    ensures
        manifest@ == unrun_manifest(
            job_id@,
            trial_package_cid@,
            package@,
            error@.verdict(),
            None,
            0,
        ),
{
    ResultManifest {
        protocol_version: PROTOCOL_VERSION,
        job_id: copy_text(job_id),
        trial_package_cid: copy_text(trial_package_cid),
        trial_version: package.version,
        environment_id: copy_text(package.environment.id.as_str()),
        verdict: error.verdict(),
        tests: Vec::new(),
        compiler_diagnostics: None,
        compile_ms: 0,
        execution_ms: 0,
        used_cached_artifact: false,
    }
}

/// Whether nothing about a case gives away what is hidden.
pub open spec fn outcome_is_safe(test: TestOutcomeView) -> bool {
    test.visibility != Visibility::Hidden || (test.detail is None && test.test_id == "hidden"@)
}

/// Whether a manifest gives away nothing that is hidden.
pub open spec fn manifest_is_safe(manifest: ResultManifestView) -> bool {
    forall|i: int| 0 <= i < manifest.tests.len() ==> outcome_is_safe(#[trigger] manifest.tests[i])
}

/// Whether a manifest may be published to the submitter as-is.
///
/// Belt and braces around [`ResultManifest::redacted_for_submitter`]: this
/// returns `false` for any manifest that still carries a hidden case's identity
/// or reason, so a caller that forgets to redact fails loudly.
pub fn is_safe_for_submitter(manifest: &ResultManifest) -> (yes: bool)
    ensures
        yes == manifest_is_safe(manifest@),
{
    let mut i: usize = 0;
    while i < manifest.tests.len()
        invariant
            i <= manifest.tests@.len(),
            forall|j: int| 0 <= j < i ==> outcome_is_safe(#[trigger] manifest@.tests[j]),
        decreases manifest.tests@.len() - i,
    {
        let test = &manifest.tests[i];
        assert(manifest@.tests[i as int] == test@);
        if test.visibility == Visibility::Hidden && !(test.detail.is_none() && same_text(
            test.test_id.as_str(),
            "hidden",
        )) {
            assert(!outcome_is_safe(manifest@.tests[i as int]));
            return false;
        }
        i += 1;
    }
    true
}

// ---------------------------------------------------------------------------
// What grading promises
// ---------------------------------------------------------------------------

/// A redacted manifest may be published, and the manifests that may be are
/// exactly those that redaction does not change.
pub proof fn redacted_manifests_are_safe(manifest: ResultManifestView)
    ensures
        manifest_is_safe(manifest.redacted()),
        manifest_is_safe(manifest) <==> manifest.redacted() == manifest,
{
    let redacted = manifest.redacted();
    assert forall|i: int| 0 <= i < redacted.tests.len() implies outcome_is_safe(
        #[trigger] redacted.tests[i],
    ) by {
        assert(redacted.tests[i] == redacted_outcome(manifest.tests[i]));
    }
    if manifest_is_safe(manifest) {
        assert forall|i: int| 0 <= i < manifest.tests.len() implies redacted.tests[i]
            == #[trigger] manifest.tests[i] by {
            assert(outcome_is_safe(manifest.tests[i]));
        }
        assert(redacted.tests == manifest.tests);
    }
}

/// What a case can be found to be.
pub open spec fn is_case_verdict(verdict: Verdict) -> bool {
    verdict == Verdict::Accepted || verdict == Verdict::WrongAnswer || verdict
        == Verdict::RuntimeError || verdict == Verdict::TimeLimitExceeded || verdict
        == Verdict::MemoryLimitExceeded || verdict == Verdict::OutputLimitExceeded
}

proof fn lemma_judged_cases(package: TrialPackageView, runs: Seq<CaseRunView>, i: int)
    requires
        0 <= i <= package.tests.len(),
    ensures
        judged_cases(package, runs, i) matches Ok(outcomes) ==> {
            let at = played(package, runs, i);
            &&& outcomes.len() == at.len()
            &&& forall|j: int|
                #![trigger outcomes[j]]
                0 <= j < outcomes.len() ==> {
                    &&& outcomes[j].test_id == ordered(package.tests)[at[j]].id
                    &&& outcomes[j].visibility == ordered(package.tests)[at[j]].visibility
                    &&& is_case_verdict(outcomes[j].verdict)
                    &&& case_judgement(
                        package.checker,
                        ordered(package.tests)[at[j]],
                        runs[at[j]],
                    ) == Ok::<TestOutcomeView, JudgeErrorView>(outcomes[j])
                    &&& j < outcomes.len() - 1 ==> !stops(package.fail_fast, outcomes[j].verdict)
                }
        },
    decreases package.tests.len() - i,
{
    if i < package.tests.len() {
        lemma_judged_cases(package, runs, i + 1);
        let tests = ordered(package.tests);
        if !skipped(package, runs, i) {
            if let Ok(outcome) = case_judgement(package.checker, tests[i], runs[i]) {
                assert(is_case_verdict(outcome.verdict));
                if !stops(package.fail_fast, outcome.verdict) {
                    if let Ok(rest) = judged_cases(package, runs, i + 1) {
                        let outcomes = seq![outcome] + rest;
                        let at = played(package, runs, i);
                        assert forall|j: int| #![trigger outcomes[j]] 0 <= j
                            < outcomes.len() implies {
                            &&& outcomes[j].test_id == tests[at[j]].id
                            &&& outcomes[j].visibility == tests[at[j]].visibility
                            &&& is_case_verdict(outcomes[j].verdict)
                            &&& case_judgement(package.checker, tests[at[j]], runs[at[j]]) == Ok::<
                                TestOutcomeView,
                                JudgeErrorView,
                            >(outcomes[j])
                            &&& j < outcomes.len() - 1 ==> !stops(
                                package.fail_fast,
                                outcomes[j].verdict,
                            )
                        } by {
                            if j > 0 {
                                assert(outcomes[j] == rest[j - 1]);
                                assert(at[j] == played(package, runs, i + 1)[j - 1]);
                            }
                        }
                    }
                }
            }
        }
    }
}

proof fn lemma_played(package: TrialPackageView, runs: Seq<CaseRunView>, i: int)
    requires
        0 <= i <= package.tests.len(),
        gets_to(package, runs, i),
    ensures
        ({
            let at = played(package, runs, i);
            &&& forall|j: int|
                #![trigger at[j]]
                0 <= j < at.len() ==> i <= at[j] < package.tests.len() && reached(
                    package,
                    runs,
                    at[j],
                )
            &&& forall|j: int, k: int| 0 <= j < k < at.len() ==> #[trigger] at[j] < #[trigger] at[k]
            &&& forall|n: int|
                i <= n < package.tests.len() && #[trigger] reached(package, runs, n)
                    ==> at.contains(n)
        }),
    decreases package.tests.len() - i,
{
    if i < package.tests.len() {
        let at = played(package, runs, i);
        let tests = ordered(package.tests);
        if skipped(package, runs, i) || goes_on(package, tests[i], runs[i]) {
            assert(gets_to(package, runs, i + 1));
            lemma_played(package, runs, i + 1);
            let rest = played(package, runs, i + 1);
            if !skipped(package, runs, i) {
                assert(at == seq![i] + rest);
                assert(at[0] == i);
                assert forall|j: int| #![trigger at[j]] 0 <= j < at.len() implies i <= at[j]
                    < package.tests.len() && reached(package, runs, at[j]) by {
                    if j > 0 {
                        assert(at[j] == rest[j - 1]);
                    }
                }
                assert forall|j: int, k: int| 0 <= j < k < at.len() implies #[trigger] at[j]
                    < #[trigger] at[k] by {
                    assert(at[k] == rest[k - 1]);
                    if j > 0 {
                        assert(at[j] == rest[j - 1]);
                    }
                }
                assert forall|n: int| i <= n < package.tests.len() && #[trigger] reached(
                    package,
                    runs,
                    n,
                ) implies at.contains(n) by {
                    if n > i {
                        assert(rest.contains(n));
                        let k = choose|k: int| 0 <= k < rest.len() && rest[k] == n;
                        assert(at[k + 1] == n);
                    }
                }
            }
        } else {
            assert(at == seq![i]);
            assert(at[0] == i);
            assert forall|n: int| i <= n < package.tests.len() && #[trigger] reached(
                package,
                runs,
                n,
            ) implies at.contains(n) by {
                if n > i {
                    assert(gets_to(package, runs, n));
                    assert(goes_on(package, tests[i], runs[i]));
                }
            }
        }
    }
}

/// Grading reports on exactly the cases that are run, in the order in which
/// cases run, each under its own name, and on nothing else. The first case
/// always is one of them.
pub proof fn outcomes_follow_the_order(request: GradeRequestView, runs: Seq<CaseRunView>)
    ensures
        graded(request, runs) matches Ok(manifest) ==> {
            let at = played(request.package, runs, 0);
            let tests = ordered(request.package.tests);
            &&& 0 < manifest.tests.len() == at.len()
            &&& at[0] == 0
            &&& forall|i: int|
                #![trigger manifest.tests[i]]
                0 <= i < manifest.tests.len() ==> {
                    &&& manifest.tests[i].test_id == tests[at[i]].id
                    &&& manifest.tests[i].visibility == tests[at[i]].visibility
                }
            &&& forall|i: int, j: int| 0 <= i < j < at.len() ==> #[trigger] at[i] < #[trigger] at[j]
            &&& forall|n: int|
                #![trigger at.contains(n)]
                #![trigger reached(request.package, runs, n)]
                at.contains(n) <==> 0 <= n < request.package.tests.len() && reached(
                    request.package,
                    runs,
                    n,
                )
        },
{
    let package = request.package;
    lemma_judged_cases(package, runs, 0);
    if let Ok(manifest) = graded(request, runs) {
        crate::problem_format::accepted_iff_well_formed(package);
        lemma_played(package, runs, 0);
        lemma_first_case(package, runs);
        let at = played(package, runs, 0);
        assert forall|n: int| at.contains(n) implies 0 <= n
            < package.tests.len() && reached(package, runs, n) by {
            let k = choose|k: int| 0 <= k < at.len() && at[k] == n;
        }
    }
}

proof fn lemma_first_case(package: TrialPackageView, runs: Seq<CaseRunView>)
    requires
        package.tests.len() > 0,
    ensures
        !skipped(package, runs, 0),
        played(package, runs, 0).len() > 0,
        played(package, runs, 0)[0] == 0,
{
}

/// Grading blames the submission or nobody: the verdict is one that a case can
/// have, so it never is a compile error, a security event or a fault of the
/// judge. Where the judge fails, there is an error in place of a manifest.
pub proof fn grading_never_blames_the_judge(request: GradeRequestView, runs: Seq<CaseRunView>)
    ensures
        graded(request, runs) matches Ok(manifest) ==> {
            &&& is_case_verdict(manifest.verdict)
            &&& manifest.verdict.class_of() != VerdictClass::SystemFault
        },
{
    lemma_judged_cases(request.package, runs, 0);
    if let Ok(manifest) = graded(request, runs) {
        let all = verdicts(manifest.tests);
        crate::verdict::aggregate_of_cases(all);
        if manifest.verdict != Verdict::Accepted {
            let k = choose|k: int| 0 <= k < all.len() && #[trigger] all[k] == aggregate(all);
            assert(all[k] == manifest.tests[k].verdict);
        }
    }
}

/// Under an exact comparison a case passes exactly where the program ended well
/// and printed the bytes of the expected text, no others.
pub proof fn exact_cases_match_byte_for_byte(test: TestCaseView, run: CaseRunView)
    ensures
        case_judgement(CheckerView::Exact, test, run) matches Ok(outcome) && outcome.verdict
            == Verdict::Accepted <==> {
            &&& run.result matches Ok(ran)
            &&& ran.termination == (TerminationReasonView::Exited { code: 0 })
            &&& ran.stdout == vstd::utf8::encode_utf8(test.expected_stdout)
        },
{
    if let Ok(ran) = run.result {
        crate::backend::termination_blames_the_program(ran.termination);
    }
}

/// A submission is accepted exactly when every case of the package was run and
/// accepted. Otherwise the verdict is that of the first case that was not.
pub proof fn accepted_means_every_case_passed(request: GradeRequestView, runs: Seq<CaseRunView>)
    ensures
        graded(request, runs) matches Ok(manifest) ==> {
            &&& manifest.verdict == Verdict::Accepted <==> {
                &&& manifest.tests.len() == request.package.tests.len()
                &&& forall|i: int|
                    0 <= i < manifest.tests.len() ==> #[trigger] manifest.tests[i].verdict
                        == Verdict::Accepted
            }
            &&& manifest.verdict != Verdict::Accepted ==> exists|i: int|
                {
                    &&& 0 <= i < manifest.tests.len()
                    &&& #[trigger] manifest.tests[i].verdict == manifest.verdict
                    &&& forall|j: int|
                        0 <= j < i ==> #[trigger] manifest.tests[j].verdict == Verdict::Accepted
                }
        },
{
    lemma_judged_cases(request.package, runs, 0);
    if let Ok(manifest) = graded(request, runs) {
        let all = verdicts(manifest.tests);
        crate::verdict::aggregate_of_cases(all);
        if manifest.verdict == Verdict::Accepted {
            assert forall|i: int| 0 <= i < manifest.tests.len() implies #[trigger] manifest.tests[i].verdict
                == Verdict::Accepted by {
                assert(all[i] == Verdict::Accepted);
            }
            lemma_all_accepted(request.package, runs, 0);
        } else {
            let k = choose|k: int|
                {
                    &&& 0 <= k < all.len()
                    &&& #[trigger] all[k] == aggregate(all)
                    &&& forall|j: int|
                        0 <= j < k ==> all[j].class_of().severity() < all[k].class_of().severity()
                };
            assert(manifest.tests[k].verdict == manifest.verdict);
            assert forall|j: int| 0 <= j < k implies #[trigger] manifest.tests[j].verdict
                == Verdict::Accepted by {
                assert(all[j] == manifest.tests[j].verdict);
                assert(is_case_verdict(manifest.tests[j].verdict));
                assert(is_case_verdict(manifest.tests[k].verdict));
            }
            if manifest.tests.len() == request.package.tests.len() && forall|i: int|
                0 <= i < manifest.tests.len() ==> #[trigger] manifest.tests[i].verdict
                    == Verdict::Accepted {
                assert(manifest.tests[k].verdict == Verdict::Accepted);
            }
        }
    }
}

proof fn lemma_all_accepted(package: TrialPackageView, runs: Seq<CaseRunView>, i: int)
    requires
        0 <= i <= package.tests.len(),
        forall|j: int|
            #![trigger runs[j]]
            0 <= j < i ==> !failed(package, ordered(package.tests)[j], runs[j]),
        judged_cases(package, runs, i) matches Ok(outcomes) && forall|j: int|
            0 <= j < outcomes.len() ==> #[trigger] outcomes[j].verdict == Verdict::Accepted,
    ensures
        judged_cases(package, runs, i)->Ok_0.len() == package.tests.len() - i,
    decreases package.tests.len() - i,
{
    if i < package.tests.len() {
        let outcomes = judged_cases(package, runs, i)->Ok_0;
        let tests = ordered(package.tests);
        assert(!skipped(package, runs, i));
        let outcome = case_judgement(package.checker, tests[i], runs[i])->Ok_0;
        assert(outcomes[0] == outcome);
        let rest = judged_cases(package, runs, i + 1)->Ok_0;
        assert(outcomes == seq![outcome] + rest);
        assert forall|j: int| 0 <= j < rest.len() implies #[trigger] rest[j].verdict
            == Verdict::Accepted by {
            assert(outcomes[j + 1] == rest[j]);
        }
        lemma_all_accepted(package, runs, i + 1);
    }
}

proof fn lemma_all_played(package: TrialPackageView, runs: Seq<CaseRunView>, i: int)
    requires
        0 <= i <= package.tests.len(),
        forall|n: int| 0 <= n < package.tests.len() ==> !#[trigger] skipped(package, runs, n),
        !package.fail_fast,
        judged_cases(package, runs, i) is Ok,
    ensures
        played(package, runs, i).len() == package.tests.len() - i,
    decreases package.tests.len() - i,
{
    if i < package.tests.len() {
        let tests = ordered(package.tests);
        assert(!skipped(package, runs, i));
        let outcome = case_judgement(package.checker, tests[i], runs[i])->Ok_0;
        assert(is_case_verdict(outcome.verdict));
        lemma_all_played(package, runs, i + 1);
    }
}

/// Whether two cases are of one group, and it stops at its first failure.
pub open spec fn stop_together(package: TrialPackageView, a: TestCaseView, b: TestCaseView) -> bool {
    &&& a.group is Some
    &&& a.group == b.group
    &&& group_fails_fast(package.groups, a.group->0)
}

/// Whether of a group that stops at its first failure nothing is on record
/// after one. `at` says which case each outcome is of.
pub open spec fn groups_stop(
    package: TrialPackageView,
    at: Seq<int>,
    outcomes: Seq<TestOutcomeView>,
) -> bool {
    let tests = ordered(package.tests);
    forall|i: int, j: int|
        0 <= i < j < outcomes.len() && #[trigger] stop_together(package, tests[at[i]], tests[at[j]])
            ==> outcomes[i].verdict == Verdict::Accepted
}

/// A package that asks for it is stopped at its first failing case: no case
/// before the last one on record failed. One that does not is run to the end,
/// but for what its groups leave out: a case is left out exactly where a case
/// before it, of the same group, failed, and the group asks for it. So of such
/// a group nothing on record comes after a failure, and without such a group
/// every case is on record.
pub proof fn fail_fast_stops_at_the_first_failure(
    request: GradeRequestView,
    runs: Seq<CaseRunView>,
)
    ensures
        graded(request, runs) matches Ok(manifest) ==> {
            let package = request.package;
            let at = played(package, runs, 0);
            &&& package.fail_fast ==> forall|i: int|
                0 <= i < manifest.tests.len() - 1 ==> #[trigger] manifest.tests[i].verdict
                    == Verdict::Accepted
            &&& !package.fail_fast ==> forall|n: int|
                0 <= n < package.tests.len() ==> (#[trigger] reached(package, runs, n) <==> !skipped(
                    package,
                    runs,
                    n,
                ))
            &&& groups_stop(package, at, manifest.tests)
            &&& !package.fail_fast && (forall|k: int|
                0 <= k < package.groups.len() ==> !#[trigger] package.groups[k].fail_fast)
                ==> manifest.tests.len() == package.tests.len()
        },
{
    let package = request.package;
    let at = played(package, runs, 0);
    let tests = ordered(package.tests);
    lemma_judged_cases(package, runs, 0);
    if let Ok(manifest) = graded(request, runs) {
        lemma_played(package, runs, 0);
        let outcomes = manifest.tests;
        assert forall|i: int, j: int|
            0 <= i < j < outcomes.len() && #[trigger] stop_together(
                package,
                tests[at[i]],
                tests[at[j]],
            ) implies outcomes[i].verdict == Verdict::Accepted by {
            assert(at[i] < at[j]);
            let run = runs[at[i]];
            assert(!skipped(package, runs, at[j]));
            if failed(package, tests[at[i]], run) {
                assert(group_failed(package, runs, at[j], tests[at[j]].group->0));
            }
        }
        assert(groups_stop(package, at, outcomes));
        if !package.fail_fast {
            assert forall|n: int|
                0 <= n < package.tests.len() && !skipped(
                    package,
                    runs,
                    n,
                ) implies #[trigger] reached(package, runs, n) by {
                lemma_gets_to_all(package, runs, 0, n);
            }
            if forall|k: int|
                0 <= k < package.groups.len() ==> !#[trigger] package.groups[k].fail_fast {
                assert forall|n: int| 0 <= n < package.tests.len() implies !#[trigger] skipped(
                    package,
                    runs,
                    n,
                ) by {}
                lemma_all_played(package, runs, 0);
            }
        }
    }
}

proof fn lemma_gets_to_all(package: TrialPackageView, runs: Seq<CaseRunView>, i: int, n: int)
    requires
        0 <= i <= n <= package.tests.len(),
        !package.fail_fast,
        gets_to(package, runs, i),
        judged_cases(package, runs, i) is Ok,
    ensures
        gets_to(package, runs, n),
    decreases n - i,
{
    if i < n {
        let tests = ordered(package.tests);
        if !skipped(package, runs, i) {
            let outcome = case_judgement(package.checker, tests[i], runs[i])->Ok_0;
            assert(is_case_verdict(outcome.verdict));
        }
        lemma_gets_to_all(package, runs, i + 1, n);
    }
}

/// Grading a package without hidden cases reports on none, and such a manifest
/// may be published as it is.
pub proof fn public_grading_is_publishable(request: GradeRequestView, runs: Seq<CaseRunView>)
    requires
        !request.package.has_hidden(),
    ensures
        graded(request, runs) matches Ok(manifest) ==> manifest_is_safe(manifest),
{
    lemma_judged_cases(request.package, runs, 0);
    lemma_played(request.package, runs, 0);
    crate::problem_format::ordered_tests_are_sorted(request.package.tests);
    if let Ok(manifest) = graded(request, runs) {
        let at = played(request.package, runs, 0);
        assert forall|i: int| 0 <= i < manifest.tests.len() implies outcome_is_safe(
            #[trigger] manifest.tests[i],
        ) by {
            assert(0 <= at[i] < request.package.tests.len());
            let test = ordered(request.package.tests)[at[i]];
            let list = ordered(request.package.tests);
            broadcast use vstd::seq_lib::group_to_multiset_ensures;

            assert(list.contains(test));
            assert(list.to_multiset().count(test) > 0);
            assert(request.package.tests.to_multiset().count(test) > 0);
            assert(request.package.tests.contains(test));
            let k = choose|k: int|
                0 <= k < request.package.tests.len() && request.package.tests[k] == test;
            assert(request.package.tests[k].visibility != Visibility::Hidden);
        }
    }
}

/// Whether a cached artifact was used changes nothing but the record of it: not
/// the verdict, and not the outcome of any case.
pub proof fn cache_reuse_never_changes_the_verdict(
    request: GradeRequestView,
    runs: Seq<CaseRunView>,
    reused: bool,
)
    ensures
        graded((GradeRequestView { used_cached_artifact: reused, ..request }), runs) == (match graded(
            request,
            runs,
        ) {
            Ok(manifest) => Ok(ResultManifestView { used_cached_artifact: reused, ..manifest }),
            Err(error) => Err(error),
        }),
{
}

/// An outcome without the time it took.
pub open spec fn untimed(outcome: TestOutcomeView) -> TestOutcomeView {
    TestOutcomeView { wall_ms: 0, ..outcome }
}

/// Some outcomes without the time they took.
pub open spec fn all_untimed(outcomes: Seq<TestOutcomeView>) -> Seq<TestOutcomeView> {
    outcomes.map_values(|outcome: TestOutcomeView| untimed(outcome))
}

/// Whether two runs of a case gave the same, but for the time they took.
pub open spec fn alike(a: CaseRunView, b: CaseRunView) -> bool {
    &&& a.readings == b.readings
    &&& match (a.result, b.result) {
        (Ok(x), Ok(y)) => x == (ExecutionOutcomeView { wall_ms: x.wall_ms, ..y }),
        (Err(x), Err(y)) => x == y,
        _ => false,
    }
}

/// Whether two gradings of a package saw the same, but for the time it took:
/// every case that either of them ran gave the same in both.
pub open spec fn runs_alike(
    package: TrialPackageView,
    a: Seq<CaseRunView>,
    b: Seq<CaseRunView>,
) -> bool {
    forall|i: int|
        #![trigger reached(package, a, i)]
        #![trigger reached(package, b, i)]
        0 <= i < package.tests.len() && (reached(package, a, i) || reached(package, b, i))
            ==> alike(a[i], b[i])
}

/// Whether two gradings found the same of a submission, but for the time it took
/// and for what was recorded of its compilation: the same verdict, and the same
/// outcome of every case, or the same error.
pub open spec fn found_the_same(
    a: Result<ResultManifestView, JudgeErrorView>,
    b: Result<ResultManifestView, JudgeErrorView>,
) -> bool {
    match (a, b) {
        (Ok(x), Ok(y)) => all_untimed(x.tests) == all_untimed(y.tests) && x
            == (ResultManifestView {
            tests: x.tests,
            execution_ms: x.execution_ms,
            compiler_diagnostics: x.compiler_diagnostics,
            compile_ms: x.compile_ms,
            used_cached_artifact: x.used_cached_artifact,
            ..y
        }),
        (Err(x), Err(y)) => x == y,
        _ => false,
    }
}

/// What a grading finds depends on what the cases gave and on nothing else: not
/// on how long they took, nor on how the module was come by, nor on what the
/// compiler said. Two gradings of a package that saw the same found the same.
pub proof fn verdicts_depend_on_the_cases_alone(
    a: GradeRequestView,
    b: GradeRequestView,
    runs_a: Seq<CaseRunView>,
    runs_b: Seq<CaseRunView>,
)
    requires
        a == (GradeRequestView {
            compiler_diagnostics: a.compiler_diagnostics,
            compile_ms: a.compile_ms,
            used_cached_artifact: a.used_cached_artifact,
            ..b
        }),
        runs_alike(a.package, runs_a, runs_b),
    ensures
        found_the_same(graded(a, runs_a), graded(b, runs_b)),
{
    let package = a.package;
    lemma_alike_cases(package, runs_a, runs_b, 0);
    if let Ok(x) = judged_cases(package, runs_a, 0) {
        if let Ok(y) = judged_cases(package, runs_b, 0) {
            assert(verdicts(x) == verdicts(all_untimed(x)));
            assert(verdicts(y) == verdicts(all_untimed(y)));
        }
    }
}

proof fn lemma_alike_cases(
    package: TrialPackageView,
    a: Seq<CaseRunView>,
    b: Seq<CaseRunView>,
    i: int,
)
    requires
        0 <= i <= package.tests.len(),
        runs_alike(package, a, b),
        gets_to(package, a, i),
        gets_to(package, b, i),
    ensures
        match (judged_cases(package, a, i), judged_cases(package, b, i)) {
            (Ok(x), Ok(y)) => all_untimed(x) == all_untimed(y),
            (Err(x), Err(y)) => x == y,
            _ => false,
        },
    decreases package.tests.len() - i,
{
    if i < package.tests.len() {
        let test = ordered(package.tests)[i];
        lemma_alike_skipped(package, a, b, i);
        if skipped(package, a, i) {
            lemma_alike_cases(package, a, b, i + 1);
        } else {
            assert(reached(package, a, i));
            lemma_alike_judgement(package, test, a[i], b[i]);
            if goes_on(package, test, a[i]) {
                lemma_alike_cases(package, a, b, i + 1);
                let said_a = case_judgement(package.checker, test, a[i])->Ok_0;
                let said_b = case_judgement(package.checker, test, b[i])->Ok_0;
                if let Ok(x) = judged_cases(package, a, i + 1) {
                    if let Ok(y) = judged_cases(package, b, i + 1) {
                        assert(all_untimed(seq![said_a] + x) == seq![untimed(said_a)]
                            + all_untimed(x));
                        assert(all_untimed(seq![said_b] + y) == seq![untimed(said_b)]
                            + all_untimed(y));
                    }
                }
            } else if let Ok(said_a) = case_judgement(package.checker, test, a[i]) {
                let said_b = case_judgement(package.checker, test, b[i])->Ok_0;
                assert(all_untimed(seq![said_a]) == seq![untimed(said_a)]);
                assert(all_untimed(seq![said_b]) == seq![untimed(said_b)]);
            }
        }
    }
}

proof fn lemma_alike_judgement(
    package: TrialPackageView,
    test: TestCaseView,
    a: CaseRunView,
    b: CaseRunView,
)
    requires
        alike(a, b),
    ensures
        match (case_judgement(package.checker, test, a), case_judgement(package.checker, test, b)) {
            (Ok(x), Ok(y)) => untimed(x) == untimed(y),
            (Err(x), Err(y)) => x == y,
            _ => false,
        },
        goes_on(package, test, a) == goes_on(package, test, b),
        failed(package, test, a) == failed(package, test, b),
{
    if let (
        Ok(x),
        Ok(y),
    ) = (case_judgement(package.checker, test, a), case_judgement(package.checker, test, b)) {
        assert(untimed(x).verdict == untimed(y).verdict);
    }
}

proof fn lemma_alike_skipped(
    package: TrialPackageView,
    a: Seq<CaseRunView>,
    b: Seq<CaseRunView>,
    i: int,
)
    requires
        0 <= i < package.tests.len(),
        runs_alike(package, a, b),
        gets_to(package, a, i),
        gets_to(package, b, i),
    ensures
        skipped(package, a, i) == skipped(package, b, i),
{
    if skipped(package, a, i) {
        lemma_alike_failure(package, a, b, i);
    }
    if skipped(package, b, i) {
        lemma_alike_failure(package, b, a, i);
    }
}

proof fn lemma_alike_failure(
    package: TrialPackageView,
    a: Seq<CaseRunView>,
    b: Seq<CaseRunView>,
    i: int,
)
    requires
        0 <= i < package.tests.len(),
        runs_alike(package, a, b) || runs_alike(package, b, a),
        gets_to(package, a, i),
        skipped(package, a, i),
    ensures
        skipped(package, b, i),
{
    let tests = ordered(package.tests);
    let name = tests[i].group->0;
    let j = lemma_first_failure(package, a, i, name);
    assert(gets_to(package, a, j));
    assert(!skipped(package, a, j));
    assert(reached(package, a, j));
    if runs_alike(package, a, b) {
        lemma_alike_judgement(package, tests[j], a[j], b[j]);
    } else {
        lemma_alike_judgement(package, tests[j], b[j], a[j]);
    }
    assert(failed(package, tests[j], b[j]));
    assert(group_failed(package, b, i, name));
}

proof fn lemma_first_failure(
    package: TrialPackageView,
    runs: Seq<CaseRunView>,
    n: int,
    name: Seq<char>,
) -> (j: int)
    requires
        group_failed(package, runs, n, name),
    ensures
        0 <= j < n,
        ordered(package.tests)[j].group == Some(name),
        failed(package, ordered(package.tests)[j], runs[j]),
        !group_failed(package, runs, j, name),
    decreases n,
{
    let tests = ordered(package.tests);
    let j = choose|j: int|
        0 <= j < n && tests[j].group == Some(name) && #[trigger] failed(package, tests[j], runs[j]);
    if group_failed(package, runs, j, name) {
        lemma_first_failure(package, runs, j, name)
    } else {
        j
    }
}

/// A case that could not be run or judged makes the whole submission unjudged:
/// where grading gets to it, its error is what comes of grading.
pub proof fn a_failed_case_fails_the_grading(
    request: GradeRequestView,
    runs: Seq<CaseRunView>,
    i: int,
    error: JudgeErrorView,
)
    requires
        request.package.well_formed(),
        0 <= i < request.package.tests.len() == runs.len(),
        reached(request.package, runs, i),
        case_judgement(request.package.checker, ordered(request.package.tests)[i], runs[i]) == Err::<
            TestOutcomeView,
            JudgeErrorView,
        >(error),
    ensures
        graded(request, runs) == Err::<ResultManifestView, JudgeErrorView>(error),
{
    crate::problem_format::accepted_iff_well_formed(request.package);
    lemma_failed_case(request.package, runs, 0, i, error);
}

proof fn lemma_failed_case(
    package: TrialPackageView,
    runs: Seq<CaseRunView>,
    from: int,
    i: int,
    error: JudgeErrorView,
)
    requires
        0 <= from <= i < package.tests.len(),
        reached(package, runs, i),
        case_judgement(package.checker, ordered(package.tests)[i], runs[i]) == Err::<
            TestOutcomeView,
            JudgeErrorView,
        >(error),
    ensures
        judged_cases(package, runs, from) == Err::<Seq<TestOutcomeView>, JudgeErrorView>(error),
    decreases i - from,
{
    if from < i {
        let run = runs[from];
        assert(skipped(package, runs, from) || goes_on(
            package,
            ordered(package.tests)[from],
            run,
        ));
        lemma_failed_case(package, runs, from + 1, i, error);
    }
}

// ---------------------------------------------------------------------------
// What a case is run with, and what is recorded of it
// ---------------------------------------------------------------------------

/// A case is run as the package says: the module of the submission, with the
/// bytes of the case's own input, exactly its arguments in their order, and its
/// own limits, or those of the package where it has none.
pub proof fn a_case_is_run_with_what_is_its_own(request: GradeRequestView, test: TestCaseView)
    ensures
        ({
            let asked = case_request(request, test);
            &&& asked.module == request.module
            &&& asked.stdin == vstd::utf8::encode_utf8(test.stdin)
            &&& asked.args.len() == test.args.len()
            &&& forall|i: int|
                0 <= i < test.args.len() ==> #[trigger] asked.args[i] == test.args[i]
            &&& test.limits matches Some(own) ==> asked.limits == own
            &&& test.limits is None ==> asked.limits == request.package.limits
        }),
{
}

/// What a case gave is what the backend may give when asked to run that case; and
/// where numbers are compared, each expected token was read against the one in
/// its place, under the tolerances of the package, and nothing else was read.
pub proof fn a_run_is_of_its_case<
    B: ExecutionBackend,
    F: Fn(String, String, u64, u64) -> FloatReading,
>(backend: &B, read: F, request: GradeRequestView, test: TestCaseView, run: CaseRunView, i: int)
    requires
        may_run(backend, read, request, test, run),
    ensures
        backend.may_yield(
            (ExecutionRequestView {
                module: request.module,
                stdin: vstd::utf8::encode_utf8(test.stdin),
                args: test.args,
                limits: if test.limits is Some {
                    test.limits->0
                } else {
                    request.package.limits
                },
            }),
            run.result,
        ),
        run.result matches Ok(ran) ==> (ran.termination == (TerminationReasonView::Exited {
            code: 0,
        }) ==> {
            let want = words(test.expected_stdout);
            let got = words(lossy_text(ran.stdout));
            &&& !(request.package.checker is Float) ==> run.readings.len() == 0
            &&& request.package.checker matches CheckerView::Float { absolute, relative } ==> {
                &&& run.readings.len() == want.len()
                &&& 0 <= i < want.len() ==> exists|w: String, g: String, r: FloatReading|
                    {
                        &&& w@ == want[i]
                        &&& g@ == if i < got.len() {
                            got[i]
                        } else {
                            Seq::<char>::empty()
                        }
                        &&& r@ == run.readings[i]
                        &&& #[trigger] call_ensures(read, (w, g, absolute, relative), r)
                    }
            }
        }),
{
    if let Ok(ran) = run.result {
        if ran.termination == (TerminationReasonView::Exited { code: 0 }) {
            if let CheckerView::Float { absolute, relative } = request.package.checker {
                if 0 <= i < words(test.expected_stdout).len() {
                    let want = words(test.expected_stdout)[i];
                    let got = token_or_nothing(words(lossy_text(ran.stdout)), i);
                    let reading = run.readings[i];
                    assert(may_read(read, want, got, absolute, relative, reading));
                }
            }
        }
    }
}

/// What is recorded of a case that did not end well: that it was this case, what
/// the run took, the verdict of how it ended, and that in words.
pub proof fn a_case_that_ended_badly_is_told_how(
    checker: CheckerView,
    test: TestCaseView,
    run: CaseRunView,
)
    requires
        run.result is Ok,
        run.result->Ok_0.termination != (TerminationReasonView::Exited { code: 0 }),
    ensures
        ({
            let ran = run.result->Ok_0;
            let judgement = case_judgement(checker, test, run);
            &&& judgement is Ok
            &&& judgement->Ok_0.test_id == test.id
            &&& judgement->Ok_0.visibility == test.visibility
            &&& judgement->Ok_0.wall_ms == ran.wall_ms
            &&& judgement->Ok_0.fuel_consumed == ran.fuel_consumed
            &&& judgement->Ok_0.peak_memory_bytes == ran.peak_memory_bytes
            &&& match ran.termination {
                TerminationReasonView::Exited { code } => judgement->Ok_0.verdict
                    == Verdict::RuntimeError && judgement->Ok_0.detail == Some(
                    "the program exited with code "@ + dec_int(code as int),
                ),
                TerminationReasonView::Trapped { detail } => judgement->Ok_0.verdict
                    == Verdict::RuntimeError && judgement->Ok_0.detail == Some(
                    "the program aborted: "@ + detail,
                ),
                TerminationReasonView::LimitExceeded { violation } => match violation {
                    LimitViolation::Wall => judgement->Ok_0.verdict == Verdict::TimeLimitExceeded
                        && judgement->Ok_0.detail == Some(
                        "the program ran longer than the time limit"@,
                    ),
                    LimitViolation::Fuel => judgement->Ok_0.verdict == Verdict::TimeLimitExceeded
                        && judgement->Ok_0.detail == Some(
                        "the program did more work than the limit allows"@,
                    ),
                    LimitViolation::Memory => judgement->Ok_0.verdict
                        == Verdict::MemoryLimitExceeded && judgement->Ok_0.detail == Some(
                        "the program tried to use more memory than the limit allows"@,
                    ),
                    LimitViolation::Output => judgement->Ok_0.verdict
                        == Verdict::OutputLimitExceeded && judgement->Ok_0.detail == Some(
                        "the program printed more than the output limit allows"@,
                    ),
                },
            }
        }),
{
    crate::backend::termination_blames_the_program(run.result->Ok_0.termination);
}

/// A case that ended well is judged by what it printed, under the checker of the
/// package, and by nothing else: accepted with nothing to say, or a wrong answer
/// with what the comparison says; and where the comparison fails, so does the
/// judging. What a backend could not run is not judged at all.
pub proof fn a_case_that_ended_well_is_judged_by_its_output(
    checker: CheckerView,
    test: TestCaseView,
    run: CaseRunView,
)
    ensures
        run.result matches Err(error) ==> case_judgement(checker, test, run) == Err::<
            TestOutcomeView,
            JudgeErrorView,
        >(error),
        run.result matches Ok(ran) ==> (ran.termination == (TerminationReasonView::Exited {
            code: 0,
        }) ==> {
            let said = check_result(
                checker,
                test.expected_stdout,
                lossy_text(ran.stdout),
                run.readings,
            );
            let judgement = case_judgement(checker, test, run);
            &&& judgement matches Ok(outcome) ==> {
                &&& outcome.test_id == test.id
                &&& outcome.visibility == test.visibility
                &&& outcome.wall_ms == ran.wall_ms
                &&& outcome.fuel_consumed == ran.fuel_consumed
                &&& outcome.peak_memory_bytes == ran.peak_memory_bytes
                &&& outcome.verdict == Verdict::Accepted || outcome.verdict == Verdict::WrongAnswer
                &&& outcome.detail is None <==> outcome.verdict == Verdict::Accepted
            }
            &&& said matches Err(error) ==> judgement == Err::<TestOutcomeView, JudgeErrorView>(
                error,
            )
            &&& said is Ok ==> judgement is Ok
            &&& !(checker is Exact) && said is Ok ==> {
                &&& judgement->Ok_0.verdict == Verdict::Accepted <==> said->Ok_0 is Accepted
                &&& said->Ok_0 matches MatchView::Rejected { detail } ==> judgement->Ok_0.detail
                    == Some(detail)
            }
            &&& checker is Exact ==> {
                let wanted = vstd::utf8::encode_utf8(test.expected_stdout);
                &&& judgement->Ok_0.verdict == Verdict::Accepted <==> ran.stdout == wanted
                &&& ran.stdout != wanted && said->Ok_0 is Rejected ==> judgement->Ok_0.detail
                    == Some(said->Ok_0->detail)
                &&& ran.stdout != wanted && said->Ok_0 is Accepted ==> judgement->Ok_0.detail
                    == Some(difference_detail(wanted, ran.stdout))
            }
        }),
{
}

/// A manifest says of what it is: the job, the package and its version and
/// environment, how the module was come by, and each case that was run with what
/// its own run gave, under the checker of the package.
pub proof fn a_manifest_records_what_was_graded(request: GradeRequestView, runs: Seq<CaseRunView>)
    ensures
        request.package.fault() matches Some(why) ==> graded(request, runs) == Err::<
            ResultManifestView,
            JudgeErrorView,
        >(JudgeErrorView::MalformedPackage(why)),
        graded(request, runs) matches Ok(manifest) ==> {
            let at = played(request.package, runs, 0);
            &&& manifest.protocol_version == PROTOCOL_VERSION
            &&& manifest.job_id == request.job_id
            &&& manifest.trial_package_cid == request.trial_package_cid
            &&& manifest.trial_version == request.package.version
            &&& manifest.environment_id == request.package.environment.id
            &&& manifest.compiler_diagnostics == request.compiler_diagnostics
            &&& manifest.compile_ms == request.compile_ms
            &&& manifest.used_cached_artifact == request.used_cached_artifact
            &&& manifest.execution_ms == wall_total(manifest.tests)
            &&& at.len() == manifest.tests.len()
            &&& forall|i: int|
                #![trigger manifest.tests[i]]
                0 <= i < manifest.tests.len() ==> case_judgement(
                    request.package.checker,
                    ordered(request.package.tests)[at[i]],
                    runs[at[i]],
                ) == Ok::<TestOutcomeView, JudgeErrorView>(manifest.tests[i])
        },
{
    lemma_judged_cases(request.package, runs, 0);
}

/// The time of a grading is that of its cases together, as far as it can be
/// counted.
pub proof fn the_times_of_cases_add_up(
    before: Seq<TestOutcomeView>,
    last: TestOutcomeView,
)
    ensures
        wall_total(Seq::empty()) == 0,
        wall_total(before) as int + last.wall_ms <= u64::MAX ==> wall_total(before.push(last))
            == wall_total(before) + last.wall_ms,
        wall_total(before) as int + last.wall_ms > u64::MAX ==> wall_total(before.push(last))
            == u64::MAX,
{
    assert(before.push(last).drop_last() == before);
}

/// Where grading comes to an error though the package is sound, a case that it
/// got to could not be run or judged, and the error is that case's.
pub proof fn errors_of_gradings_are_errors_of_cases(
    request: GradeRequestView,
    runs: Seq<CaseRunView>,
)
    requires
        request.package.well_formed(),
    ensures
        graded(request, runs) matches Err(error) ==> exists|i: int|
            0 <= i < request.package.tests.len() && #[trigger] reached(request.package, runs, i)
                && case_judgement(
                request.package.checker,
                ordered(request.package.tests)[i],
                runs[i],
            ) == Err::<TestOutcomeView, JudgeErrorView>(error),
{
    crate::problem_format::accepted_iff_well_formed(request.package);
    if judged_cases(request.package, runs, 0) is Err {
        lemma_error_of_case(request.package, runs, 0);
    }
}

proof fn lemma_error_of_case(package: TrialPackageView, runs: Seq<CaseRunView>, from: int)
    requires
        0 <= from <= package.tests.len(),
        gets_to(package, runs, from),
        judged_cases(package, runs, from) is Err,
    ensures
        exists|i: int|
            from <= i < package.tests.len() && #[trigger] reached(package, runs, i)
                && case_judgement(package.checker, ordered(package.tests)[i], runs[i]) == Err::<
                TestOutcomeView,
                JudgeErrorView,
            >(judged_cases(package, runs, from)->Err_0),
    decreases package.tests.len() - from,
{
    let tests = ordered(package.tests);
    if !skipped(package, runs, from) && case_judgement(package.checker, tests[from], runs[from]) is Err {
        assert(reached(package, runs, from));
    } else {
        if !skipped(package, runs, from) {
            assert(goes_on(package, tests[from], runs[from]));
        }
        assert(gets_to(package, runs, from + 1));
        lemma_error_of_case(package, runs, from + 1);
    }
}

/// A case is left out exactly where its group stops at failures and a case before
/// it, of the same group, was judged and not accepted.
pub proof fn cases_are_left_out_after_a_failure_of_their_group(
    package: TrialPackageView,
    runs: Seq<CaseRunView>,
    i: int,
)
    ensures
        skipped(package, runs, i) <==> ordered(package.tests)[i].group is Some && (exists|k: int|
            0 <= k < package.groups.len() && #[trigger] package.groups[k].fail_fast
                && package.groups[k].name == ordered(package.tests)[i].group->0) && (exists|j: int|
            #![trigger runs[j]]
            0 <= j < i && ordered(package.tests)[j].group == ordered(package.tests)[i].group
                && case_judgement(package.checker, ordered(package.tests)[j], runs[j]) is Ok
                && case_judgement(
                package.checker,
                ordered(package.tests)[j],
                runs[j],
            )->Ok_0.verdict != Verdict::Accepted),
{
    let tests = ordered(package.tests);
    if let Some(name) = tests[i].group {
        if exists|k: int|
            0 <= k < package.groups.len() && #[trigger] package.groups[k].fail_fast
                && package.groups[k].name == name {
            let k = choose|k: int|
                0 <= k < package.groups.len() && #[trigger] package.groups[k].fail_fast
                    && package.groups[k].name == name;
            assert(package.groups[k].name == name);
            assert(group_fails_fast(package.groups, name));
        }
        if group_failed(package, runs, i, name) {
            let j = choose|j: int|
                0 <= j < i && tests[j].group == Some(name) && #[trigger] failed(
                    package,
                    tests[j],
                    runs[j],
                );
            let run = runs[j];
        }
        if exists|j: int|
            #![trigger runs[j]]
            0 <= j < i && tests[j].group == tests[i].group && case_judgement(
                package.checker,
                tests[j],
                runs[j],
            ) is Ok && case_judgement(package.checker, tests[j], runs[j])->Ok_0.verdict
                != Verdict::Accepted {
            let j = choose|j: int|
                #![trigger runs[j]]
                0 <= j < i && tests[j].group == tests[i].group && case_judgement(
                    package.checker,
                    tests[j],
                    runs[j],
                ) is Ok && case_judgement(package.checker, tests[j], runs[j])->Ok_0.verdict
                    != Verdict::Accepted;
            assert(failed(package, tests[j], runs[j]));
        }
    }
}

/// Whether a case ends the grading: in a package that stops at failures any case
/// that is not accepted does, and in another none that can be judged.
pub proof fn what_ends_a_grading(
    package: TrialPackageView,
    test: TestCaseView,
    run: CaseRunView,
)
    ensures
        case_judgement(package.checker, test, run) is Err ==> !goes_on(package, test, run),
        case_judgement(package.checker, test, run) matches Ok(outcome) ==> (goes_on(
            package,
            test,
            run,
        ) <==> !package.fail_fast || outcome.verdict == Verdict::Accepted),
{
    if let Ok(ran) = run.result {
        crate::backend::termination_blames_the_program(ran.termination);
    }
}

/// A manifest of a submission of which no case was run says of what it is, what
/// the verdict is and what the compiler said, and has nothing else on record.
pub proof fn manifests_without_a_run_have_no_case(
    job_id: Seq<char>,
    trial_package_cid: Seq<char>,
    package: TrialPackageView,
    verdict: Verdict,
    diagnostics: Option<Seq<char>>,
    compile_ms: u64,
)
    ensures
        ({
            let manifest = unrun_manifest(
                job_id,
                trial_package_cid,
                package,
                verdict,
                diagnostics,
                compile_ms,
            );
            &&& manifest.protocol_version == PROTOCOL_VERSION
            &&& manifest.job_id == job_id
            &&& manifest.trial_package_cid == trial_package_cid
            &&& manifest.trial_version == package.version
            &&& manifest.environment_id == package.environment.id
            &&& manifest.verdict == verdict
            &&& manifest.compiler_diagnostics == diagnostics
            &&& manifest.compile_ms == compile_ms
            &&& manifest.tests.len() == 0
            &&& manifest.execution_ms == 0
            &&& !manifest.used_cached_artifact
        }),
{
}

/// A manifest may be published exactly where no hidden case on it has a name of
/// its own or a reason.
pub proof fn what_may_be_published(manifest: ResultManifestView)
    ensures
        manifest_is_safe(manifest) <==> forall|i: int|
            0 <= i < manifest.tests.len() && #[trigger] manifest.tests[i].visibility
                == Visibility::Hidden ==> manifest.tests[i].detail is None
                && manifest.tests[i].test_id == seq!['h', 'i', 'd', 'd', 'e', 'n'],
{
    reveal_strlit("hidden");
    assert("hidden"@ == seq!['h', 'i', 'd', 'd', 'e', 'n']);
    if manifest_is_safe(manifest) {
        assert forall|i: int|
            0 <= i < manifest.tests.len() && #[trigger] manifest.tests[i].visibility
                == Visibility::Hidden implies manifest.tests[i].detail is None
            && manifest.tests[i].test_id == "hidden"@ by {
            assert(outcome_is_safe(manifest.tests[i]));
        }
    } else {
        let i = choose|i: int|
            0 <= i < manifest.tests.len() && !outcome_is_safe(#[trigger] manifest.tests[i]);
        assert(manifest.tests[i].visibility == Visibility::Hidden);
    }
}

/// A request says what it holds.
pub proof fn requests_for_grading_say_what_they_hold(request: GradeRequest<'_>)
    ensures
        request@.job_id == request.job_id@,
        request@.trial_package_cid == request.trial_package_cid@,
        request@.module == request.module@,
        request@.package == request.package@,
        request.compiler_diagnostics matches Some(said) ==> request@.compiler_diagnostics == Some(
            said@,
        ),
        request.compiler_diagnostics is None ==> request@.compiler_diagnostics is None,
        request@.compile_ms == request.compile_ms,
        request@.used_cached_artifact == request.used_cached_artifact,
{
}

} // verus!
