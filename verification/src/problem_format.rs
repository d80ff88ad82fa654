//! The Trial package format.
//!
//! A Trial package is the immutable, content-addressed unit the judge executes.
//! It is addressed by BLAKE3 CID and fetched from the data plane.
//!
//! # Format version
//!
//! [`FORMAT_VERSION`] is independent of this crate's version. Changing the
//! meaning of any field without bumping it is a breaking-change incident.
//!
//! # Public and hidden tests
//!
//! A package carries [`TestCase`]s marked [`Visibility::Public`] or
//! [`Visibility::Hidden`]. A package handed to a non-trusted worker is
//! [`TrialPackage::public_only`] - the hidden cases are not merely flagged, they
//! are **removed**, so there is nothing on that worker to leak.

use vstd::prelude::*;

use crate::checker::{bits_nan, is_nan};
use crate::error::{judged, JudgeError, JudgeErrorView};
use crate::limits::Limits;
use crate::text::{
    copy_text, copy_texts, is_text_less, joined, push_decimal, same_text, text_less, texts,
};
use crate::verdict::Verdict;

verus! {

/// Version of this package format.
pub const FORMAT_VERSION: u32 = 1;

/// Whether a test case may be shown to the submitter.
#[derive(Debug, Clone, Copy, PartialEq, Eq, Structural, PartialOrd, Ord)]
pub enum Visibility {
    /// Shown in the UI and runnable locally.
    Public,
    /// Authoritative. Never leaves trusted infrastructure.
    Hidden,
}

/// How a test's output is compared to the expected output.
#[derive(Debug)]
pub enum Checker {
    /// Byte-for-byte equality.
    Exact,
    /// Equality after trimming trailing whitespace on each line and at the end.
    ///
    /// The default, because a missing trailing newline is not a wrong answer and
    /// teaching someone otherwise is teaching them nothing.
    TrimmedLines,
    /// Whitespace-separated token comparison.
    Tokens,
    /// Numeric comparison with a tolerance.
    Float {
        /// Absolute tolerance: the bits of an IEEE 754 double.
        absolute: u64,
        /// Relative tolerance: the bits of an IEEE 754 double.
        relative: u64,
    },
    /// A checker program supplied by the package.
    ///
    /// Status: **PLANNED**. The format reserves the shape; the grader rejects it
    /// rather than silently accepting every submission.
    Custom {
        /// CID of the checker module in the data plane.
        module_cid: String,
    },
}

/// What a [`Checker`] says.
#[verifier::ext_equal]
pub enum CheckerView {
    Exact,
    TrimmedLines,
    Tokens,
    Float { absolute: u64, relative: u64 },
    Custom { module_cid: Seq<char> },
}

impl View for Checker {
    type V = CheckerView;

    open spec fn view(&self) -> CheckerView {
        match *self {
            Checker::Exact => CheckerView::Exact,
            Checker::TrimmedLines => CheckerView::TrimmedLines,
            Checker::Tokens => CheckerView::Tokens,
            Checker::Float { absolute, relative } => CheckerView::Float { absolute, relative },
            Checker::Custom { module_cid } => CheckerView::Custom { module_cid: module_cid@ },
        }
    }
}

/// Whether two doubles, given by their bits, are equal as numbers: the two zeros
/// are, and a NaN equals nothing.
pub open spec fn equal_bits(a: u64, b: u64) -> bool {
    !bits_nan(a) && !bits_nan(b) && (a == b || (a % 0x8000_0000_0000_0000 == 0 && b
        % 0x8000_0000_0000_0000 == 0))
}

/// Whether two checkers are equal: the same one, with equal tolerances or the
/// same module.
pub open spec fn equal_checkers(a: CheckerView, b: CheckerView) -> bool {
    match (a, b) {
        (
            CheckerView::Float { absolute, relative },
            CheckerView::Float { absolute: absolute_b, relative: relative_b },
        ) => equal_bits(absolute, absolute_b) && equal_bits(relative, relative_b),
        _ => a == b,
    }
}

impl PartialEq for Checker {
    fn eq(&self, other: &Checker) -> (same: bool) {
        match (self, other) {
            (Checker::Exact, Checker::Exact) => true,
            (Checker::TrimmedLines, Checker::TrimmedLines) => true,
            (Checker::Tokens, Checker::Tokens) => true,
            (
                Checker::Float { absolute, relative },
                Checker::Float { absolute: absolute_b, relative: relative_b },
            ) => same_number(*absolute, *absolute_b) && same_number(*relative, *relative_b),
            (
                Checker::Custom { module_cid },
                Checker::Custom { module_cid: module_cid_b },
            ) => same_text(module_cid.as_str(), module_cid_b.as_str()),
            _ => false,
        }
    }
}

impl vstd::std_specs::cmp::PartialEqSpecImpl for Checker {
    open spec fn obeys_eq_spec() -> bool {
        true
    }

    open spec fn eq_spec(&self, other: &Checker) -> bool {
        equal_checkers(self@, other@)
    }
}

fn same_number(a: u64, b: u64) -> (same: bool)
    ensures
        same == equal_bits(a, b),
{
    !is_nan(a) && !is_nan(b) && (a == b || (a % 0x8000_0000_0000_0000 == 0 && b
        % 0x8000_0000_0000_0000 == 0))
}

impl Default for Checker {
    fn default() -> (checker: Checker)
        ensures
            checker == Checker::TrimmedLines,
    {
        Checker::TrimmedLines
    }
}

impl Clone for Checker {
    fn clone(&self) -> (copy: Checker)
        ensures
            copy@ == self@,
    {
        match self {
            Checker::Exact => Checker::Exact,
            Checker::TrimmedLines => Checker::TrimmedLines,
            Checker::Tokens => Checker::Tokens,
            Checker::Float { absolute, relative } => Checker::Float {
                absolute: *absolute,
                relative: *relative,
            },
            Checker::Custom { module_cid } => Checker::Custom {
                module_cid: copy_text(module_cid.as_str()),
            },
        }
    }
}

/// Whether the bits of a double are those of a finite number: the exponent
/// field is not all ones.
pub open spec fn bits_finite(bits: u64) -> bool {
    (bits / 0x10_0000_0000_0000) % 2048 != 2047
}

/// Whether the bits of a double, not those of a NaN, are below zero: the sign
/// is set and something else is.
pub open spec fn bits_negative(bits: u64) -> bool {
    bits > 0x8000_0000_0000_0000
}

/// One test case.
#[derive(Debug, PartialEq)]
pub struct TestCase {
    /// Stable identifier, unique within the package.
    pub id: String,
    /// Whether it may be shown to the submitter.
    pub visibility: Visibility,
    /// Bytes written to the program's stdin.
    pub stdin: String,
    /// Expected stdout.
    pub expected_stdout: String,
    /// Command-line arguments.
    pub args: Vec<String>,
    /// Group this case belongs to, if any.
    pub group: Option<String>,
    /// Per-case limit overrides.
    pub limits: Option<Limits>,
}

/// What a [`TestCase`] says.
#[verifier::ext_equal]
pub struct TestCaseView {
    pub id: Seq<char>,
    pub visibility: Visibility,
    pub stdin: Seq<char>,
    pub expected_stdout: Seq<char>,
    pub args: Seq<Seq<char>>,
    pub group: Option<Seq<char>>,
    pub limits: Option<Limits>,
}

/// The characters of a string that may be missing.
pub open spec fn text_option(text: Option<String>) -> Option<Seq<char>> {
    match text {
        Some(t) => Some(t@),
        None => None,
    }
}

impl View for TestCase {
    type V = TestCaseView;

    open spec fn view(&self) -> TestCaseView {
        TestCaseView {
            id: self.id@,
            visibility: self.visibility,
            stdin: self.stdin@,
            expected_stdout: self.expected_stdout@,
            args: texts(self.args@),
            group: text_option(self.group),
            limits: self.limits,
        }
    }
}

impl Clone for TestCase {
    fn clone(&self) -> (copy: TestCase)
        ensures
            copy@ == self@,
    {
        TestCase {
            id: copy_text(self.id.as_str()),
            visibility: self.visibility,
            stdin: copy_text(self.stdin.as_str()),
            expected_stdout: copy_text(self.expected_stdout.as_str()),
            args: copy_texts(&self.args),
            group: match &self.group {
                Some(group) => Some(copy_text(group.as_str())),
                None => None,
            },
            limits: self.limits,
        }
    }
}

/// A group of test cases, scored and short-circuited together.
#[derive(Debug, PartialEq)]
pub struct Group {
    /// Group name, referenced by [`TestCase::group`].
    pub name: String,
    /// Points awarded when every case in the group passes.
    pub points: u32,
    /// Stop running this group at its first failure.
    pub fail_fast: bool,
}

/// What a [`Group`] says.
#[verifier::ext_equal]
pub struct GroupView {
    pub name: Seq<char>,
    pub points: u32,
    pub fail_fast: bool,
}

impl View for Group {
    type V = GroupView;

    open spec fn view(&self) -> GroupView {
        GroupView { name: self.name@, points: self.points, fail_fast: self.fail_fast }
    }
}

impl Clone for Group {
    fn clone(&self) -> (copy: Group)
        ensures
            copy@ == self@,
    {
        Group {
            name: copy_text(self.name.as_str()),
            points: self.points,
            fail_fast: self.fail_fast,
        }
    }
}

/// The execution environment a package requires.
///
/// Recorded so a verdict can be reproduced later. A submission judged under a
/// different toolchain is not the same submission.
///
/// This is **not** the judge's own MSRV. It is the Rust version learners write
/// against, which is a product decision made in the content repository. The
/// judge binary currently requires a newer toolchain to build than the one it
/// compiles submissions with, and those two numbers move independently.
#[derive(Debug, PartialEq, Eq)]
pub struct Environment {
    /// Opaque identifier, e.g. `"rust-1.88-wasm32-wasip1"`.
    pub id: String,
    /// Rust edition, e.g. `"2021"`.
    pub edition: String,
    /// Toolchain channel or exact version.
    pub toolchain: String,
    /// Target triple.
    pub target: String,
}

/// What an [`Environment`] says.
#[verifier::ext_equal]
pub struct EnvironmentView {
    pub id: Seq<char>,
    pub edition: Seq<char>,
    pub toolchain: Seq<char>,
    pub target: Seq<char>,
}

impl View for Environment {
    type V = EnvironmentView;

    open spec fn view(&self) -> EnvironmentView {
        EnvironmentView {
            id: self.id@,
            edition: self.edition@,
            toolchain: self.toolchain@,
            target: self.target@,
        }
    }
}

/// The environment packages require unless they say otherwise.
pub open spec fn default_environment() -> EnvironmentView {
    EnvironmentView {
        id: "rust-1.88-wasm32-wasip1"@,
        edition: "2021"@,
        toolchain: "1.88"@,
        target: "wasm32-wasip1"@,
    }
}

impl Default for Environment {
    fn default() -> (environment: Environment)
        ensures
            environment@ == default_environment(),
    {
        Environment {
            id: "rust-1.88-wasm32-wasip1".to_owned(),
            edition: "2021".to_owned(),
            toolchain: "1.88".to_owned(),
            target: "wasm32-wasip1".to_owned(),
        }
    }
}

impl Clone for Environment {
    fn clone(&self) -> (copy: Environment)
        ensures
            copy@ == self@,
    {
        Environment {
            id: copy_text(self.id.as_str()),
            edition: copy_text(self.edition.as_str()),
            toolchain: copy_text(self.toolchain.as_str()),
            target: copy_text(self.target.as_str()),
        }
    }
}

/// How a package is judged overall.
#[derive(Debug, Clone, Copy, PartialEq, Eq, Structural)]
pub enum Scoring {
    /// Every case must pass. The default for Trials.
    AllOrNothing,
    /// Points accumulate per passing group.
    GroupPoints,
}

/// Interaction mode.
#[derive(Debug, Clone, Copy, PartialEq, Eq, Structural)]
pub enum Mode {
    /// Fixed stdin, compare stdout.
    Batch,
    /// Two-way conversation with a judge program.
    ///
    /// Status: **PLANNED**. Reserved so adding it later is not a format break.
    Interactive,
}

impl Default for Mode {
    fn default() -> (mode: Mode)
        ensures
            mode == Mode::Batch,
    {
        Mode::Batch
    }
}

/// A complete Trial package.
#[derive(Debug, PartialEq)]
pub struct TrialPackage {
    /// Format version. Must equal [`FORMAT_VERSION`].
    pub format_version: u32,
    /// Trial slug, for diagnostics.
    pub slug: String,
    /// Trial content version.
    pub version: u32,
    /// Interaction mode.
    pub mode: Mode,
    /// Required environment.
    pub environment: Environment,
    /// Default limits, overridable per case.
    pub limits: Limits,
    /// Output comparison.
    pub checker: Checker,
    /// Overall scoring.
    pub scoring: Scoring,
    /// Stop at the first failing case across the whole package.
    pub fail_fast: bool,
    /// Groups.
    pub groups: Vec<Group>,
    /// Test cases.
    pub tests: Vec<TestCase>,
}

/// What a [`TrialPackage`] says.
#[verifier::ext_equal]
pub struct TrialPackageView {
    pub format_version: u32,
    pub slug: Seq<char>,
    pub version: u32,
    pub mode: Mode,
    pub environment: EnvironmentView,
    pub limits: Limits,
    pub checker: CheckerView,
    pub scoring: Scoring,
    pub fail_fast: bool,
    pub groups: Seq<GroupView>,
    pub tests: Seq<TestCaseView>,
}

/// What the cases of a list say.
pub open spec fn case_views(tests: Seq<TestCase>) -> Seq<TestCaseView> {
    Seq::new(tests.len(), |i: int| tests[i]@)
}

/// What the cases that a list points to say.
pub open spec fn case_ref_views(tests: Seq<&TestCase>) -> Seq<TestCaseView> {
    Seq::new(tests.len(), |i: int| tests[i]@)
}

/// What the groups of a list say.
pub open spec fn group_views(groups: Seq<Group>) -> Seq<GroupView> {
    Seq::new(groups.len(), |i: int| groups[i]@)
}

impl View for TrialPackage {
    type V = TrialPackageView;

    open spec fn view(&self) -> TrialPackageView {
        TrialPackageView {
            format_version: self.format_version,
            slug: self.slug@,
            version: self.version,
            mode: self.mode,
            environment: self.environment@,
            limits: self.limits,
            checker: self.checker@,
            scoring: self.scoring,
            fail_fast: self.fail_fast,
            groups: group_views(self.groups@),
            tests: case_views(self.tests@),
        }
    }
}

// ---------------------------------------------------------------------------
// Well-formed packages
// ---------------------------------------------------------------------------

/// Whether some group has a name.
pub open spec fn names_group(groups: Seq<GroupView>, name: Seq<char>) -> bool {
    exists|i: int| 0 <= i < groups.len() && #[trigger] groups[i].name == name
}

/// Whether no two groups share a name.
pub open spec fn distinct_names(groups: Seq<GroupView>) -> bool {
    forall|i: int, j: int|
        0 <= i < j < groups.len() ==> #[trigger] groups[i].name != #[trigger] groups[j].name
}

/// Whether a case is sound by itself, among the groups of its package.
pub open spec fn case_sound(test: TestCaseView, groups: Seq<GroupView>) -> bool {
    &&& test.id.len() > 0
    &&& test.limits matches Some(limits) ==> limits.bounded()
    &&& test.group matches Some(group) ==> names_group(groups, group)
}

/// Whether one of the first `n` cases has an id.
pub open spec fn id_used(tests: Seq<TestCaseView>, n: int, id: Seq<char>) -> bool {
    exists|i: int| 0 <= i < n && #[trigger] tests[i].id == id
}

impl TrialPackageView {
    /// Whether no two groups share a name.
    pub open spec fn groups_distinct(self) -> bool {
        distinct_names(self.groups)
    }

    /// Whether no two cases share an id.
    pub open spec fn ids_distinct(self) -> bool {
        forall|i: int, j: int|
            0 <= i < j < self.tests.len() ==> #[trigger] self.tests[i].id
                != #[trigger] self.tests[j].id
    }

    /// Whether the tolerances of a float checker are finite and not negative.
    pub open spec fn tolerances_sound(self) -> bool {
        self.checker matches CheckerView::Float { absolute, relative } ==> {
            &&& bits_finite(absolute)
            &&& bits_finite(relative)
            &&& !bits_negative(absolute)
            &&& !bits_negative(relative)
        }
    }

    /// Whether some case is public.
    pub open spec fn has_public(self) -> bool {
        exists|i: int|
            0 <= i < self.tests.len() && #[trigger] self.tests[i].visibility == Visibility::Public
    }

    /// Whether some case is hidden.
    pub open spec fn has_hidden(self) -> bool {
        exists|i: int|
            0 <= i < self.tests.len() && #[trigger] self.tests[i].visibility == Visibility::Hidden
    }

    /// Structural and referential integrity.
    pub open spec fn well_formed(self) -> bool {
        &&& self.format_version == FORMAT_VERSION
        &&& self.slug.len() > 0
        &&& self.version > 0
        &&& self.tests.len() > 0
        &&& self.limits.bounded()
        &&& self.groups_distinct()
        &&& self.ids_distinct()
        &&& forall|i: int|
            0 <= i < self.tests.len() ==> case_sound(#[trigger] self.tests[i], self.groups)
        &&& self.scoring == Scoring::GroupPoints ==> self.groups.len() > 0
        &&& self.tolerances_sound()
        &&& self.has_public()
    }

    /// What is wrong with the `i`-th case, given the cases before it.
    pub open spec fn case_fault(self, i: int) -> Option<Seq<char>> {
        let test = self.tests[i];
        if test.id.len() == 0 {
            Some("every test needs a non-empty id"@)
        } else if id_used(self.tests, i, test.id) {
            Some("duplicate test id `"@ + test.id + "`"@)
        } else if test.limits is Some && !test.limits->0.bounded() {
            Some("limits for test `"@ + test.id + "`: "@ + test.limits->0.complaint())
        } else if test.group is Some && !names_group(self.groups, test.group->0) {
            Some("test `"@ + test.id + "` references unknown group `"@ + test.group->0 + "`"@)
        } else {
            None
        }
    }

    /// What is wrong with the first faulty case from the `i`-th on.
    pub open spec fn cases_fault(self, i: int) -> Option<Seq<char>>
        decreases self.tests.len() - i,
    {
        if i >= self.tests.len() {
            None
        } else if self.case_fault(i) is Some {
            self.case_fault(i)
        } else {
            self.cases_fault(i + 1)
        }
    }

    /// What is wrong with a package: the first complaint, in the order in which
    /// a package is read.
    pub open spec fn fault(self) -> Option<Seq<char>> {
        if self.format_version != FORMAT_VERSION {
            Some(
                "format_version "@ + crate::text::dec(self.format_version as nat)
                    + " is not supported (expected 1)"@,
            )
        } else if self.slug.len() == 0 {
            Some("slug must not be empty"@)
        } else if self.version == 0 {
            Some("version must be at least 1"@)
        } else if self.tests.len() == 0 {
            Some("a package must contain at least one test"@)
        } else if !self.limits.bounded() {
            Some("package limits: "@ + self.limits.complaint())
        } else if !self.groups_distinct() {
            Some("group names must be unique"@)
        } else if self.cases_fault(0) is Some {
            self.cases_fault(0)
        } else if self.scoring == Scoring::GroupPoints && self.groups.len() == 0 {
            Some("group_points scoring requires at least one group"@)
        } else if !self.tolerances_sound() {
            Some("float tolerances must be finite and non-negative"@)
        } else if !self.has_public() {
            Some("a package must expose at least one public test"@)
        } else {
            None
        }
    }

    /// The limits that apply to a case.
    pub open spec fn limits_of(self, test: TestCaseView) -> Limits {
        match test.limits {
            Some(limits) => limits,
            None => self.limits,
        }
    }

    /// The package without its hidden cases.
    pub open spec fn publicly(self) -> TrialPackageView {
        TrialPackageView {
            tests: with_visibility(self.tests, Visibility::Public),
            ..self
        }
    }
}

proof fn lemma_cases_fault(package: TrialPackageView, i: int)
    requires
        0 <= i,
    ensures
        package.cases_fault(i) is None <==> forall|j: int|
            i <= j < package.tests.len() ==> package.case_fault(j) is None,
    decreases package.tests.len() - i,
{
    if i < package.tests.len() {
        lemma_cases_fault(package, i + 1);
        if package.cases_fault(i) is None {
            assert forall|j: int| i <= j < package.tests.len() implies package.case_fault(j) is None by {
                assert(j == i || j >= i + 1);
            }
        }
    }
}

/// A package is accepted exactly when it has structural and referential
/// integrity; otherwise something is said about it.
pub proof fn accepted_iff_well_formed(package: TrialPackageView)
    ensures
        package.fault() is None <==> package.well_formed(),
{
    lemma_cases_fault(package, 0);
    if package.fault() is None {
        assert forall|i: int| 0 <= i < package.tests.len() implies case_sound(
            #[trigger] package.tests[i],
            package.groups,
        ) by {
            assert(package.case_fault(i) is None);
        }
        assert forall|i: int, j: int| 0 <= i < j < package.tests.len() implies #[trigger] package.tests[i].id
            != #[trigger] package.tests[j].id by {
            assert(package.case_fault(j) is None);
        }
    }
    if package.well_formed() {
        assert forall|j: int| 0 <= j < package.tests.len() implies package.case_fault(j) is None by {
            assert(case_sound(package.tests[j], package.groups));
        }
    }
}

impl TrialPackage {
    /// Validate structural and referential integrity.
    ///
    /// A malformed package is a **judge** error, never a compile error: the
    /// submitter did not write it and must never be blamed for it.
    #[verifier::loop_isolation(false)]
    pub fn validate(&self) -> (result: Result<(), JudgeError>)
        ensures
            judged(result) == match self@.fault() {
                Some(why) => Err(JudgeErrorView::MalformedPackage(why)),
                None => Ok(()),
            },
            result is Ok <==> self@.well_formed(),
    {
        proof {
            accepted_iff_well_formed(self@);
        }
        if self.format_version != FORMAT_VERSION {
            let mut why = "format_version ".to_owned();
            push_decimal(&mut why, self.format_version as u64);
            why.append(" is not supported (expected 1)");
            return Err(JudgeError::MalformedPackage(why));
        }
        if is_empty_text(self.slug.as_str()) {
            return malformed("slug must not be empty");
        }
        if self.version == 0 {
            return malformed("version must be at least 1");
        }
        if self.tests.len() == 0 {
            return malformed("a package must contain at least one test");
        }
        match self.limits.validate() {
            Err(why) => {
                return Err(JudgeError::MalformedPackage(joined("package limits: ", why)));
            },
            Ok(_) => {},
        }
        if !names_distinct(&self.groups) {
            return malformed("group names must be unique");
        }
        let mut i: usize = 0;
        while i < self.tests.len()
            invariant
                i <= self.tests@.len(),
                self@.cases_fault(i as int) == self@.cases_fault(0),
            decreases self.tests@.len() - i,
        {
            assert(self@.tests[i as int] == self.tests@[i as int]@);
            match self.complain_about(i) {
                Some(why) => {
                    return Err(JudgeError::MalformedPackage(why));
                },
                None => {},
            }
            i += 1;
        }
        if self.scoring == Scoring::GroupPoints && self.groups.len() == 0 {
            return malformed("group_points scoring requires at least one group");
        }
        match &self.checker {
            Checker::Float { absolute, relative } => {
                if !is_tolerance(*absolute) || !is_tolerance(*relative) {
                    return malformed("float tolerances must be finite and non-negative");
                }
            },
            _ => {},
        }
        if !self.has_visibility(Visibility::Public) {
            return malformed("a package must expose at least one public test");
        }
        Ok(())
    }

    /// What is wrong with one case, given the cases before it.
    fn complain_about(&self, i: usize) -> (why: Option<String>)
        requires
            i < self.tests@.len(),
        ensures
            text_option(why) == self@.case_fault(i as int),
    {
        let test = &self.tests[i];
        assert(self@.tests[i as int] == test@);
        if is_empty_text(test.id.as_str()) {
            return Some("every test needs a non-empty id".to_owned());
        }
        let mut j: usize = 0;
        while j < i
            invariant
                j <= i < self.tests@.len(),
                test == self.tests@[i as int],
                self@.tests[i as int] == test@,
                test@.id.len() > 0,
                forall|k: int| 0 <= k < j ==> self@.tests[k].id != test@.id,
            decreases i - j,
        {
            assert(self@.tests[j as int] == self.tests@[j as int]@);
            if same_text(self.tests[j].id.as_str(), test.id.as_str()) {
                assert(self@.tests[j as int].id == test@.id);
                let mut why = joined("duplicate test id `", test.id.as_str());
                why.append("`");
                return Some(why);
            }
            j += 1;
        }
        assert(!id_used(self@.tests, i as int, test@.id));
        if let Some(limits) = &test.limits {
            if let Err(complaint) = limits.validate() {
                let mut why = joined("limits for test `", test.id.as_str());
                why.append("`: ");
                why.append(complaint);
                return Some(why);
            }
        }
        if let Some(group) = &test.group {
            if !has_group(&self.groups, group.as_str()) {
                let mut why = joined("test `", test.id.as_str());
                why.append("` references unknown group `");
                why.append(group.as_str());
                why.append("`");
                return Some(why);
            }
        }
        None
    }

    /// Whether some case has a visibility.
    fn has_visibility(&self, visibility: Visibility) -> (yes: bool)
        ensures
            yes == exists|i: int|
                0 <= i < self@.tests.len() && #[trigger] self@.tests[i].visibility == visibility,
    {
        let mut i: usize = 0;
        while i < self.tests.len()
            invariant
                i <= self.tests@.len(),
                forall|j: int| 0 <= j < i ==> #[trigger] self@.tests[j].visibility != visibility,
            decreases self.tests@.len() - i,
        {
            assert(self@.tests[i as int] == self.tests@[i as int]@);
            if self.tests[i].visibility == visibility {
                return true;
            }
            i += 1;
        }
        false
    }

    /// The limits that apply to `test`.
    pub fn limits_for(&self, test: &TestCase) -> (limits: Limits)
        ensures
            limits == self@.limits_of(test@),
    {
        match test.limits {
            Some(limits) => limits,
            None => self.limits,
        }
    }

    /// Whether the package contains any hidden test.
    pub fn has_hidden_tests(&self) -> (yes: bool)
        ensures
            yes == self@.has_hidden(),
    {
        self.has_visibility(Visibility::Hidden)
    }
}

fn malformed(why: &str) -> (result: Result<(), JudgeError>)
    ensures
        judged(result) == Err::<(), JudgeErrorView>(JudgeErrorView::MalformedPackage(why@)),
{
    Err(JudgeError::MalformedPackage(why.to_owned()))
}

fn is_empty_text(s: &str) -> (yes: bool)
    ensures
        yes == (s@.len() == 0),
{
    s.is_empty()
}

fn is_tolerance(bits: u64) -> (yes: bool)
    ensures
        yes == (bits_finite(bits) && !bits_negative(bits)),
{
    (bits / 0x10_0000_0000_0000) % 2048 != 2047 && !(bits > 0x8000_0000_0000_0000)
}

fn has_group(groups: &Vec<Group>, name: &str) -> (yes: bool)
    ensures
        yes == names_group(group_views(groups@), name@),
{
    let ghost views = group_views(groups@);
    let mut i: usize = 0;
    while i < groups.len()
        invariant
            i <= groups@.len(),
            views == group_views(groups@),
            forall|j: int| 0 <= j < i ==> #[trigger] views[j].name != name@,
        decreases groups@.len() - i,
    {
        assert(views[i as int] == groups@[i as int]@);
        if same_text(groups[i].name.as_str(), name) {
            assert(views[i as int].name == name@);
            return true;
        }
        i += 1;
    }
    false
}

fn names_distinct(groups: &Vec<Group>) -> (yes: bool)
    ensures
        yes == distinct_names(group_views(groups@)),
{
    let ghost views = group_views(groups@);
    let mut j: usize = 0;
    while j < groups.len()
        invariant
            j <= groups@.len(),
            views == group_views(groups@),
            forall|a: int, b: int| 0 <= a < b < j ==> #[trigger] views[a].name != #[trigger] views[b].name,
        decreases groups@.len() - j,
    {
        assert(views[j as int] == groups@[j as int]@);
        let mut i: usize = 0;
        while i < j
            invariant
                i <= j < groups@.len(),
                views == group_views(groups@),
                views[j as int] == groups@[j as int]@,
                forall|a: int| 0 <= a < i ==> #[trigger] views[a].name != views[j as int].name,
            decreases j - i,
        {
            assert(views[i as int] == groups@[i as int]@);
            if same_text(groups[i].name.as_str(), groups[j].name.as_str()) {
                assert(views[i as int].name == views[j as int].name);
                return false;
            }
            i += 1;
        }
        j += 1;
    }
    true
}

// ---------------------------------------------------------------------------
// Copies, and the package a non-trusted worker receives
// ---------------------------------------------------------------------------

fn copy_groups(groups: &Vec<Group>) -> (copy: Vec<Group>)
    ensures
        group_views(copy@) == group_views(groups@),
{
    let mut copy: Vec<Group> = Vec::new();
    let mut i: usize = 0;
    while i < groups.len()
        invariant
            i <= groups@.len(),
            group_views(copy@) == group_views(groups@).take(i as int),
        decreases groups@.len() - i,
    {
        let ghost before = copy@;
        copy.push(groups[i].clone());
        assert(group_views(copy@) == group_views(before).push(groups@[i as int]@));
        i += 1;
    }
    assert(group_views(groups@).take(i as int) == group_views(groups@));
    copy
}

fn copy_cases(tests: &Vec<TestCase>) -> (copy: Vec<TestCase>)
    ensures
        case_views(copy@) == case_views(tests@),
{
    let mut copy: Vec<TestCase> = Vec::new();
    let mut i: usize = 0;
    while i < tests.len()
        invariant
            i <= tests@.len(),
            case_views(copy@) == case_views(tests@).take(i as int),
        decreases tests@.len() - i,
    {
        let ghost before = copy@;
        copy.push(tests[i].clone());
        assert(case_views(copy@) == case_views(before).push(tests@[i as int]@));
        i += 1;
    }
    assert(case_views(tests@).take(i as int) == case_views(tests@));
    copy
}

fn copy_public_cases(tests: &Vec<TestCase>) -> (copy: Vec<TestCase>)
    ensures
        case_views(copy@) == with_visibility(case_views(tests@), Visibility::Public),
{
    let ghost views = case_views(tests@);
    let mut copy: Vec<TestCase> = Vec::new();
    let mut i: usize = 0;
    assert(case_views(copy@) == with_visibility(views.take(0), Visibility::Public));
    while i < tests.len()
        invariant
            i <= tests@.len(),
            views == case_views(tests@),
            case_views(copy@) == with_visibility(views.take(i as int), Visibility::Public),
        decreases tests@.len() - i,
    {
        let ghost before = copy@;
        assert(views.take(i + 1).drop_last() == views.take(i as int));
        assert(views.take(i + 1).last() == tests@[i as int]@);
        if tests[i].visibility == Visibility::Public {
            copy.push(tests[i].clone());
            assert(case_views(copy@) == case_views(before).push(tests@[i as int]@));
        }
        i += 1;
    }
    assert(views.take(i as int) == views);
    copy
}

impl Clone for TrialPackage {
    fn clone(&self) -> (copy: TrialPackage)
        ensures
            copy@ == self@,
    {
        TrialPackage {
            format_version: self.format_version,
            slug: copy_text(self.slug.as_str()),
            version: self.version,
            mode: self.mode,
            environment: self.environment.clone(),
            limits: self.limits,
            checker: self.checker.clone(),
            scoring: self.scoring,
            fail_fast: self.fail_fast,
            groups: copy_groups(&self.groups),
            tests: copy_cases(&self.tests),
        }
    }
}

impl TrialPackage {
    /// A copy with every hidden test **removed**.
    ///
    /// This is what a non-trusted worker receives. The hidden cases are deleted
    /// rather than flagged, because a flag protects nothing once the bytes are
    /// on someone else's machine.
    pub fn public_only(&self) -> (package: TrialPackage)
        ensures
            package@ == self@.publicly(),
    {
        TrialPackage {
            format_version: self.format_version,
            slug: copy_text(self.slug.as_str()),
            version: self.version,
            mode: self.mode,
            environment: self.environment.clone(),
            limits: self.limits,
            checker: self.checker.clone(),
            scoring: self.scoring,
            fail_fast: self.fail_fast,
            groups: copy_groups(&self.groups),
            tests: copy_public_cases(&self.tests),
        }
    }

    /// Tests in the order they should run: public first, so a failing
    /// submission gets the most actionable feedback soonest.
    pub fn ordered_tests(&self) -> (tests: Vec<&TestCase>)
        ensures
            case_ref_views(tests@) == ordered(self@.tests),
    {
        let ghost views = self@.tests;
        let mut sorted: Vec<&TestCase> = Vec::new();
        let mut i: usize = 0;
        assert(case_ref_views(sorted@) == ordered(views.take(0)));
        while i < self.tests.len()
            invariant
                i <= self.tests@.len(),
                views == case_views(self.tests@),
                case_ref_views(sorted@) == ordered(views.take(i as int)),
            decreases self.tests@.len() - i,
        {
            let test = &self.tests[i];
            let ghost before = case_ref_views(sorted@);
            let mut at: usize = sorted.len();
            while at > 0 && precedes(test, sorted[at - 1])
                invariant
                    at <= sorted@.len(),
                    before == case_ref_views(sorted@),
                    forall|j: int| at <= j < sorted@.len() ==> runs_before(test@, #[trigger] before[j]),
                decreases at,
            {
                at -= 1;
            }
            proof {
                lemma_placed(before, test@, at as int);
                assert(views.take(i + 1).drop_last() == views.take(i as int));
            }
            sorted.insert(at, test);
            assert(case_ref_views(sorted@) == before.insert(at as int, test@));
            i += 1;
        }
        assert(views.take(i as int) == views);
        sorted
    }
}

fn precedes(a: &TestCase, b: &TestCase) -> (yes: bool)
    ensures
        yes == runs_before(a@, b@),
{
    if a.visibility != b.visibility {
        a.visibility == Visibility::Public
    } else {
        is_text_less(a.id.as_str(), b.id.as_str())
    }
}

// ---------------------------------------------------------------------------
// The order in which cases run
// ---------------------------------------------------------------------------

/// Whether one case runs before another: public before hidden, and in the
/// dictionary order of the ids among cases of one visibility.
pub open spec fn runs_before(a: TestCaseView, b: TestCaseView) -> bool {
    if a.visibility != b.visibility {
        a.visibility == Visibility::Public
    } else {
        text_less(a.id, b.id)
    }
}

/// A case added to a list behind everything that it does not run before.
pub open spec fn placed(list: Seq<TestCaseView>, test: TestCaseView) -> Seq<TestCaseView>
    decreases list.len(),
{
    if list.len() > 0 && runs_before(test, list.last()) {
        placed(list.drop_last(), test).push(list.last())
    } else {
        list.push(test)
    }
}

/// The cases in the order in which they run; cases that tie keep their order.
pub open spec fn ordered(tests: Seq<TestCaseView>) -> Seq<TestCaseView>
    decreases tests.len(),
{
    if tests.len() == 0 {
        seq![]
    } else {
        placed(ordered(tests.drop_last()), tests.last())
    }
}

proof fn lemma_placed(list: Seq<TestCaseView>, test: TestCaseView, at: int)
    requires
        0 <= at <= list.len(),
        at > 0 ==> !runs_before(test, list[at - 1]),
        forall|j: int| at <= j < list.len() ==> runs_before(test, #[trigger] list[j]),
    ensures
        placed(list, test) == list.insert(at, test),
    decreases list.len(),
{
    if at < list.len() {
        let init = list.drop_last();
        assert(runs_before(test, list[list.len() - 1]));
        lemma_placed(init, test, at);
        assert(init.insert(at, test).push(list.last()) == list.insert(at, test));
    } else {
        assert(list.push(test) == list.insert(at, test));
    }
}

proof fn lemma_runs_before(a: TestCaseView, b: TestCaseView, c: TestCaseView)
    ensures
        runs_before(a, b) && runs_before(b, c) ==> runs_before(a, c),
        runs_before(a, b) ==> !runs_before(b, a),
        !runs_before(a, b) && !runs_before(b, c) ==> !runs_before(a, c),
{
    crate::text::text_less_irreflexive(a.id);
    crate::text::text_less_irreflexive(b.id);
    crate::text::text_less_total(a.id, b.id);
    crate::text::text_less_total(b.id, c.id);
    if text_less(a.id, b.id) && text_less(b.id, c.id) {
        crate::text::text_less_transitive(a.id, b.id, c.id);
    }
    if text_less(a.id, b.id) && text_less(b.id, a.id) {
        crate::text::text_less_transitive(a.id, b.id, a.id);
    }
    if text_less(a.id, c.id) && text_less(c.id, b.id) {
        crate::text::text_less_transitive(a.id, c.id, b.id);
    }
    if text_less(b.id, a.id) && text_less(a.id, c.id) {
        crate::text::text_less_transitive(b.id, a.id, c.id);
    }
}

/// Whether a list is in the order in which cases run.
pub open spec fn in_order(list: Seq<TestCaseView>) -> bool {
    forall|i: int, j: int|
        0 <= i < j < list.len() ==> !runs_before(#[trigger] list[j], #[trigger] list[i])
}

proof fn lemma_placed_sorted(list: Seq<TestCaseView>, test: TestCaseView)
    requires
        in_order(list),
    ensures
        in_order(placed(list, test)),
        placed(list, test).to_multiset() == list.to_multiset().insert(test),
        placed(list, test).len() == list.len() + 1,
        forall|k: int|
            0 <= k < placed(list, test).len() ==> #[trigger] placed(list, test)[k] == test || exists|j: int|
                0 <= j < list.len() && list[j] == placed(list, test)[k],
    decreases list.len(),
{
    broadcast use vstd::seq_lib::group_to_multiset_ensures;

    let out = placed(list, test);
    if list.len() > 0 && runs_before(test, list.last()) {
        let init = list.drop_last();
        lemma_placed_sorted(init, test);
        let inner = placed(init, test);
        assert(out == inner.push(list.last()));
        assert forall|i: int, j: int| 0 <= i < j < out.len() implies !runs_before(
            #[trigger] out[j],
            #[trigger] out[i],
        ) by {
            if j == out.len() - 1 {
                assert(out[i] == inner[i]);
                if inner[i] == test {
                    lemma_runs_before(test, list.last(), test);
                } else {
                    let k = choose|k: int| 0 <= k < init.len() && init[k] == inner[i];
                    assert(list[k] == init[k]);
                    assert(!runs_before(list[list.len() - 1], list[k]));
                }
            } else {
                assert(out[i] == inner[i] && out[j] == inner[j]);
            }
        }
        assert forall|k: int| 0 <= k < out.len() implies #[trigger] out[k] == test || exists|j: int|
            0 <= j < list.len() && list[j] == out[k] by {
            if k == out.len() - 1 {
                assert(list[list.len() - 1] == out[k]);
            } else {
                assert(out[k] == inner[k]);
                if inner[k] != test {
                    let j = choose|j: int| 0 <= j < init.len() && init[j] == inner[k];
                    assert(list[j] == out[k]);
                }
            }
        }
        assert(list == init.push(list.last()));
        assert(init.to_multiset().insert(test).insert(list.last()) == init.to_multiset().insert(
            list.last(),
        ).insert(test));
    } else {
        assert forall|i: int, j: int| 0 <= i < j < out.len() implies !runs_before(
            #[trigger] out[j],
            #[trigger] out[i],
        ) by {
            if j == out.len() - 1 {
                assert(out[i] == list[i]);
                let last = list[list.len() - 1];
                if i < list.len() - 1 {
                    assert(!runs_before(last, list[i]));
                    lemma_runs_before(test, last, list[i]);
                }
            }
        }
        assert forall|k: int| 0 <= k < out.len() implies #[trigger] out[k] == test || exists|j: int|
            0 <= j < list.len() && list[j] == out[k] by {
            if k < list.len() {
                assert(list[k] == out[k]);
            }
        }
    }
}

/// The order in which cases run is an order of the same cases, each of them
/// once, in which none comes after a case that it runs before.
pub proof fn ordered_tests_are_sorted(tests: Seq<TestCaseView>)
    ensures
        in_order(ordered(tests)),
        ordered(tests).to_multiset() == tests.to_multiset(),
        ordered(tests).len() == tests.len(),
    decreases tests.len(),
{
    broadcast use vstd::seq_lib::group_to_multiset_ensures;

    if tests.len() > 0 {
        ordered_tests_are_sorted(tests.drop_last());
        lemma_placed_sorted(ordered(tests.drop_last()), tests.last());
        assert(tests == tests.drop_last().push(tests.last()));
    } else {
        assert(tests == Seq::<TestCaseView>::empty());
    }
}

/// The cases of a list with the visibility and the id of a given one.
pub open spec fn same_key(list: Seq<TestCaseView>, key: TestCaseView) -> Seq<TestCaseView>
    decreases list.len(),
{
    if list.len() == 0 {
        seq![]
    } else if list.last().visibility == key.visibility && list.last().id == key.id {
        same_key(list.drop_last(), key).push(list.last())
    } else {
        same_key(list.drop_last(), key)
    }
}

proof fn lemma_placed_keeps(list: Seq<TestCaseView>, test: TestCaseView, key: TestCaseView)
    ensures
        same_key(placed(list, test), key) == same_key(list.push(test), key),
    decreases list.len(),
{
    reveal_with_fuel(same_key, 3);
    assert(list.push(test).drop_last() == list);
    if list.len() > 0 && runs_before(test, list.last()) {
        let init = list.drop_last();
        lemma_placed_keeps(init, test, key);
        assert(init.push(test).drop_last() == init);
        let inner = placed(init, test);
        assert(inner.push(list.last()).drop_last() == inner);
        crate::text::text_less_irreflexive(test.id);
    }
}

/// Cases that tie keep the order in which the package lists them.
pub proof fn ordered_tests_are_stable(tests: Seq<TestCaseView>, key: TestCaseView)
    ensures
        same_key(ordered(tests), key) == same_key(tests, key),
    decreases tests.len(),
{
    if tests.len() > 0 {
        let init = tests.drop_last();
        ordered_tests_are_stable(init, key);
        lemma_placed_keeps(ordered(init), tests.last(), key);
        assert(ordered(init).push(tests.last()).drop_last() == ordered(init));
    }
}

proof fn lemma_ordered_visibility(tests: Seq<TestCaseView>, visibility: Visibility)
    requires
        forall|i: int| 0 <= i < tests.len() ==> #[trigger] tests[i].visibility == visibility,
    ensures
        forall|i: int|
            0 <= i < ordered(tests).len() ==> #[trigger] ordered(tests)[i].visibility == visibility,
    decreases tests.len(),
{
    if tests.len() > 0 {
        let init = tests.drop_last();
        assert forall|i: int| 0 <= i < init.len() implies #[trigger] init[i].visibility == visibility by {
            assert(init[i] == tests[i]);
        }
        lemma_ordered_visibility(init, visibility);
        ordered_tests_are_sorted(init);
        lemma_placed_sorted(ordered(init), tests.last());
        assert(tests[tests.len() - 1].visibility == visibility);
        assert forall|i: int| 0 <= i < ordered(tests).len() implies #[trigger] ordered(tests)[i].visibility
            == visibility by {
            if ordered(tests)[i] != tests.last() {
                let j = choose|j: int| 0 <= j < ordered(init).len() && ordered(init)[j] == ordered(tests)[i];
                assert(ordered(init)[j].visibility == visibility);
            }
        }
    }
}

/// The cases of one visibility, in their order.
pub open spec fn with_visibility(tests: Seq<TestCaseView>, visibility: Visibility) -> Seq<TestCaseView>
    decreases tests.len(),
{
    if tests.len() == 0 {
        seq![]
    } else if tests.last().visibility == visibility {
        with_visibility(tests.drop_last(), visibility).push(tests.last())
    } else {
        with_visibility(tests.drop_last(), visibility)
    }
}

proof fn lemma_with_visibility(tests: Seq<TestCaseView>, visibility: Visibility)
    ensures
        forall|i: int|
            0 <= i < with_visibility(tests, visibility).len() ==> #[trigger] with_visibility(
                tests,
                visibility,
            )[i].visibility == visibility,
        with_visibility(tests, visibility).len() <= tests.len(),
    decreases tests.len(),
{
    if tests.len() > 0 {
        lemma_with_visibility(tests.drop_last(), visibility);
    }
}

proof fn lemma_placed_public(publics: Seq<TestCaseView>, hidden: Seq<TestCaseView>, test: TestCaseView)
    requires
        forall|i: int| 0 <= i < hidden.len() ==> #[trigger] hidden[i].visibility == Visibility::Hidden,
        test.visibility == Visibility::Public,
    ensures
        placed(publics + hidden, test) == placed(publics, test) + hidden,
    decreases hidden.len(),
{
    if hidden.len() > 0 {
        let init = hidden.drop_last();
        assert forall|i: int| 0 <= i < init.len() implies #[trigger] init[i].visibility
            == Visibility::Hidden by {
            assert(init[i] == hidden[i]);
        }
        lemma_placed_public(publics, init, test);
        assert((publics + hidden).drop_last() == publics + init);
        assert(hidden[hidden.len() - 1].visibility == Visibility::Hidden);
        assert((publics + hidden).last() == hidden.last());
        assert((placed(publics, test) + init).push(hidden.last()) == placed(publics, test) + hidden);
    } else {
        assert(publics + hidden == publics);
        assert(placed(publics, test) + hidden == placed(publics, test));
    }
}

proof fn lemma_placed_hidden(publics: Seq<TestCaseView>, hidden: Seq<TestCaseView>, test: TestCaseView)
    requires
        forall|i: int| 0 <= i < publics.len() ==> #[trigger] publics[i].visibility == Visibility::Public,
        test.visibility == Visibility::Hidden,
    ensures
        placed(publics + hidden, test) == publics + placed(hidden, test),
    decreases hidden.len(),
{
    if hidden.len() > 0 {
        let init = hidden.drop_last();
        lemma_placed_hidden(publics, init, test);
        assert((publics + hidden).drop_last() == publics + init);
        assert((publics + hidden).last() == hidden.last());
        if runs_before(test, hidden.last()) {
            assert((publics + placed(init, test)).push(hidden.last()) == publics + placed(hidden, test));
        } else {
            assert((publics + hidden).push(test) == publics + hidden.push(test));
        }
    } else {
        assert(publics + hidden == publics);
        if publics.len() > 0 {
            assert(publics[publics.len() - 1].visibility == Visibility::Public);
        }
        assert(publics.push(test) == publics + hidden.push(test));
    }
}

/// The public cases run first, in the order they would run in if there were no
/// hidden ones; then the hidden cases run.
pub proof fn public_tests_run_first(tests: Seq<TestCaseView>)
    ensures
        ordered(tests) == ordered(with_visibility(tests, Visibility::Public)) + ordered(
            with_visibility(tests, Visibility::Hidden),
        ),
    decreases tests.len(),
{
    if tests.len() > 0 {
        let init = tests.drop_last();
        let test = tests.last();
        public_tests_run_first(init);
        let publics = with_visibility(init, Visibility::Public);
        let hidden = with_visibility(init, Visibility::Hidden);
        lemma_with_visibility(init, Visibility::Public);
        lemma_with_visibility(init, Visibility::Hidden);
        lemma_ordered_visibility(publics, Visibility::Public);
        lemma_ordered_visibility(hidden, Visibility::Hidden);
        if test.visibility == Visibility::Public {
            lemma_placed_public(ordered(publics), ordered(hidden), test);
            assert(publics.push(test).drop_last() == publics);
        } else {
            lemma_placed_hidden(ordered(publics), ordered(hidden), test);
            assert(hidden.push(test).drop_last() == hidden);
        }
    } else {
        assert(ordered(tests) == ordered(with_visibility(tests, Visibility::Public)) + ordered(
            with_visibility(tests, Visibility::Hidden),
        ));
    }
}

// ---------------------------------------------------------------------------
// What the package of a non-trusted worker promises
// ---------------------------------------------------------------------------

proof fn lemma_public_again(tests: Seq<TestCaseView>)
    requires
        forall|i: int| 0 <= i < tests.len() ==> #[trigger] tests[i].visibility == Visibility::Public,
    ensures
        with_visibility(tests, Visibility::Public) == tests,
    decreases tests.len(),
{
    if tests.len() > 0 {
        let init = tests.drop_last();
        assert forall|i: int| 0 <= i < init.len() implies #[trigger] init[i].visibility
            == Visibility::Public by {
            assert(init[i] == tests[i]);
        }
        assert(tests[tests.len() - 1].visibility == Visibility::Public);
        lemma_public_again(init);
        assert(init.push(tests.last()) == tests);
    }
}

/// A public package holds no hidden case, whatever it was made from; and making
/// it public once more changes nothing.
pub proof fn public_package_has_no_hidden_case(package: TrialPackageView)
    ensures
        !package.publicly().has_hidden(),
        package.publicly().publicly() == package.publicly(),
        !package.has_hidden() ==> package.publicly() == package,
{
    lemma_with_visibility(package.tests, Visibility::Public);
    lemma_public_again(package.publicly().tests);
    if !package.has_hidden() {
        assert forall|i: int| 0 <= i < package.tests.len() implies #[trigger] package.tests[i].visibility
            == Visibility::Public by {
            assert(package.tests[i].visibility != Visibility::Hidden);
        }
        lemma_public_again(package.tests);
    }
}

/// A public package is determined by what is public: packages that differ in
/// their hidden cases alone become the same package.
pub proof fn public_package_reveals_nothing_hidden(a: TrialPackageView, b: TrialPackageView)
    requires
        (TrialPackageView { tests: b.tests, ..a }) == b,
        with_visibility(a.tests, Visibility::Public) == with_visibility(b.tests, Visibility::Public),
    ensures
        a.publicly() == b.publicly(),
{
}

/// Where a kept case came from, and that the kept cases are in their order.
proof fn lemma_origin(tests: Seq<TestCaseView>, visibility: Visibility, i: int, j: int) -> (at: (int, int))
    requires
        0 <= i <= j < with_visibility(tests, visibility).len(),
    ensures
        0 <= at.0 <= at.1 < tests.len(),
        i < j ==> at.0 < at.1,
        tests[at.0] == with_visibility(tests, visibility)[i],
        tests[at.1] == with_visibility(tests, visibility)[j],
    decreases tests.len(),
{
    let init = tests.drop_last();
    let kept = with_visibility(init, visibility);
    if j < kept.len() {
        let at = lemma_origin(init, visibility, i, j);
        assert(tests[at.0] == init[at.0] && tests[at.1] == init[at.1]);
        at
    } else if i < j {
        let at = lemma_origin(init, visibility, i, i);
        assert(tests[at.0] == init[at.0]);
        (at.0, tests.len() - 1)
    } else {
        (tests.len() - 1, tests.len() - 1)
    }
}

proof fn lemma_kept(tests: Seq<TestCaseView>, visibility: Visibility, i: int) -> (at: int)
    requires
        0 <= i < tests.len(),
        tests[i].visibility == visibility,
    ensures
        0 <= at < with_visibility(tests, visibility).len(),
        with_visibility(tests, visibility)[at] == tests[i],
    decreases tests.len(),
{
    let init = tests.drop_last();
    if i == tests.len() - 1 {
        with_visibility(init, visibility).len() as int
    } else {
        assert(init[i] == tests[i]);
        lemma_kept(init, visibility, i)
    }
}

/// Removing the hidden cases of a well-formed package leaves a well-formed one.
pub proof fn public_package_stays_well_formed(package: TrialPackageView)
    requires
        package.well_formed(),
    ensures
        package.publicly().well_formed(),
{
    let public = package.publicly();
    let at = choose|i: int|
        0 <= i < package.tests.len() && #[trigger] package.tests[i].visibility == Visibility::Public;
    let kept = lemma_kept(package.tests, Visibility::Public, at);
    assert(public.tests[kept].visibility == Visibility::Public);
    assert forall|i: int| 0 <= i < public.tests.len() implies case_sound(
        #[trigger] public.tests[i],
        public.groups,
    ) by {
        let from = lemma_origin(package.tests, Visibility::Public, i, i);
        assert(case_sound(package.tests[from.0], package.groups));
    }
    assert forall|i: int, j: int| 0 <= i < j < public.tests.len() implies #[trigger] public.tests[i].id
        != #[trigger] public.tests[j].id by {
        let from = lemma_origin(package.tests, Visibility::Public, i, j);
        assert(package.tests[from.0].id != package.tests[from.1].id);
    }
}

// ---------------------------------------------------------------------------
// What a package must be, and what becomes of it
// ---------------------------------------------------------------------------

/// What it takes for a package to be accepted, in full: nothing less will do,
/// and nothing more is asked.
pub proof fn what_a_package_must_have(package: TrialPackageView)
    ensures
        package.fault() is None <==> {
            &&& package.format_version == 1
            &&& package.slug.len() > 0
            &&& package.version != 0
            &&& package.limits.wall_ms > 0 && package.limits.memory_bytes > 0
                && package.limits.output_bytes > 0 && package.limits.fuel > 0
                && package.limits.instances > 0
            &&& forall|i: int, j: int|
                0 <= i < package.groups.len() && 0 <= j < package.groups.len()
                    && #[trigger] package.groups[i].name == #[trigger] package.groups[j].name ==> i
                    == j
            &&& forall|i: int, j: int|
                0 <= i < package.tests.len() && 0 <= j < package.tests.len()
                    && #[trigger] package.tests[i].id == #[trigger] package.tests[j].id ==> i == j
            &&& forall|i: int|
                0 <= i < package.tests.len() ==> {
                    let test = #[trigger] package.tests[i];
                    &&& test.id.len() > 0
                    &&& test.limits matches Some(own) ==> own.wall_ms > 0 && own.memory_bytes > 0
                        && own.output_bytes > 0 && own.fuel > 0 && own.instances > 0
                    &&& test.group matches Some(name) ==> exists|g: int|
                        0 <= g < package.groups.len() && #[trigger] package.groups[g].name == name
                }
            &&& package.scoring == Scoring::GroupPoints ==> package.groups.len() > 0
            &&& package.checker matches CheckerView::Float { absolute, relative } ==> {
                // Finite, and positive or a zero of either sign.
                &&& absolute & 0x7ff0_0000_0000_0000 != 0x7ff0_0000_0000_0000
                &&& relative & 0x7ff0_0000_0000_0000 != 0x7ff0_0000_0000_0000
                &&& absolute & 0x8000_0000_0000_0000 == 0 || absolute == 0x8000_0000_0000_0000
                &&& relative & 0x8000_0000_0000_0000 == 0 || relative == 0x8000_0000_0000_0000
            }
            &&& exists|i: int|
                0 <= i < package.tests.len() && #[trigger] package.tests[i].visibility
                    == Visibility::Public
        },
{
    accepted_iff_well_formed(package);
    if let CheckerView::Float { absolute, relative } = package.checker {
        crate::checker::doubles_are_told_apart_by_their_bits(absolute);
        crate::checker::doubles_are_told_apart_by_their_bits(relative);
        lemma_sign(absolute);
        lemma_sign(relative);
    }
    if package.well_formed() {
        assert forall|i: int| 0 <= i < package.tests.len() implies {
            let test = #[trigger] package.tests[i];
            &&& test.id.len() > 0
            &&& test.limits matches Some(own) ==> own.wall_ms > 0 && own.memory_bytes > 0
                && own.output_bytes > 0 && own.fuel > 0 && own.instances > 0
            &&& test.group matches Some(name) ==> exists|g: int|
                0 <= g < package.groups.len() && #[trigger] package.groups[g].name == name
        } by {
            assert(case_sound(package.tests[i], package.groups));
        }
        assert forall|i: int, j: int|
            0 <= i < package.groups.len() && 0 <= j < package.groups.len()
                && #[trigger] package.groups[i].name == #[trigger] package.groups[j].name implies i
            == j by {
            assert(package.groups_distinct());
        }
    }
}

proof fn lemma_sign(bits: u64)
    ensures
        !bits_negative(bits) <==> bits & 0x8000_0000_0000_0000 == 0 || bits
            == 0x8000_0000_0000_0000,
{
    assert((bits > 0x8000_0000_0000_0000) <==> !(bits & 0x8000_0000_0000_0000 == 0 || bits
        == 0x8000_0000_0000_0000)) by (bit_vector);
}

/// What is said of a package is the first thing that is wrong with it: before
/// anything else its version, slug and number, that it has cases, and its limits
/// and groups.
pub proof fn what_is_said_of_a_package(package: TrialPackageView)
    ensures
        package.format_version != 1 ==> package.fault() == Some(
            "format_version "@ + crate::text::dec(package.format_version as nat)
                + " is not supported (expected 1)"@,
        ),
        ({
            let read = package.format_version == 1;
            &&& read && package.slug.len() == 0 ==> package.fault() == Some(
                "slug must not be empty"@,
            )
            &&& read && package.slug.len() > 0 && package.version == 0 ==> package.fault() == Some(
                "version must be at least 1"@,
            )
            &&& read && package.slug.len() > 0 && package.version > 0 && package.tests.len() == 0
                ==> package.fault() == Some("a package must contain at least one test"@)
        }),
        ({
            let read = package.format_version == 1 && package.slug.len() > 0 && package.version > 0
                && package.tests.len() > 0;
            &&& read && !package.limits.bounded() ==> package.fault() == Some(
                "package limits: "@ + package.limits.complaint(),
            )
            &&& read && package.limits.bounded() && !package.groups_distinct() ==> package.fault()
                == Some("group names must be unique"@)
        }),
{
}

/// Of its cases, the first that is wrong is named, with what is wrong with it:
/// no id, one that an earlier case has, a missing bound, or a group that the
/// package does not have.
pub proof fn the_first_wrong_case_is_named(package: TrialPackageView, i: int)
    requires
        package.format_version == 1,
        package.slug.len() > 0,
        package.version > 0,
        package.limits.bounded(),
        package.groups_distinct(),
        0 <= i < package.tests.len(),
        forall|j: int|
            0 <= j < i ==> case_sound(#[trigger] package.tests[j], package.groups),
        forall|j: int, k: int|
            0 <= j < k < i ==> #[trigger] package.tests[j].id != #[trigger] package.tests[k].id,
    ensures
        ({
            let test = package.tests[i];
            let fresh = forall|j: int| 0 <= j < i ==> #[trigger] package.tests[j].id != test.id;
            let own = test.limits is Some ==> test.limits->0.bounded();
            &&& test.id.len() == 0 ==> package.fault() == Some("every test needs a non-empty id"@)
            &&& test.id.len() > 0 && !fresh ==> package.fault() == Some(
                "duplicate test id `"@ + test.id + "`"@,
            )
            &&& test.id.len() > 0 && fresh && !own ==> package.fault() == Some(
                "limits for test `"@ + test.id + "`: "@ + test.limits->0.complaint(),
            )
            &&& test.id.len() > 0 && fresh && own && test.group is Some && (forall|g: int|
                0 <= g < package.groups.len() ==> #[trigger] package.groups[g].name
                    != test.group->0) ==> package.fault() == Some(
                "test `"@ + test.id + "` references unknown group `"@ + test.group->0 + "`"@,
            )
        }),
{
    assert forall|j: int| 0 <= j < i implies package.case_fault(j) is None by {
        assert(case_sound(package.tests[j], package.groups));
    }
    lemma_fault_at(package, 0, i);
    let test = package.tests[i];
    if exists|j: int| 0 <= j < i && #[trigger] package.tests[j].id == test.id {
        assert(id_used(package.tests, i, test.id));
    }
}

proof fn lemma_fault_at(package: TrialPackageView, from: int, i: int)
    requires
        0 <= from <= i < package.tests.len(),
        forall|j: int| 0 <= j < i ==> package.case_fault(j) is None,
    ensures
        package.case_fault(i) is Some ==> package.cases_fault(from) == package.case_fault(i),
    decreases i - from,
{
    if from < i {
        assert(package.case_fault(from) is None);
        lemma_fault_at(package, from + 1, i);
    }
}

/// And then, where every case is sound by itself: that points need groups, that
/// tolerances must be usable, and that something must be public.
pub proof fn what_is_said_of_sound_cases(package: TrialPackageView)
    requires
        package.format_version == 1,
        package.slug.len() > 0,
        package.version > 0,
        package.tests.len() > 0,
        package.limits.bounded(),
        package.groups_distinct(),
        package.ids_distinct(),
        forall|j: int|
            0 <= j < package.tests.len() ==> case_sound(#[trigger] package.tests[j], package.groups),
    ensures
        ({
            let grouped = package.scoring == Scoring::GroupPoints ==> package.groups.len() > 0;
            &&& !grouped ==> package.fault() == Some(
                "group_points scoring requires at least one group"@,
            )
            &&& grouped && !package.tolerances_sound() ==> package.fault() == Some(
                "float tolerances must be finite and non-negative"@,
            )
            &&& grouped && package.tolerances_sound() && (forall|i: int|
                0 <= i < package.tests.len() ==> #[trigger] package.tests[i].visibility
                    == Visibility::Hidden) ==> package.fault() == Some(
                "a package must expose at least one public test"@,
            )
        }),
{
    lemma_cases_fault(package, 0);
    assert forall|j: int| 0 <= j < package.tests.len() implies package.case_fault(j) is None by {
        assert(case_sound(package.tests[j], package.groups));
    }
}

/// What is public of a package is the package with its hidden cases taken out:
/// every public case is kept as it is and in its place, and so is everything else
/// that the package says.
pub proof fn only_hidden_cases_are_taken_out(package: TrialPackageView)
    ensures
        ({
            let kept = package.publicly();
            &&& kept.format_version == package.format_version
            &&& kept.slug == package.slug
            &&& kept.version == package.version
            &&& kept.mode == package.mode
            &&& kept.environment == package.environment
            &&& kept.limits == package.limits
            &&& kept.checker == package.checker
            &&& kept.scoring == package.scoring
            &&& kept.fail_fast == package.fail_fast
            &&& kept.groups == package.groups
            &&& kept.tests == package.tests.filter(
                |test: TestCaseView| test.visibility == Visibility::Public,
            )
        }),
{
    lemma_public_filter(package.tests);
}

proof fn lemma_public_filter(tests: Seq<TestCaseView>)
    ensures
        with_visibility(tests, Visibility::Public) == tests.filter(
            |test: TestCaseView| test.visibility == Visibility::Public,
        ),
    decreases tests.len(),
{
    reveal(Seq::filter);
    if tests.len() > 0 {
        lemma_public_filter(tests.drop_last());
    }
}

/// The order in which cases run: each case of the package once, no hidden case
/// before a public one, and by their ids among those of one visibility.
pub proof fn cases_run_in_the_order_of_visibility_and_id(tests: Seq<TestCaseView>)
    ensures
        ordered(tests).len() == tests.len(),
        ordered(tests).to_multiset() == tests.to_multiset(),
        forall|i: int, j: int|
            0 <= i < j < ordered(tests).len() ==> {
                let first = #[trigger] ordered(tests)[i];
                let then_runs = #[trigger] ordered(tests)[j];
                &&& first.visibility == Visibility::Hidden ==> then_runs.visibility
                    == Visibility::Hidden
                &&& first.visibility == then_runs.visibility ==> first.id == then_runs.id
                    || text_less(first.id, then_runs.id)
            },
{
    ordered_tests_are_sorted(tests);
    assert forall|i: int, j: int| 0 <= i < j < ordered(tests).len() implies {
        let first = #[trigger] ordered(tests)[i];
        let then_runs = #[trigger] ordered(tests)[j];
        &&& first.visibility == Visibility::Hidden ==> then_runs.visibility == Visibility::Hidden
        &&& first.visibility == then_runs.visibility ==> first.id == then_runs.id || text_less(
            first.id,
            then_runs.id,
        )
    } by {
        assert(!runs_before(ordered(tests)[j], ordered(tests)[i]));
        crate::text::text_less_total(ordered(tests)[i].id, ordered(tests)[j].id);
    }
}

/// A case runs under its own limits where it has some, all of them, and under
/// those of its package where it has none.
pub proof fn own_limits_come_first(package: TrialPackageView, test: TestCaseView, own: Limits)
    ensures
        package.limits_of((TestCaseView { limits: Some(own), ..test })) == own,
        package.limits_of((TestCaseView { limits: None, ..test })) == package.limits,
{
}

/// Checkers are equal where they are the same and so are their tolerances, as
/// numbers, or their modules.
pub proof fn equality_of_checkers(a: CheckerView, b: CheckerView)
    ensures
        equal_checkers(a, b) ==> {
            &&& a is Exact <==> b is Exact
            &&& a is TrimmedLines <==> b is TrimmedLines
            &&& a is Tokens <==> b is Tokens
            &&& a is Float <==> b is Float
            &&& a is Custom ==> a == b
        },
        !(a is Float) ==> equal_checkers(a, a),
        a is Float && b is Float ==> (equal_checkers(a, b) <==> equal_bits(
            a->absolute,
            b->absolute,
        ) && equal_bits(a->relative, b->relative)),
{
}

/// Two doubles are equal where neither is a NaN and their bits are the same, or
/// are those of the two zeros.
pub proof fn equality_of_doubles(a: u64, b: u64)
    ensures
        equal_bits(a, b) == equal_bits(b, a),
        equal_bits(a, a) <==> !bits_nan(a),
        equal_bits(a, b) && a != b ==> a & 0x7fff_ffff_ffff_ffff == 0 && b & 0x7fff_ffff_ffff_ffff
            == 0,
        equal_bits(0, 0x8000_0000_0000_0000),
{
    assert((a % 0x8000_0000_0000_0000 == 0) ==> (a & 0x7fff_ffff_ffff_ffff == 0)) by (bit_vector);
    assert((b % 0x8000_0000_0000_0000 == 0) ==> (b & 0x7fff_ffff_ffff_ffff == 0)) by (bit_vector);
}

/// A package says what it holds, and so do its cases, its groups, its environment
/// and its checker.
pub proof fn packages_say_what_they_hold(
    package: TrialPackage,
    test: TestCase,
    group: Group,
    environment: Environment,
    checker: Checker,
)
    ensures
        package@.format_version == package.format_version,
        package@.slug == package.slug@,
        package@.version == package.version,
        package@.mode == package.mode,
        package@.environment == package.environment@,
        package@.limits == package.limits,
        package@.checker == package.checker@,
        package@.scoring == package.scoring,
        package@.fail_fast == package.fail_fast,
        package@.groups.len() == package.groups@.len(),
        forall|i: int|
            0 <= i < package.groups@.len() ==> #[trigger] package@.groups[i]
                == package.groups@[i]@,
        package@.tests.len() == package.tests@.len(),
        forall|i: int|
            0 <= i < package.tests@.len() ==> #[trigger] package@.tests[i] == package.tests@[i]@,
        test@.id == test.id@,
        test@.visibility == test.visibility,
        test@.stdin == test.stdin@,
        test@.expected_stdout == test.expected_stdout@,
        test@.args.len() == test.args@.len(),
        forall|i: int| 0 <= i < test.args@.len() ==> #[trigger] test@.args[i] == test.args@[i]@,
        test.group matches Some(name) ==> test@.group == Some(name@),
        test.group is None ==> test@.group is None,
        test@.limits == test.limits,
        group@.name == group.name@,
        group@.points == group.points,
        group@.fail_fast == group.fail_fast,
        environment@.id == environment.id@,
        environment@.edition == environment.edition@,
        environment@.toolchain == environment.toolchain@,
        environment@.target == environment.target@,
        checker is Exact <==> checker@ is Exact,
        checker is TrimmedLines <==> checker@ is TrimmedLines,
        checker is Tokens <==> checker@ is Tokens,
        checker matches Checker::Float { absolute, relative } ==> checker@ == (CheckerView::Float {
            absolute,
            relative,
        }),
        checker matches Checker::Custom { module_cid } ==> checker@ == (CheckerView::Custom {
            module_cid: module_cid@,
        }),
{
}

/// A package that names no environment is for Rust 1.88 of the 2021 edition, on
/// WASI.
pub proof fn the_environment_of_packages_that_name_none()
    ensures
        default_environment().id == "rust-1.88-wasm32-wasip1"@,
        default_environment().edition == "2021"@,
        default_environment().toolchain == "1.88"@,
        default_environment().target == "wasm32-wasip1"@,
{
}

} // verus!
