//! Verdicts.

use vstd::prelude::*;

verus! {

/// A judge verdict.
#[derive(Debug, Clone, Copy, PartialEq, Eq, Structural, Hash, PartialOrd, Ord)]
pub enum Verdict {
    /// Accepted.
    Accepted,
    /// The user's code failed to compile.
    CompileError,
    /// Wrong answer.
    WrongAnswer,
    /// Wall-clock or work bound exceeded.
    TimeLimitExceeded,
    /// Memory bound exceeded.
    MemoryLimitExceeded,
    /// Output bound exceeded.
    OutputLimitExceeded,
    /// The user's program trapped or exited non-zero.
    RuntimeError,
    /// The judge failed: malformed package, checker crash, missing test data.
    JudgeError,
    /// Infrastructure failed: storage, queue, cache.
    InternalError,
    /// A sandbox policy was tripped.
    SecurityEvent,
}

/// Who a verdict is about.
#[derive(Debug, Clone, Copy, PartialEq, Eq, Structural)]
pub enum VerdictClass {
    /// The submission was correct.
    Accepted,
    /// The submission was wrong or exceeded a limit.
    UserFault,
    /// The judge or its infrastructure failed. Retryable; not the user's problem.
    SystemFault,
}

impl VerdictClass {
    /// How much a class weighs when verdicts are put together.
    pub open spec fn severity(self) -> int {
        match self {
            VerdictClass::Accepted => 0,
            VerdictClass::UserFault => 1,
            VerdictClass::SystemFault => 2,
        }
    }
}

impl Verdict {
    /// Every verdict, in documentation order.
    pub const ALL: [Verdict; 10] = [
        Verdict::Accepted,
        Verdict::CompileError,
        Verdict::WrongAnswer,
        Verdict::TimeLimitExceeded,
        Verdict::MemoryLimitExceeded,
        Verdict::OutputLimitExceeded,
        Verdict::RuntimeError,
        Verdict::JudgeError,
        Verdict::InternalError,
        Verdict::SecurityEvent,
    ];

    /// The short code of a verdict.
    pub open spec fn code_text(self) -> Seq<char> {
        match self {
            Verdict::Accepted => "AC"@,
            Verdict::CompileError => "CE"@,
            Verdict::WrongAnswer => "WA"@,
            Verdict::TimeLimitExceeded => "TLE"@,
            Verdict::MemoryLimitExceeded => "MLE"@,
            Verdict::OutputLimitExceeded => "OLE"@,
            Verdict::RuntimeError => "RTE"@,
            Verdict::JudgeError => "JE"@,
            Verdict::InternalError => "IE"@,
            Verdict::SecurityEvent => "SE"@,
        }
    }

    /// The class of a verdict.
    pub open spec fn class_of(self) -> VerdictClass {
        match self {
            Verdict::Accepted => VerdictClass::Accepted,
            Verdict::JudgeError | Verdict::InternalError => VerdictClass::SystemFault,
            _ => VerdictClass::UserFault,
        }
    }

    /// The worse of two verdicts; of two equally bad ones, the first.
    pub open spec fn worse_of(self, other: Verdict) -> Verdict {
        if other.class_of().severity() > self.class_of().severity() {
            other
        } else {
            self
        }
    }

    /// The short code used on the wire and in the UI.
    pub fn code(self) -> (code: &'static str)
        ensures
            code@ == self.code_text(),
    {
        match self {
            Verdict::Accepted => "AC",
            Verdict::CompileError => "CE",
            Verdict::WrongAnswer => "WA",
            Verdict::TimeLimitExceeded => "TLE",
            Verdict::MemoryLimitExceeded => "MLE",
            Verdict::OutputLimitExceeded => "OLE",
            Verdict::RuntimeError => "RTE",
            Verdict::JudgeError => "JE",
            Verdict::InternalError => "IE",
            Verdict::SecurityEvent => "SE",
        }
    }

    /// The code, as an owned string.
    pub fn to_string(&self) -> (shown: String)
        ensures
            shown@ == self.code_text(),
    {
        self.code().to_owned()
    }

    /// Classify the verdict.
    pub fn class(self) -> (class: VerdictClass)
        ensures
            class == self.class_of(),
    {
        match self {
            Verdict::Accepted => VerdictClass::Accepted,
            Verdict::CompileError
            | Verdict::WrongAnswer
            | Verdict::TimeLimitExceeded
            | Verdict::MemoryLimitExceeded
            | Verdict::OutputLimitExceeded
            | Verdict::RuntimeError
            | Verdict::SecurityEvent => VerdictClass::UserFault,
            Verdict::JudgeError | Verdict::InternalError => VerdictClass::SystemFault,
        }
    }

    /// Whether the platform may transparently retry this submission.
    pub fn is_retryable(self) -> (yes: bool)
        ensures
            yes == (self.class_of() == VerdictClass::SystemFault),
    {
        match self.class() {
            VerdictClass::SystemFault => true,
            _ => false,
        }
    }

    /// The worse of two verdicts, for aggregating a test set.
    ///
    /// System faults dominate everything: if any test could not be judged, the
    /// whole submission is unjudged. Reporting `WA` because the cache was
    /// corrupt would be a lie, and the user cannot act on it. Within a class
    /// the first is kept, so the earliest failing test is the one a user is
    /// shown.
    pub fn worst(self, other: Verdict) -> (worse: Verdict)
        ensures
            worse == self.worse_of(other),
    {
        let mine: u8 = severity(self);
        let theirs: u8 = severity(other);
        if mine < theirs {
            other
        } else {
            self
        }
    }
}

fn severity(v: Verdict) -> (weight: u8)
    ensures
        weight == v.class_of().severity(),
{
    match v.class() {
        VerdictClass::Accepted => 0,
        VerdictClass::UserFault => 1,
        VerdictClass::SystemFault => 2,
    }
}

/// The verdict of a whole test set: the worst of its cases, the earliest first.
pub open spec fn aggregate(verdicts: Seq<Verdict>) -> Verdict
    decreases verdicts.len(),
{
    if verdicts.len() == 0 {
        Verdict::Accepted
    } else {
        aggregate(verdicts.drop_last()).worse_of(verdicts.last())
    }
}

/// The codes of different verdicts differ in their first character.
pub proof fn codes_differ_at_once(a: Verdict, b: Verdict)
    requires
        a != b,
    ensures
        a.code_text().len() > 0,
        b.code_text().len() > 0,
        a.code_text()[0] != b.code_text()[0],
{
    reveal_strlit("AC");
    reveal_strlit("CE");
    reveal_strlit("WA");
    reveal_strlit("TLE");
    reveal_strlit("MLE");
    reveal_strlit("OLE");
    reveal_strlit("RTE");
    reveal_strlit("JE");
    reveal_strlit("IE");
    reveal_strlit("SE");
    assert("AC"@[0] == 'A');
    assert("CE"@[0] == 'C');
    assert("WA"@[0] == 'W');
    assert("TLE"@[0] == 'T');
    assert("MLE"@[0] == 'M');
    assert("OLE"@[0] == 'O');
    assert("RTE"@[0] == 'R');
    assert("JE"@[0] == 'J');
    assert("IE"@[0] == 'I');
    assert("SE"@[0] == 'S');
}

/// No two verdicts share a code.
pub proof fn codes_are_distinct(a: Verdict, b: Verdict)
    requires
        a.code_text() == b.code_text(),
    ensures
        a == b,
{
    if a != b {
        codes_differ_at_once(a, b);
    }
}

/// A system fault dominates whatever it is put together with, on either side.
pub proof fn system_fault_dominates(a: Verdict, b: Verdict)
    ensures
        a.worse_of(b).class_of() == VerdictClass::SystemFault <==> a.class_of()
            == VerdictClass::SystemFault || b.class_of() == VerdictClass::SystemFault,
        a.worse_of(b) == Verdict::Accepted <==> a == Verdict::Accepted && b == Verdict::Accepted,
{
}

/// The grouping of cases does not matter when verdicts are put together, and
/// `Accepted` adds nothing.
pub proof fn worst_is_associative(a: Verdict, b: Verdict, c: Verdict)
    ensures
        a.worse_of(b).worse_of(c) == a.worse_of(b.worse_of(c)),
        Verdict::Accepted.worse_of(a) == a,
        a.worse_of(Verdict::Accepted) == a,
        a.worse_of(a) == a,
{
}

/// A test set is accepted exactly when every case is, is a system fault exactly
/// when some case is, and otherwise shows the first case that failed.
pub proof fn aggregate_of_cases(verdicts: Seq<Verdict>)
    ensures
        aggregate(verdicts) == Verdict::Accepted <==> forall|i: int|
            0 <= i < verdicts.len() ==> verdicts[i] == Verdict::Accepted,
        aggregate(verdicts).class_of() == VerdictClass::SystemFault <==> exists|i: int|
            0 <= i < verdicts.len() && verdicts[i].class_of() == VerdictClass::SystemFault,
        aggregate(verdicts) != Verdict::Accepted ==> exists|i: int|
            {
                &&& 0 <= i < verdicts.len()
                &&& #[trigger] verdicts[i] == aggregate(verdicts)
                &&& forall|j: int|
                    0 <= j < i ==> verdicts[j].class_of().severity() < verdicts[i].class_of().severity()
            },
    decreases verdicts.len(),
{
    if verdicts.len() > 0 {
        let init = verdicts.drop_last();
        aggregate_of_cases(init);
        assert forall|i: int| 0 <= i < init.len() implies init[i] == verdicts[i] by {}
        if aggregate(init) == Verdict::Accepted {
            assert forall|i: int| 0 <= i < init.len() implies verdicts[i] == Verdict::Accepted by {
                assert(init[i] == Verdict::Accepted);
            }
            if aggregate(verdicts) != Verdict::Accepted {
                assert(verdicts[verdicts.len() - 1] == aggregate(verdicts));
            }
        } else {
            let k = choose|i: int|
                {
                    &&& 0 <= i < init.len()
                    &&& #[trigger] init[i] == aggregate(init)
                    &&& forall|j: int|
                        0 <= j < i ==> init[j].class_of().severity() < init[i].class_of().severity()
                };
            assert(verdicts[k] == init[k]);
            if aggregate(verdicts) == aggregate(init) {
                assert(verdicts[k] == aggregate(verdicts));
            } else {
                let last = verdicts.len() - 1;
                assert(verdicts[last] == aggregate(verdicts));
                assert forall|j: int| 0 <= j < last implies verdicts[j].class_of().severity()
                    < verdicts[last].class_of().severity() by {
                    assert(init[j] == verdicts[j]);
                    assert(aggregate(init).class_of() != VerdictClass::SystemFault);
                }
            }
            if aggregate(init).class_of() == VerdictClass::SystemFault {
                let s = choose|i: int|
                    0 <= i < init.len() && init[i].class_of() == VerdictClass::SystemFault;
                assert(verdicts[s].class_of() == VerdictClass::SystemFault);
            }
        }
    }
}

/// Only `JE` and `IE` are faults of the system, and only `AC` is no fault at
/// all; a security event is the user's.
pub proof fn classes_of_verdicts(verdict: Verdict)
    ensures
        verdict.class_of() == VerdictClass::Accepted <==> verdict == Verdict::Accepted,
        verdict.class_of() == VerdictClass::SystemFault <==> verdict == Verdict::JudgeError
            || verdict == Verdict::InternalError,
{
}

/// The worse of two verdicts is one of them: the second only where it is a system
/// fault and the first is none, or where the first is no fault and it is one.
pub proof fn the_first_of_equally_bad_verdicts_stays(a: Verdict, b: Verdict)
    ensures
        a.worse_of(b) == a || a.worse_of(b) == b,
        a.class_of() == b.class_of() ==> a.worse_of(b) == a,
        b.class_of() == VerdictClass::SystemFault && a.class_of() != VerdictClass::SystemFault
            ==> a.worse_of(b) == b && b.worse_of(a) == b,
        a == Verdict::Accepted ==> a.worse_of(b) == b && b.worse_of(a) == b,
{
}

/// The codes, letter by letter.
pub proof fn codes_by_letter(verdict: Verdict)
    ensures
        verdict.code_text() == match verdict {
            Verdict::Accepted => seq!['A', 'C'],
            Verdict::CompileError => seq!['C', 'E'],
            Verdict::WrongAnswer => seq!['W', 'A'],
            Verdict::TimeLimitExceeded => seq!['T', 'L', 'E'],
            Verdict::MemoryLimitExceeded => seq!['M', 'L', 'E'],
            Verdict::OutputLimitExceeded => seq!['O', 'L', 'E'],
            Verdict::RuntimeError => seq!['R', 'T', 'E'],
            Verdict::JudgeError => seq!['J', 'E'],
            Verdict::InternalError => seq!['I', 'E'],
            Verdict::SecurityEvent => seq!['S', 'E'],
        },
{
    reveal_strlit("AC");
    reveal_strlit("CE");
    reveal_strlit("WA");
    reveal_strlit("TLE");
    reveal_strlit("MLE");
    reveal_strlit("OLE");
    reveal_strlit("RTE");
    reveal_strlit("JE");
    reveal_strlit("IE");
    reveal_strlit("SE");
}

} // verus!
