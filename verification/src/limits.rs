//! Resource limits and the violations they produce.
//!
//! Five independent bounds, each with its own verdict. Wall-clock alone is not
//! a fair limit across heterogeneous workers - a slow volunteer machine would
//! fail submissions a fast one accepts - so an abstract work bound (Wasmtime
//! fuel) runs alongside it. Fuel is deterministic; wall-clock is the backstop
//! for time spent outside the guest.

use vstd::prelude::*;

use crate::verdict::{Verdict, VerdictClass};

verus! {

/// Bounds enforced by the sandbox.
#[derive(Debug, Clone, Copy, PartialEq, Eq, Structural)]
pub struct Limits {
    /// Wall-clock limit for one execution, milliseconds.
    pub wall_ms: u64,
    /// Linear-memory limit, bytes.
    pub memory_bytes: u64,
    /// Combined stdout + stderr limit, bytes.
    pub output_bytes: u64,
    /// Abstract work bound, host-speed independent.
    pub fuel: u64,
    /// Maximum guest table elements, bounding indirect-call table growth.
    pub table_elements: u64,
    /// Maximum concurrent guest instances.
    pub instances: u64,
}

impl Default for Limits {
    /// Defaults used by the first vertical slice.
    fn default() -> (limits: Limits)
        ensures
            limits == (Limits {
                wall_ms: 2_000,
                memory_bytes: 67_108_864,
                output_bytes: 262_144,
                fuel: 500_000_000,
                table_elements: 10_000,
                instances: 1,
            }),
    {
        Limits {
            wall_ms: 2_000,
            memory_bytes: 64 * 1024 * 1024,
            output_bytes: 256 * 1024,
            fuel: 500_000_000,
            table_elements: 10_000,
            instances: 1,
        }
    }
}

impl Limits {
    /// Whether every bound that must exist does.
    pub open spec fn bounded(self) -> bool {
        &&& self.wall_ms > 0
        &&& self.memory_bytes > 0
        &&& self.output_bytes > 0
        &&& self.fuel > 0
        &&& self.instances > 0
    }

    /// What is said of a limit set that is not bounded: the first missing bound.
    pub open spec fn complaint(self) -> Seq<char> {
        if self.wall_ms == 0 {
            "wall_ms must be greater than zero"@
        } else if self.memory_bytes == 0 {
            "memory_bytes must be greater than zero"@
        } else if self.output_bytes == 0 {
            "output_bytes must be greater than zero"@
        } else if self.fuel == 0 {
            "fuel must be greater than zero"@
        } else {
            "instances must be greater than zero"@
        }
    }

    /// A deliberately tiny limit set, for tests that must trip a bound quickly.
    pub fn tiny() -> (limits: Limits)
        ensures
            limits == (Limits {
                wall_ms: 500,
                memory_bytes: 2_097_152,
                output_bytes: 1024,
                fuel: 100_000,
                table_elements: 128,
                instances: 1,
            }),
    {
        Limits {
            wall_ms: 500,
            memory_bytes: 2 * 1024 * 1024,
            output_bytes: 1024,
            fuel: 100_000,
            table_elements: 128,
            instances: 1,
        }
    }

    /// Reject a limit set that would disable a bound.
    ///
    /// A package with `fuel: 0` or `memory_bytes: 0` is malformed, not
    /// "unlimited". Refusing it here is what stops an unbounded execution from
    /// being introduced by a content mistake.
    pub fn validate(&self) -> (result: Result<(), &'static str>)
        ensures
            result is Ok <==> self.bounded(),
            result matches Err(complaint) ==> complaint@ == self.complaint(),
    {
        if self.wall_ms == 0 {
            return Err("wall_ms must be greater than zero");
        }
        if self.memory_bytes == 0 {
            return Err("memory_bytes must be greater than zero");
        }
        if self.output_bytes == 0 {
            return Err("output_bytes must be greater than zero");
        }
        if self.fuel == 0 {
            return Err("fuel must be greater than zero");
        }
        if self.instances == 0 {
            return Err("instances must be greater than zero");
        }
        Ok(())
    }
}

/// Which bound was exceeded.
#[derive(Debug, Clone, Copy, PartialEq, Eq, Structural)]
pub enum LimitViolation {
    /// Wall-clock limit.
    Wall,
    /// Work bound (fuel).
    Fuel,
    /// Memory limit.
    Memory,
    /// Output limit.
    Output,
}

impl LimitViolation {
    /// The verdict of a violation. Both time-shaped bounds are `TLE`: from the
    /// user's point of view the program did not finish in the allowed budget.
    pub open spec fn verdict_of(self) -> Verdict {
        match self {
            LimitViolation::Wall | LimitViolation::Fuel => Verdict::TimeLimitExceeded,
            LimitViolation::Memory => Verdict::MemoryLimitExceeded,
            LimitViolation::Output => Verdict::OutputLimitExceeded,
        }
    }

    /// The verdict for this violation.
    pub fn verdict(self) -> (verdict: Verdict)
        ensures
            verdict == self.verdict_of(),
    {
        match self {
            LimitViolation::Wall | LimitViolation::Fuel => Verdict::TimeLimitExceeded,
            LimitViolation::Memory => Verdict::MemoryLimitExceeded,
            LimitViolation::Output => Verdict::OutputLimitExceeded,
        }
    }
}

/// Exceeding a bound is the fault of the program that was run: it is never
/// retried, and never accepted.
pub proof fn no_violation_is_a_system_fault(violation: LimitViolation)
    ensures
        violation.verdict_of().class_of() == VerdictClass::UserFault,
{
}

/// A limit set is accepted exactly where no bound is zero, and what is said of
/// another names the first bound that is missing, in the order in which they are
/// declared. The size of tables may be zero: that is a bound too.
pub proof fn the_first_missing_bound_is_named(limits: Limits)
    ensures
        limits.bounded() <==> limits.wall_ms != 0 && limits.memory_bytes != 0
            && limits.output_bytes != 0 && limits.fuel != 0 && limits.instances != 0,
        limits.wall_ms == 0 ==> limits.complaint() == "wall_ms must be greater than zero"@,
        limits.wall_ms != 0 && limits.memory_bytes == 0 ==> limits.complaint()
            == "memory_bytes must be greater than zero"@,
        limits.wall_ms != 0 && limits.memory_bytes != 0 && limits.output_bytes == 0
            ==> limits.complaint() == "output_bytes must be greater than zero"@,
        limits.wall_ms != 0 && limits.memory_bytes != 0 && limits.output_bytes != 0 && limits.fuel
            == 0 ==> limits.complaint() == "fuel must be greater than zero"@,
        limits.wall_ms != 0 && limits.memory_bytes != 0 && limits.output_bytes != 0 && limits.fuel
            != 0 && limits.instances == 0 ==> limits.complaint()
            == "instances must be greater than zero"@,
{
}

/// Time and work both end in `TLE`, and a bound on memory or output in the
/// verdict of its own.
pub proof fn each_violation_has_its_verdict(violation: LimitViolation)
    ensures
        violation.verdict_of() == Verdict::TimeLimitExceeded <==> violation == LimitViolation::Wall
            || violation == LimitViolation::Fuel,
        violation.verdict_of() == Verdict::MemoryLimitExceeded <==> violation
            == LimitViolation::Memory,
        violation.verdict_of() == Verdict::OutputLimitExceeded <==> violation
            == LimitViolation::Output,
{
}

} // verus!
