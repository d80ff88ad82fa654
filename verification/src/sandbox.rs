//! What the Wasmtime sandbox decides.
//!
//! The engine itself runs outside this crate. Here are the parts of the sandbox
//! that make up its mind: the sink that counts output, the limiter that refuses
//! growth, and the rules by which the end of an execution is read.
//!
//! # How each bound is enforced
//!
//! | Bound | Mechanism | Detected as |
//! | --- | --- | --- |
//! | Work | fuel | [`GuestFault::OutOfFuel`] -> `LimitViolation::Fuel` |
//! | Wall clock | Epoch interruption from a watchdog | [`GuestFault::Interrupt`] -> `LimitViolation::Wall` |
//! | Memory | A limiter that refuses growth past the bound | a recorded denial -> `LimitViolation::Memory` |
//! | Output | A capped sink that records overflow | a recorded overflow -> `LimitViolation::Output` |
//! | Instances / tables | The same limiter | refused growth |
//!
//! Fuel and wall clock both exist because neither alone is sufficient. Fuel is
//! deterministic and fair across heterogeneous workers - a slow volunteer
//! machine must not fail a submission a fast one accepts - but it does not
//! count time spent outside the guest. Wall clock is the backstop.
//!
//! Memory and output are checked **before** the termination reason, because a
//! guest that hits either usually goes on to trap or exit non-zero; reporting
//! `RTE` there would blame the user's logic for a limit they hit.

use vstd::prelude::*;

use crate::backend::{
    ExecutionOutcome, ExecutionOutcomeView, TerminationReason, TerminationReasonView,
};
use crate::error::{judged, JudgeError, JudgeErrorView};
use crate::limits::{LimitViolation, Limits};
use crate::text::{
    after_prefix, copy_text, dec_int, decimal_int, i32_value, joined, parse_i32, same_text,
    without_prefix,
};

verus! {

/// Guest stack limit. Deep recursion becomes a clean stack-overflow trap rather
/// than an unbounded host stack.
pub const MAX_WASM_STACK_BYTES: usize = 524_288;

// ---------------------------------------------------------------------------
// The output sink
// ---------------------------------------------------------------------------

/// Why a sink takes no more.
#[derive(Debug, Clone, Copy, PartialEq, Eq, Structural)]
pub enum SinkError {
    /// The output bound has been passed.
    Closed,
}

/// An output sink that stops at a byte budget and remembers that it did.
///
/// Truncation alone is not enough: the judge must be able to say *why* output
/// stopped, so `OLE` is distinguishable from a program that simply printed less
/// than expected.
///
/// The sink buffers one byte beyond the budget on purpose. WASI asks for a
/// write permit before every write, so a sink that is exactly full is
/// indistinguishable from one that has been overrun - a program that printed
/// exactly the budget would be reported as `OLE`. The extra byte makes
/// "reached the budget" and "exceeded the budget" different states. The spare
/// byte is trimmed before the output is returned.
#[derive(Debug)]
pub struct CappedSink {
    budget: usize,
    buffer: Vec<u8>,
    overflowed: bool,
}

/// What a [`CappedSink`] holds.
#[verifier::ext_equal]
pub struct CappedSinkView {
    pub budget: nat,
    pub buffer: Seq<u8>,
    pub overflowed: bool,
}

/// The first `n` bytes, or all of them where there are fewer.
pub open spec fn at_most(bytes: Seq<u8>, n: nat) -> Seq<u8> {
    if bytes.len() <= n {
        bytes
    } else {
        bytes.take(n as int)
    }
}

impl CappedSinkView {
    /// Bytes that may still be buffered, including the one-byte overrun slot.
    pub open spec fn room(self) -> nat {
        if self.buffer.len() <= self.budget {
            (self.budget + 1 - self.buffer.len()) as nat
        } else {
            0
        }
    }

    /// The sink once it has been offered some bytes: as many as there is room
    /// for are kept, and having passed the budget is remembered.
    pub open spec fn offered(self, bytes: Seq<u8>) -> CappedSinkView {
        let buffer = self.buffer + at_most(bytes, self.room());
        CappedSinkView {
            buffer,
            overflowed: self.overflowed || bytes.len() > self.room() || buffer.len() > self.budget,
            ..self
        }
    }
}

impl View for CappedSink {
    type V = CappedSinkView;

    closed spec fn view(&self) -> CappedSinkView {
        CappedSinkView {
            budget: self.budget as nat,
            buffer: self.buffer@,
            overflowed: self.overflowed,
        }
    }
}

impl CappedSink {
    /// Whether a sink can be in this state: the buffer and its spare byte can
    /// be counted.
    pub closed spec fn wf(self) -> bool {
        self.budget < usize::MAX
    }

    /// An empty sink.
    pub fn new(budget: usize) -> (sink: CappedSink)
        requires
            budget < usize::MAX,
        ensures
            sink.wf(),
            sink@ == (CappedSinkView {
                budget: budget as nat,
                buffer: Seq::empty(),
                overflowed: false,
            }),
    {
        CappedSink { budget, buffer: Vec::new(), overflowed: false }
    }

    /// Bytes that may still be buffered, including the one-byte overrun slot.
    fn room(&self) -> (room: usize)
        requires
            self.wf(),
        ensures
            room == self@.room(),
    {
        let buffered: usize = self.buffer.len();
        if buffered <= self.budget {
            self.budget + 1 - buffered
        } else {
            0
        }
    }

    /// Whether more was written than the budget allows.
    pub fn overflowed(&self) -> (yes: bool)
        ensures
            yes == self@.overflowed,
    {
        self.overflowed
    }

    /// Take the captured output, trimmed to the budget.
    pub fn take(&mut self) -> (output: Vec<u8>)
        ensures
            output@ == at_most(old(self)@.buffer, old(self)@.budget),
            final(self)@ == (CappedSinkView { buffer: Seq::empty(), ..old(self)@ }),
            final(self).wf() == old(self).wf(),
    {
        let mut output: Vec<u8> = Vec::new();
        std::mem::swap(&mut output, &mut self.buffer);
        output.truncate(self.budget);
        output
    }

    fn push_first(&mut self, bytes: &[u8], count: usize)
        requires
            count <= bytes@.len(),
        ensures
            final(self)@ == (CappedSinkView {
                buffer: old(self)@.buffer + bytes@.take(count as int),
                ..old(self)@
            }),
            final(self).wf() == old(self).wf(),
    {
        let mut i: usize = 0;
        assert(self@.buffer + bytes@.take(0) == self@.buffer);
        while i < count
            invariant
                i <= count <= bytes@.len(),
                self@ == (CappedSinkView {
                    buffer: old(self)@.buffer + bytes@.take(i as int),
                    ..old(self)@
                }),
                self.wf() == old(self).wf(),
            decreases count - i,
        {
            let ghost before = self@.buffer;
            self.buffer.push(bytes[i]);
            assert(self@.buffer == before.push(bytes@[i as int]));
            assert(bytes@.take(i + 1) == bytes@.take(i as int).push(bytes@[i as int]));
            assert(self@.buffer == old(self)@.buffer + bytes@.take(i + 1));
            i += 1;
        }
    }

    /// Write through the stream interface: all of the bytes, or as many as fit
    /// and the news that the sink is closed.
    pub fn write(&mut self, bytes: &[u8]) -> (result: Result<(), SinkError>)
        requires
            old(self).wf(),
        ensures
            final(self).wf(),
            final(self)@ == old(self)@.offered(bytes@),
            result == (if bytes@.len() > old(self)@.room() {
                Err(SinkError::Closed)
            } else {
                Ok(())
            }),
    {
        let room: usize = self.room();
        if bytes.len() > room {
            self.push_first(bytes, room);
            self.overflowed = true;
            return Err(SinkError::Closed);
        }
        self.push_first(bytes, bytes.len());
        assert(bytes@.take(bytes@.len() as int) == bytes@);
        if self.buffer.len() > self.budget {
            self.overflowed = true;
        }
        Ok(())
    }

    /// Flushing has nothing to do.
    pub fn flush(&mut self) -> (result: Result<(), SinkError>)
        ensures
            result == Ok::<(), SinkError>(()),
            *final(self) == *old(self),
    {
        Ok(())
    }

    /// How many bytes may be written next.
    pub fn check_write(&mut self) -> (result: Result<usize, SinkError>)
        requires
            old(self).wf(),
        ensures
            final(self).wf(),
            match result {
                Ok(room) => room > 0 && room == old(self)@.room() && final(self)@ == old(self)@,
                Err(error) => {
                    &&& error == SinkError::Closed
                    &&& old(self)@.room() == 0
                    &&& final(self)@ == (CappedSinkView { overflowed: true, ..old(self)@ })
                },
            },
    {
        let room: usize = self.room();
        if room == 0 {
            self.overflowed = true;
            Err(SinkError::Closed)
        } else {
            Ok(room)
        }
    }

    /// Write through the byte interface: as many bytes as fit, and how many.
    pub fn poll_write(&mut self, buf: &[u8]) -> (result: Result<usize, SinkError>)
        requires
            old(self).wf(),
        ensures
            final(self).wf(),
            match result {
                Ok(count) => {
                    &&& old(self)@.room() > 0
                    &&& count == at_most(buf@, old(self)@.room()).len()
                    &&& final(self)@ == old(self)@.offered(buf@)
                },
                Err(error) => {
                    &&& error == SinkError::Closed
                    &&& old(self)@.room() == 0
                    &&& final(self)@ == (CappedSinkView { overflowed: true, ..old(self)@ })
                },
            },
    {
        let room: usize = self.room();
        if room == 0 {
            self.overflowed = true;
            return Err(SinkError::Closed);
        }
        let count: usize = if room < buf.len() { room } else { buf.len() };
        self.push_first(buf, count);
        assert(buf@.take(count as int) == at_most(buf@, room as nat));
        if count < buf.len() || self.buffer.len() > self.budget {
            self.overflowed = true;
        }
        Ok(count)
    }
}

/// A sink once it has been offered several writes, one after another.
pub open spec fn after_writes(sink: CappedSinkView, writes: Seq<Seq<u8>>) -> CappedSinkView
    decreases writes.len(),
{
    if writes.len() == 0 {
        sink
    } else {
        after_writes(sink, writes.drop_last()).offered(writes.last())
    }
}

/// All the bytes of several writes.
pub open spec fn all_bytes(writes: Seq<Seq<u8>>) -> Seq<u8>
    decreases writes.len(),
{
    if writes.len() == 0 {
        Seq::empty()
    } else {
        all_bytes(writes.drop_last()) + writes.last()
    }
}

/// However output is cut into writes, a sink that was empty keeps the first
/// bytes of it, hands out exactly the first `budget` ones, and has overflowed
/// exactly when more than `budget` were written: printing exactly the budget is
/// no overflow.
pub proof fn sink_keeps_what_fits(budget: nat, writes: Seq<Seq<u8>>)
    ensures
        ({
            let empty = CappedSinkView { budget, buffer: Seq::empty(), overflowed: false };
            let sink = after_writes(empty, writes);
            &&& sink.budget == budget
            &&& sink.buffer == at_most(all_bytes(writes), budget + 1)
            &&& at_most(sink.buffer, budget) == at_most(all_bytes(writes), budget)
            &&& sink.overflowed <==> all_bytes(writes).len() > budget
        }),
    decreases writes.len(),
{
    let empty = CappedSinkView { budget, buffer: Seq::empty(), overflowed: false };
    if writes.len() > 0 {
        let init = writes.drop_last();
        sink_keeps_what_fits(budget, init);
        let before = after_writes(empty, init);
        let sink = after_writes(empty, writes);
        let all = all_bytes(writes);
        assert(sink.buffer == at_most(all, budget + 1));
        assert(at_most(sink.buffer, budget) == at_most(all, budget));
    }
}

/// Asking for a permit is no overflow, and a sink that refuses one has
/// overflowed already.
pub proof fn permits_are_not_overflows(budget: nat, writes: Seq<Seq<u8>>)
    ensures
        ({
            let empty = CappedSinkView { budget, buffer: Seq::empty(), overflowed: false };
            let sink = after_writes(empty, writes);
            &&& sink.room() == 0 <==> all_bytes(writes).len() > budget
            &&& sink.room() == 0 ==> sink.overflowed
        }),
{
    sink_keeps_what_fits(budget, writes);
}

// ---------------------------------------------------------------------------
// The memory limiter
// ---------------------------------------------------------------------------

/// Enforces memory, table, and instance bounds, and records whether growth was
/// ever refused so the outcome can be reported as `MLE` rather than a trap.
#[derive(Debug, Clone, Copy, PartialEq, Eq, Structural)]
pub struct MemoryLimiter {
    /// Most bytes of linear memory.
    pub max_memory: usize,
    /// Most elements of a table.
    pub max_table_elements: usize,
    /// Most instances.
    pub max_instances: usize,
    /// Most bytes of linear memory that were granted.
    pub peak_memory: usize,
    /// Whether growth was ever refused.
    pub memory_denied: bool,
}

impl MemoryLimiter {
    /// A limiter for some bounds.
    pub fn new(limits: Limits) -> (limiter: MemoryLimiter)
        ensures
            limiter == (MemoryLimiter {
                max_memory: limits.memory_bytes as usize,
                max_table_elements: limits.table_elements as usize,
                max_instances: limits.instances as usize,
                peak_memory: 0,
                memory_denied: false,
            }),
    {
        MemoryLimiter {
            max_memory: limits.memory_bytes as usize,
            max_table_elements: limits.table_elements as usize,
            max_instances: limits.instances as usize,
            peak_memory: 0,
            memory_denied: false,
        }
    }

    /// The limiter once it has been asked for `desired` bytes.
    pub open spec fn asked(self, desired: usize) -> MemoryLimiter {
        if desired > self.max_memory {
            MemoryLimiter { memory_denied: true, ..self }
        } else if desired > self.peak_memory {
            MemoryLimiter { peak_memory: desired, ..self }
        } else {
            self
        }
    }

    /// Whether a memory may grow to `desired` bytes.
    pub fn memory_growing(
        &mut self,
        _current: usize,
        desired: usize,
        _maximum: Option<usize>,
    ) -> (granted: bool)
        ensures
            granted == (desired <= old(self).max_memory),
            *final(self) == old(self).asked(desired),
    {
        if desired > self.max_memory {
            self.memory_denied = true;
            return false;
        }
        if desired > self.peak_memory {
            self.peak_memory = desired;
        }
        true
    }

    /// Whether a table may grow to `desired` elements.
    pub fn table_growing(
        &mut self,
        _current: usize,
        desired: usize,
        _maximum: Option<usize>,
    ) -> (granted: bool)
        ensures
            granted == (desired <= old(self).max_table_elements),
            *final(self) == *old(self),
    {
        desired <= self.max_table_elements
    }

    /// Most instances.
    pub fn instances(&self) -> (count: usize)
        ensures
            count == self.max_instances,
    {
        self.max_instances
    }

    /// Most memories.
    pub fn memories(&self) -> (count: usize)
        ensures
            count == 1,
    {
        1
    }
}

/// A limiter once it has been asked several times.
pub open spec fn after_requests(limiter: MemoryLimiter, requests: Seq<usize>) -> MemoryLimiter
    decreases requests.len(),
{
    if requests.len() == 0 {
        limiter
    } else {
        after_requests(limiter, requests.drop_last()).asked(requests.last())
    }
}

/// A limiter that was new has recorded a denial exactly when some request went
/// past its bound, and its peak is the largest request that did not: a denied
/// growth never raises it.
pub proof fn limiter_records_denials_and_peak(limiter: MemoryLimiter, requests: Seq<usize>)
    requires
        limiter.peak_memory == 0,
        !limiter.memory_denied,
    ensures
        ({
            let after = after_requests(limiter, requests);
            &&& after.max_memory == limiter.max_memory
            &&& after.peak_memory <= limiter.max_memory
            &&& after.memory_denied <==> exists|i: int|
                0 <= i < requests.len() && #[trigger] requests[i] > limiter.max_memory
            &&& forall|i: int|
                0 <= i < requests.len() && #[trigger] requests[i] <= limiter.max_memory
                    ==> requests[i] <= after.peak_memory
            &&& after.peak_memory == 0 || requests.contains(after.peak_memory)
        }),
    decreases requests.len(),
{
    if requests.len() > 0 {
        let init = requests.drop_last();
        let last = requests.last();
        limiter_records_denials_and_peak(limiter, init);
        let before = after_requests(limiter, init);
        let after = after_requests(limiter, requests);
        assert(requests[requests.len() - 1] == last);
        assert forall|i: int|
            0 <= i < requests.len() && #[trigger] requests[i] <= limiter.max_memory implies requests[i]
            <= after.peak_memory by {
            if i < init.len() {
                assert(init[i] == requests[i]);
            }
        }
        if before.memory_denied {
            let i = choose|i: int|
                0 <= i < init.len() && #[trigger] init[i] > limiter.max_memory;
            assert(requests[i] > limiter.max_memory);
        } else if exists|i: int|
            0 <= i < requests.len() && #[trigger] requests[i] > limiter.max_memory {
            let i = choose|i: int|
                0 <= i < requests.len() && #[trigger] requests[i] > limiter.max_memory;
            if i < init.len() {
                assert(init[i] == requests[i]);
            }
        }
        if after.peak_memory == before.peak_memory && after.peak_memory != 0 {
            let i = choose|i: int| 0 <= i < init.len() && init[i] == before.peak_memory;
            assert(requests[i] == after.peak_memory);
        }
    }
}

// ---------------------------------------------------------------------------
// How an execution ended
// ---------------------------------------------------------------------------

/// What the engine reported when the guest did not simply return.
#[derive(Debug, PartialEq, Eq)]
pub enum GuestFault {
    /// The guest asked to exit with a code, which is a normal termination.
    Exit(i32),
    /// The guest used up its fuel.
    OutOfFuel,
    /// The watchdog interrupted the guest.
    Interrupt,
    /// Another trap, as the engine describes it.
    Trap(String),
    /// Not a guest trap: a link failure, an unknown import, or a host-side
    /// error.
    Host(String),
}

/// What a [`GuestFault`] says.
#[verifier::ext_equal]
pub enum GuestFaultView {
    Exit(i32),
    OutOfFuel,
    Interrupt,
    Trap(Seq<char>),
    Host(Seq<char>),
}

impl View for GuestFault {
    type V = GuestFaultView;

    open spec fn view(&self) -> GuestFaultView {
        match *self {
            GuestFault::Exit(code) => GuestFaultView::Exit(code),
            GuestFault::OutOfFuel => GuestFaultView::OutOfFuel,
            GuestFault::Interrupt => GuestFaultView::Interrupt,
            GuestFault::Trap(detail) => GuestFaultView::Trap(detail@),
            GuestFault::Host(detail) => GuestFaultView::Host(detail@),
        }
    }
}

/// How guest execution ended, before limit post-processing.
#[derive(Debug, PartialEq, Eq)]
pub enum Trapish {
    /// With an exit code.
    Exited(i32),
    /// By a bound.
    Limit(LimitViolation),
    /// By a trap.
    Trap(String),
}

/// What a [`Trapish`] says.
#[verifier::ext_equal]
pub enum TrapishView {
    Exited(i32),
    Limit(LimitViolation),
    Trap(Seq<char>),
}

impl View for Trapish {
    type V = TrapishView;

    open spec fn view(&self) -> TrapishView {
        match *self {
            Trapish::Exited(code) => TrapishView::Exited(code),
            Trapish::Limit(violation) => TrapishView::Limit(violation),
            Trapish::Trap(detail) => TrapishView::Trap(detail@),
        }
    }
}

/// The error that stands for a fault until it is read again.
pub open spec fn classified(fault: GuestFaultView) -> JudgeErrorView {
    match fault {
        GuestFaultView::Exit(code) => JudgeErrorView::Sandbox("__exit:"@ + dec_int(code as int)),
        GuestFaultView::OutOfFuel => JudgeErrorView::Sandbox("__limit:fuel"@),
        GuestFaultView::Interrupt => JudgeErrorView::Sandbox("__limit:wall"@),
        GuestFaultView::Trap(detail) => JudgeErrorView::Sandbox("__trap:"@ + detail),
        GuestFaultView::Host(detail) => JudgeErrorView::MalformedPackage(
            "module could not be run: "@ + detail,
        ),
    }
}

/// The exit code that a text stands for: the number it denotes, and otherwise
/// zero where it is empty and one where it is not.
pub open spec fn exit_code(text: Seq<char>) -> int {
    match i32_value(text) {
        Some(code) => code,
        None => if text.len() == 0 {
            0
        } else {
            1
        },
    }
}

/// What an error says of the guest, or the error itself where it says nothing
/// of it.
pub open spec fn interpreted(error: JudgeErrorView) -> Result<TrapishView, JudgeErrorView> {
    match error {
        JudgeErrorView::Sandbox(message) => {
            if let Some(code) = after_prefix(message, "__exit:"@) {
                Ok(TrapishView::Exited(exit_code(code) as i32))
            } else if message == "__limit:fuel"@ {
                Ok(TrapishView::Limit(LimitViolation::Fuel))
            } else if message == "__limit:wall"@ {
                Ok(TrapishView::Limit(LimitViolation::Wall))
            } else if let Some(detail) = after_prefix(message, "__trap:"@) {
                Ok(TrapishView::Trap(detail))
            } else {
                Err(error)
            }
        },
        _ => Err(error),
    }
}

/// Turn what the engine reported into either a guest-visible outcome or a judge
/// error.
///
/// What is no guest trap is nothing the user's program did wrong, so it must
/// never become CE, WA, or RTE.
pub fn classify(fault: &GuestFault) -> (error: JudgeError)
    ensures
        error@ == classified(fault@),
{
    match fault {
        GuestFault::Exit(code) => JudgeError::Sandbox(
            joined("__exit:", decimal_int(*code).as_str()),
        ),
        GuestFault::OutOfFuel => JudgeError::Sandbox("__limit:fuel".to_owned()),
        GuestFault::Interrupt => JudgeError::Sandbox("__limit:wall".to_owned()),
        GuestFault::Trap(detail) => JudgeError::Sandbox(joined("__trap:", detail.as_str())),
        GuestFault::Host(detail) => JudgeError::MalformedPackage(
            joined("module could not be run: ", detail.as_str()),
        ),
    }
}

/// Reinterpret the sentinel errors produced by [`classify`].
///
/// Guest exit, fuel exhaustion, and traps come through the same error channel as
/// genuine host failures. This keeps the distinction explicit rather than
/// letting a guest trap be reported as a judge error.
pub fn interpret(error: JudgeError) -> (result: Result<Trapish, JudgeError>)
    ensures
        judged(result) == interpreted(error@),
{
    let message = match &error {
        JudgeError::Sandbox(message) => copy_text(message.as_str()),
        _ => {
            return Err(error);
        },
    };
    if let Some(code) = without_prefix(message.as_str(), "__exit:") {
        let number: i32 = match parse_i32(code.as_str()) {
            Some(number) => number,
            None => if code.as_str().is_empty() {
                0
            } else {
                1
            },
        };
        return Ok(Trapish::Exited(number));
    }
    if same_text(message.as_str(), "__limit:fuel") {
        return Ok(Trapish::Limit(LimitViolation::Fuel));
    }
    if same_text(message.as_str(), "__limit:wall") {
        return Ok(Trapish::Limit(LimitViolation::Wall));
    }
    match without_prefix(message.as_str(), "__trap:") {
        Some(detail) => Ok(Trapish::Trap(detail)),
        None => Err(error),
    }
}

/// What was reported of the guest is what is read back: exits, bounds and traps
/// as such, and what the guest did not cause as the judge error it is.
pub proof fn faults_are_read_back(fault: GuestFaultView)
    ensures
        interpreted(classified(fault)) == (match fault {
            GuestFaultView::Exit(code) => Ok::<TrapishView, JudgeErrorView>(
                TrapishView::Exited(code),
            ),
            GuestFaultView::OutOfFuel => Ok(TrapishView::Limit(LimitViolation::Fuel)),
            GuestFaultView::Interrupt => Ok(TrapishView::Limit(LimitViolation::Wall)),
            GuestFaultView::Trap(detail) => Ok(TrapishView::Trap(detail)),
            GuestFaultView::Host(detail) => Err(
                JudgeErrorView::MalformedPackage("module could not be run: "@ + detail),
            ),
        }),
{
    reveal_strlit("__exit:");
    reveal_strlit("__trap:");
    reveal_strlit("__limit:fuel");
    reveal_strlit("__limit:wall");
    assert("__exit:"@[2] == 'e');
    assert("__trap:"@[2] == 't');
    assert("__limit:fuel"@[2] == 'l');
    assert("__limit:wall"@[2] == 'l');
    assert("__limit:fuel"@[8] == 'f');
    assert("__limit:wall"@[8] == 'w');
    assert("__limit:fuel"@.take(7)[2] == 'l');
    assert("__limit:wall"@.take(7)[2] == 'l');
    match fault {
        GuestFaultView::Exit(code) => {
            let message = "__exit:"@ + dec_int(code as int);
            assert(message.take(7) == "__exit:"@);
            assert(message.skip(7) == dec_int(code as int));
            crate::text::i32_reads_back(code);
        },
        GuestFaultView::Trap(detail) => {
            let message = "__trap:"@ + detail;
            assert(message.take(7) == "__trap:"@);
            assert(message.skip(7) == detail);
            assert(message[2] == 't');
        },
        _ => {},
    }
}

/// A failure that is not about the sandbox is never mistaken for something the
/// guest did.
pub proof fn judge_failures_stay_judge_failures(error: JudgeErrorView)
    ensures
        !(error is Sandbox) ==> interpreted(error) == Err::<TrapishView, JudgeErrorView>(error),
        interpreted(error) matches Err(other) ==> other == error,
{
}

/// A step of setting up an execution that can fail.
#[derive(Debug, Clone, Copy, PartialEq, Eq, Structural)]
pub enum SandboxStep {
    /// Building the engine.
    Engine,
    /// Validating the module. One that does not validate is a judge-side
    /// problem: the compile step should never have produced it.
    Module,
    /// Setting the fuel.
    Fuel,
    /// Linking WASI.
    Link,
    /// Finding the entry point.
    Start,
}

/// The error a failed step is reported as.
pub open spec fn step_error_of(step: SandboxStep, detail: Seq<char>) -> JudgeErrorView {
    match step {
        SandboxStep::Engine => JudgeErrorView::Sandbox("engine configuration rejected: "@ + detail),
        SandboxStep::Module => JudgeErrorView::Sandbox("module failed validation: "@ + detail),
        SandboxStep::Fuel => JudgeErrorView::Sandbox("could not set fuel: "@ + detail),
        SandboxStep::Link => JudgeErrorView::Sandbox("could not link WASI: "@ + detail),
        SandboxStep::Start => JudgeErrorView::MalformedPackage(
            "module has no WASI `_start` export: "@ + detail,
        ),
    }
}

/// The error a failed step is reported as.
pub fn step_error(step: SandboxStep, detail: &str) -> (error: JudgeError)
    ensures
        error@ == step_error_of(step, detail@),
{
    match step {
        SandboxStep::Engine => JudgeError::Sandbox(
            joined("engine configuration rejected: ", detail),
        ),
        SandboxStep::Module => JudgeError::Sandbox(joined("module failed validation: ", detail)),
        SandboxStep::Fuel => JudgeError::Sandbox(joined("could not set fuel: ", detail)),
        SandboxStep::Link => JudgeError::Sandbox(joined("could not link WASI: ", detail)),
        SandboxStep::Start => JudgeError::MalformedPackage(
            joined("module has no WASI `_start` export: ", detail),
        ),
    }
}

/// Refuse to execute anything without bounds.
pub fn admit_limits(limits: &Limits) -> (result: Result<(), JudgeError>)
    ensures
        judged(result) == (if limits.bounded() {
            Ok(())
        } else {
            Err(JudgeErrorView::MalformedPackage("invalid limits: "@ + limits.complaint()))
        }),
{
    match limits.validate() {
        Ok(_) => Ok(()),
        Err(why) => Err(JudgeError::MalformedPackage(joined("invalid limits: ", why))),
    }
}

/// How much fuel was used, where what is left is known.
pub open spec fn fuel_used(fuel: u64, left: Option<u64>) -> Option<u64> {
    match left {
        Some(rest) => Some(
            if rest <= fuel {
                (fuel - rest) as u64
            } else {
                0
            },
        ),
        None => None,
    }
}

/// Whether a guest printed more than it may. The bound is on stdout and stderr
/// together; either sink alone stops the guest at it.
pub open spec fn printed_too_much(
    stdout: CappedSinkView,
    stderr: CappedSinkView,
    output_bytes: u64,
) -> bool {
    stdout.overflowed || stderr.overflowed || stdout.buffer.len() + stderr.buffer.len()
        > output_bytes
}

/// The bound that a guest hit, as far as that was recorded while it ran. These
/// are looked at before how it ended: a guest that hits the output or memory
/// bound normally goes on to trap, or is not even instantiated, and blaming the
/// user's logic or the judge for that would be wrong and unactionable.
pub open spec fn bound_hit(
    stdout: CappedSinkView,
    stderr: CappedSinkView,
    limiter: MemoryLimiter,
    output_bytes: u64,
) -> Option<LimitViolation> {
    if printed_too_much(stdout, stderr, output_bytes) {
        Some(LimitViolation::Output)
    } else if limiter.memory_denied {
        Some(LimitViolation::Memory)
    } else {
        None
    }
}

/// Keep no more than the first `most` bytes.
fn cut(bytes: &mut Vec<u8>, most: u64)
    ensures
        final(bytes)@ == at_most(old(bytes)@, most as nat),
{
    if bytes.len() as u64 > most {
        bytes.truncate(most as usize);
    }
}

/// Put together what an execution produced.
///
/// `ended` is what came of running the guest: `Ok` where it returned, and
/// otherwise an error of [`classify`] or of [`step_error`]. What the guest
/// caused is part of the outcome; a failure of the host is an error, unless the
/// guest hit a bound.
pub fn conclude_execution(
    ended: Result<(), JudgeError>,
    stdout: &mut CappedSink,
    stderr: &mut CappedSink,
    limiter: &MemoryLimiter,
    limits: &Limits,
    fuel_left: Option<u64>,
    wall_ms: u64,
) -> (result: Result<ExecutionOutcome, JudgeError>)
    ensures
        judged(result) == concluded(
            judged(ended),
            old(stdout)@,
            old(stderr)@,
            *limiter,
            *limits,
            fuel_left,
            wall_ms,
        ),
        result is Err ==> *final(stdout) == *old(stdout) && *final(stderr) == *old(stderr),
        result is Ok ==> {
            &&& final(stdout)@ == (CappedSinkView { buffer: Seq::empty(), ..old(stdout)@ })
            &&& final(stderr)@ == (CappedSinkView { buffer: Seq::empty(), ..old(stderr)@ })
        },
{
    let printed: u128 = stdout.buffer.len() as u128 + stderr.buffer.len() as u128;
    let termination = if stdout.overflowed() || stderr.overflowed() || printed
        > limits.output_bytes as u128 {
        TerminationReason::LimitExceeded { violation: LimitViolation::Output }
    } else if limiter.memory_denied {
        TerminationReason::LimitExceeded { violation: LimitViolation::Memory }
    } else {
        let end = match ended {
            Ok(_) => Trapish::Exited(0),
            Err(error) => match interpret(error) {
                Ok(end) => end,
                Err(error) => {
                    return Err(error);
                },
            },
        };
        match end {
            Trapish::Exited(code) => TerminationReason::Exited { code },
            Trapish::Limit(violation) => TerminationReason::LimitExceeded { violation },
            Trapish::Trap(detail) => TerminationReason::Trapped { detail },
        }
    };
    let fuel_consumed = match fuel_left {
        Some(left) => Some(
            if left <= limits.fuel {
                limits.fuel - left
            } else {
                0
            },
        ),
        None => None,
    };
    let mut out = stdout.take();
    let mut err = stderr.take();
    cut(&mut out, limits.output_bytes);
    cut(&mut err, limits.output_bytes - out.len() as u64);
    Ok(
        ExecutionOutcome {
            termination,
            stdout: out,
            stderr: err,
            wall_ms,
            fuel_consumed,
            peak_memory_bytes: limiter.peak_memory as u64,
        },
    )
}

/// How a guest ended that hit no bound on record, or why the host failed.
pub open spec fn ending(ended: Result<(), JudgeErrorView>) -> Result<
    TerminationReasonView,
    JudgeErrorView,
> {
    match ended {
        Ok(_) => Ok(TerminationReasonView::Exited { code: 0 }),
        Err(error) => match interpreted(error) {
            Err(error) => Err(error),
            Ok(TrapishView::Exited(code)) => Ok(TerminationReasonView::Exited { code }),
            Ok(TrapishView::Limit(violation)) => Ok(
                TerminationReasonView::LimitExceeded { violation },
            ),
            Ok(TrapishView::Trap(detail)) => Ok(TerminationReasonView::Trapped { detail }),
        },
    }
}

/// What comes of an execution. The bound on the output is one on both streams:
/// of stderr as much is handed on as stdout leaves room for.
pub open spec fn concluded(
    ended: Result<(), JudgeErrorView>,
    stdout: CappedSinkView,
    stderr: CappedSinkView,
    limiter: MemoryLimiter,
    limits: Limits,
    fuel_left: Option<u64>,
    wall_ms: u64,
) -> Result<ExecutionOutcomeView, JudgeErrorView> {
    let reason = match bound_hit(stdout, stderr, limiter, limits.output_bytes) {
        Some(violation) => Ok(TerminationReasonView::LimitExceeded { violation }),
        None => ending(ended),
    };
    let out = at_most(at_most(stdout.buffer, stdout.budget), limits.output_bytes as nat);
    let err = at_most(
        at_most(stderr.buffer, stderr.budget),
        (limits.output_bytes - out.len()) as nat,
    );
    match reason {
        Err(error) => Err(error),
        Ok(termination) => Ok(
            ExecutionOutcomeView {
                termination,
                stdout: out,
                stderr: err,
                wall_ms,
                fuel_consumed: fuel_used(limits.fuel, fuel_left),
                peak_memory_bytes: limiter.peak_memory as u64,
            },
        ),
    }
}

/// A program that printed too much is told so, whatever it went on to do and
/// however running it ended; one that asked for too much memory is told that,
/// unless it also printed too much. Neither is ever called a runtime error, nor
/// a failure of the judge. What is handed on of either stream never is longer
/// than its sink's budget, and of both together never longer than the bound.
pub proof fn bounds_come_before_traps(
    ended: Result<(), JudgeErrorView>,
    stdout: CappedSinkView,
    stderr: CappedSinkView,
    limiter: MemoryLimiter,
    limits: Limits,
    fuel_left: Option<u64>,
    wall_ms: u64,
)
    ensures
        ({
            let result = concluded(ended, stdout, stderr, limiter, limits, fuel_left, wall_ms);
            let too_much = printed_too_much(stdout, stderr, limits.output_bytes);
            &&& too_much || limiter.memory_denied ==> result is Ok
            &&& result matches Ok(outcome) ==> {
                &&& too_much ==> outcome.termination.verdict() == Some(
                    crate::verdict::Verdict::OutputLimitExceeded,
                )
                &&& !too_much && limiter.memory_denied ==> outcome.termination.verdict() == Some(
                    crate::verdict::Verdict::MemoryLimitExceeded,
                )
                &&& outcome.stdout.len() <= stdout.budget
                &&& outcome.stderr.len() <= stderr.budget
                &&& outcome.stdout.len() + outcome.stderr.len() <= limits.output_bytes
                &&& outcome.fuel_consumed matches Some(used) ==> used <= limits.fuel
            }
        }),
{
}

/// The streams share one bound. However a program cuts its output into writes,
/// it is told that it printed too much where it printed more than the bound on
/// stdout and stderr together, and nowhere else for its output. All of its output
/// is handed on where it kept to the bound, and otherwise the first bytes of each
/// stream: of stdout up to the bound, and of stderr what is left of it.
pub proof fn streams_share_the_output_bound(
    ended: Result<(), JudgeErrorView>,
    out_writes: Seq<Seq<u8>>,
    err_writes: Seq<Seq<u8>>,
    limiter: MemoryLimiter,
    limits: Limits,
    fuel_left: Option<u64>,
    wall_ms: u64,
)
    ensures
        ({
            let budget = limits.output_bytes as nat;
            let empty = CappedSinkView { budget, buffer: Seq::empty(), overflowed: false };
            let stdout = after_writes(empty, out_writes);
            let stderr = after_writes(empty, err_writes);
            let result = concluded(ended, stdout, stderr, limiter, limits, fuel_left, wall_ms);
            let out = all_bytes(out_writes);
            let err = all_bytes(err_writes);
            let too_much = out.len() + err.len() > budget;
            &&& printed_too_much(stdout, stderr, limits.output_bytes) <==> too_much
            &&& too_much ==> result is Ok
            &&& result matches Ok(outcome) ==> {
                &&& too_much ==> outcome.termination == (TerminationReasonView::LimitExceeded {
                    violation: LimitViolation::Output,
                })
                &&& !too_much ==> outcome.stdout == out && outcome.stderr == err
                &&& outcome.stdout == at_most(out, budget)
                &&& outcome.stderr == at_most(err, (budget - outcome.stdout.len()) as nat)
            }
        }),
{
    let budget = limits.output_bytes as nat;
    sink_keeps_what_fits(budget, out_writes);
    sink_keeps_what_fits(budget, err_writes);
    let left = (budget - at_most(all_bytes(out_writes), budget).len()) as nat;
    let err = all_bytes(err_writes);
    assert(at_most(at_most(err, budget), left) == at_most(err, left));
}

/// Where no bound on output or memory was hit, an execution ended as the guest
/// ended it: with the code it exited with, whatever that is, by the bound on work
/// or time that stopped it, or by the trap it ran into; one that returned exited
/// with zero. What the host failed at is an error, and says at what.
pub proof fn guests_end_as_they_ended(
    ended: Result<(), JudgeErrorView>,
    fault: GuestFaultView,
    stdout: CappedSinkView,
    stderr: CappedSinkView,
    limiter: MemoryLimiter,
    limits: Limits,
    fuel_left: Option<u64>,
    wall_ms: u64,
)
    requires
        !stdout.overflowed,
        !stderr.overflowed,
        stdout.buffer.len() + stderr.buffer.len() <= limits.output_bytes,
        !limiter.memory_denied,
        ended is Ok || ended == Err::<(), JudgeErrorView>(classified(fault)),
    ensures
        ({
            let result = concluded(ended, stdout, stderr, limiter, limits, fuel_left, wall_ms);
            if ended is Ok {
                result is Ok && result->Ok_0.termination == (TerminationReasonView::Exited {
                    code: 0,
                })
            } else {
                match fault {
                    GuestFaultView::Exit(code) => result is Ok && result->Ok_0.termination == (
                    TerminationReasonView::Exited { code }),
                    GuestFaultView::OutOfFuel => result is Ok && result->Ok_0.termination == (
                    TerminationReasonView::LimitExceeded { violation: LimitViolation::Fuel }),
                    GuestFaultView::Interrupt => result is Ok && result->Ok_0.termination == (
                    TerminationReasonView::LimitExceeded { violation: LimitViolation::Wall }),
                    GuestFaultView::Trap(detail) => result is Ok && result->Ok_0.termination == (
                    TerminationReasonView::Trapped { detail }),
                    GuestFaultView::Host(detail) => result == Err::<
                        ExecutionOutcomeView,
                        JudgeErrorView,
                    >(JudgeErrorView::MalformedPackage("module could not be run: "@ + detail)),
                }
            }
        }),
{
    faults_are_read_back(fault);
}

/// An error that stands for nothing a guest did is the error that comes out.
pub proof fn host_failures_come_out_as_they_are(
    error: JudgeErrorView,
    stdout: CappedSinkView,
    stderr: CappedSinkView,
    limiter: MemoryLimiter,
    limits: Limits,
    fuel_left: Option<u64>,
    wall_ms: u64,
)
    requires
        !stdout.overflowed,
        !stderr.overflowed,
        stdout.buffer.len() + stderr.buffer.len() <= limits.output_bytes,
        !limiter.memory_denied,
        error matches JudgeErrorView::Sandbox(message) ==> {
            &&& !crate::text::begins_with(message, "__exit:"@)
            &&& !crate::text::begins_with(message, "__trap:"@)
            &&& message != "__limit:fuel"@
            &&& message != "__limit:wall"@
        },
    ensures
        concluded(Err(error), stdout, stderr, limiter, limits, fuel_left, wall_ms) == Err::<
            ExecutionOutcomeView,
            JudgeErrorView,
        >(error),
        interpreted(error) == Err::<TrapishView, JudgeErrorView>(error),
{
}

/// What an execution took is handed on as it was measured: the time, the largest
/// memory that was granted, and of the fuel what is no longer there.
pub proof fn what_an_execution_took(
    ended: Result<(), JudgeErrorView>,
    stdout: CappedSinkView,
    stderr: CappedSinkView,
    limiter: MemoryLimiter,
    limits: Limits,
    fuel_left: Option<u64>,
    wall_ms: u64,
)
    ensures
        concluded(ended, stdout, stderr, limiter, limits, fuel_left, wall_ms) matches Ok(outcome)
            ==> {
            &&& outcome.wall_ms == wall_ms
            &&& outcome.peak_memory_bytes == limiter.peak_memory
            &&& fuel_left is None ==> outcome.fuel_consumed is None
            &&& fuel_left matches Some(left) ==> {
                &&& outcome.fuel_consumed is Some
                &&& left <= limits.fuel ==> outcome.fuel_consumed->0 + left == limits.fuel
                &&& left > limits.fuel ==> outcome.fuel_consumed->0 == 0
            }
        },
{
}

/// What is kept of some bytes is how they begin: as many as may be kept, or all.
pub proof fn what_is_kept_is_the_beginning(bytes: Seq<u8>, n: nat)
    ensures
        at_most(bytes, n).len() == if bytes.len() <= n {
            bytes.len()
        } else {
            n
        },
        forall|i: int| 0 <= i < at_most(bytes, n).len() ==> #[trigger] at_most(bytes, n)[i]
            == bytes[i],
{
}

/// A guest may write up to the budget and one byte more, less what it has
/// written.
pub proof fn what_may_still_be_written(budget: nat, writes: Seq<Seq<u8>>)
    ensures
        ({
            let empty = CappedSinkView { budget, buffer: Seq::empty(), overflowed: false };
            let sink = after_writes(empty, writes);
            let written = all_bytes(writes).len();
            &&& written <= budget ==> sink.room() == budget + 1 - written
            &&& written > budget ==> sink.room() == 0
        }),
{
    sink_keeps_what_fits(budget, writes);
}

/// Asking for memory changes no bound.
pub proof fn bounds_stay_what_they_are(limiter: MemoryLimiter, desired: usize)
    ensures
        limiter.asked(desired).max_memory == limiter.max_memory,
        limiter.asked(desired).max_table_elements == limiter.max_table_elements,
        limiter.asked(desired).max_instances == limiter.max_instances,
        limiter.memory_denied ==> limiter.asked(desired).memory_denied,
        limiter.asked(desired).peak_memory >= limiter.peak_memory,
{
}

/// Exit codes that are no numbers stand for failure, unless nothing was said.
pub proof fn exits_without_a_number(text: Seq<char>)
    requires
        i32_value(text) is None,
    ensures
        interpreted(JudgeErrorView::Sandbox("__exit:"@ + text)) == Ok::<TrapishView, JudgeErrorView>(
            TrapishView::Exited(
                if text.len() == 0 {
                    0i32
                } else {
                    1i32
                },
            ),
        ),
{
    reveal_strlit("__exit:");
    let message = "__exit:"@ + text;
    assert(message.take(7) == "__exit:"@);
    assert(message.skip(7) == text);
}

/// A step that failed is reported as what it was, with the reason behind it. Only
/// a module without an entry point is blamed on the package; none of them is ever
/// mistaken for something that the guest did.
pub proof fn failed_steps_are_told_apart(step: SandboxStep, detail: Seq<char>)
    ensures
        step == SandboxStep::Engine ==> step_error_of(step, detail) == JudgeErrorView::Sandbox(
            "engine configuration rejected: "@ + detail,
        ),
        step == SandboxStep::Module ==> step_error_of(step, detail) == JudgeErrorView::Sandbox(
            "module failed validation: "@ + detail,
        ),
        step == SandboxStep::Fuel ==> step_error_of(step, detail) == JudgeErrorView::Sandbox(
            "could not set fuel: "@ + detail,
        ),
        step == SandboxStep::Link ==> step_error_of(step, detail) == JudgeErrorView::Sandbox(
            "could not link WASI: "@ + detail,
        ),
        step == SandboxStep::Start ==> step_error_of(step, detail)
            == JudgeErrorView::MalformedPackage("module has no WASI `_start` export: "@ + detail),
        interpreted(step_error_of(step, detail)) is Err,
{
    reveal_strlit("__exit:");
    reveal_strlit("__trap:");
    reveal_strlit("__limit:fuel");
    reveal_strlit("__limit:wall");
    reveal_strlit("engine configuration rejected: ");
    reveal_strlit("module failed validation: ");
    reveal_strlit("could not set fuel: ");
    reveal_strlit("could not link WASI: ");
    if let JudgeErrorView::Sandbox(message) = step_error_of(step, detail) {
        assert(message[0] != '_');
        assert("__exit:"@[0] == '_' && "__trap:"@[0] == '_');
        assert("__limit:fuel"@[0] == '_' && "__limit:wall"@[0] == '_');
        assert(message.take(7)[0] == message[0]);
    }
}

/// What the engine reported, and how a guest ended, say what they hold.
pub proof fn faults_say_what_they_hold(fault: GuestFault, end: Trapish)
    ensures
        match fault {
            GuestFault::Exit(code) => fault@ == GuestFaultView::Exit(code),
            GuestFault::OutOfFuel => fault@ is OutOfFuel,
            GuestFault::Interrupt => fault@ is Interrupt,
            GuestFault::Trap(detail) => fault@ == GuestFaultView::Trap(detail@),
            GuestFault::Host(detail) => fault@ == GuestFaultView::Host(detail@),
        },
        match end {
            Trapish::Exited(code) => end@ == TrapishView::Exited(code),
            Trapish::Limit(violation) => end@ == TrapishView::Limit(violation),
            Trapish::Trap(detail) => end@ == TrapishView::Trap(detail@),
        },
        MAX_WASM_STACK_BYTES == 512 * 1024,
{
}

} // verus!
