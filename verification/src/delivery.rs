//! The delivery gate: warm-up suppression, the bounded-retry write of one
//! frame to a byte sink, and the accounting of what was not delivered.
//!
//! The sink itself is outside: the caller performs each write and reports
//! its outcome. Everything that is decided between two writes is decided
//! here.

use vstd::prelude::*;

verus! {

/// `nb::Error`, the error of a non-blocking operation, with the two
/// variants that the `nb` crate gives it: `Other`, which carries the error
/// of the operation itself, and `WouldBlock`. Nothing more is claimed of it.
#[verifier::external_type_specification]
#[verifier::reject_recursive_types(E)]
pub struct ExNbError<E>(nb::Error<E>);

/// The counters of the pipeline. Each one wraps to 0 after the largest
/// `u32`.
#[derive(Clone, Copy, Debug, PartialEq, Eq, Structural)]
pub struct Counters {
    /// Frames that went through the pipeline, delivered or not.
    pub frames_processed: u32,
    /// Failed reads of the source and failed writes to the sink.
    pub errors: u32,
    /// Frames that were not delivered in full.
    pub dropped_frames: u32,
    /// `dropped_frames` as it was at the last drop report.
    pub last_reported_dropped: u32,
}

/// What a single write to the sink came to.
#[derive(Clone, Copy, Debug, PartialEq, Eq, Structural)]
pub enum WriteOutcome {
    /// The byte was taken.
    Written,
    /// The sink cannot take a byte now.
    WouldBlock,
    /// The sink failed.
    Failed,
}

/// Where the delivery of one frame stands.
#[derive(Clone, Copy, Debug, PartialEq, Eq, Structural)]
pub enum SendState {
    /// The byte at `index` is to be written next; the sink has refused it
    /// `spins` times so far.
    Writing { index: usize, spins: u32 },
    /// Every byte was taken.
    Delivered,
    /// The sink refused one byte as often as the spin budget allows.
    Abandoned,
    /// The sink failed.
    Failed,
}

/// The warm-up period: the number of frames that are still to be held back
/// from the sink. At 0 the warm-up is over, and stays so.
#[derive(Clone, Copy, Debug, PartialEq, Eq, Structural)]
pub struct WarmupGate {
    pub remaining: u32,
}

/// The counter value after `x`.
pub open spec fn wrapping_next(x: u32) -> u32 {
    if x == u32::MAX {
        0
    } else {
        (x + 1) as u32
    }
}

impl Counters {
    /// All counters at 0.
    pub open spec fn zero() -> Counters {
        Counters { frames_processed: 0, errors: 0, dropped_frames: 0, last_reported_dropped: 0 }
    }

    /// No more drops have been reported than have been counted.
    pub open spec fn consistent(self) -> bool {
        self.last_reported_dropped <= self.dropped_frames
    }

    /// The counters after the delivery of one frame has ended in `end`: a
    /// frame that was not delivered in full is one drop, however many of
    /// its bytes were taken; a failure of the sink is one error as well.
    pub open spec fn settled(self, end: SendState) -> Counters {
        Counters {
            errors: if end == SendState::Failed {
                wrapping_next(self.errors)
            } else {
                self.errors
            },
            dropped_frames: if end == SendState::Delivered {
                self.dropped_frames
            } else {
                wrapping_next(self.dropped_frames)
            },
            ..self
        }
    }

    /// The drop warning that is due: the number of drops since the last
    /// report, where the counters are consistent and that number has
    /// reached the threshold.
    pub open spec fn drop_warning(self, threshold: u32) -> Option<u32> {
        if self.consistent() && self.dropped_frames - self.last_reported_dropped >= threshold {
            Some((self.dropped_frames - self.last_reported_dropped) as u32)
        } else {
            None
        }
    }

    /// Counters that have counted nothing.
    pub fn new() -> (c: Counters)
        ensures
            c == Counters::zero(),
    {
        Counters { frames_processed: 0, errors: 0, dropped_frames: 0, last_reported_dropped: 0 }
    }

    /// Counts one processed frame.
    pub fn count_frame(&mut self)
        ensures
            *final(self) == (Counters {
                frames_processed: wrapping_next(old(self).frames_processed),
                ..*old(self)
            }),
    {
        self.frames_processed = self.frames_processed.wrapping_add(1);
    }

    /// Counts one error.
    pub fn count_error(&mut self)
        ensures
            *final(self) == (Counters { errors: wrapping_next(old(self).errors), ..*old(self) }),
    {
        self.errors = self.errors.wrapping_add(1);
    }

    /// Counts one dropped frame.
    pub fn count_drop(&mut self)
        ensures
            *final(self) == (Counters {
                dropped_frames: wrapping_next(old(self).dropped_frames),
                ..*old(self)
            }),
            old(self).consistent() && old(self).dropped_frames < u32::MAX
                ==> final(self).consistent(),
    {
        self.dropped_frames = self.dropped_frames.wrapping_add(1);
    }

    /// Books the end of one frame's delivery.
    pub fn settle(&mut self, end: SendState)
        ensures
            *final(self) == old(self).settled(end),
            old(self).consistent() && old(self).dropped_frames < u32::MAX
                ==> final(self).consistent(),
    {
        match end {
            SendState::Delivered => {},
            SendState::Failed => {
                self.count_error();
                self.count_drop();
            },
            _ => {
                self.count_drop();
            },
        }
    }

    /// Makes the periodic drop report: tells whether a warning is due, and
    /// with how many drops, and marks all drops as reported.
    pub fn report_drops(&mut self, threshold: u32) -> (warning: Option<u32>)
        ensures
            warning == old(self).drop_warning(threshold),
            *final(self) == (Counters {
                last_reported_dropped: old(self).dropped_frames,
                ..*old(self)
            }),
            final(self).consistent(),
    {
        let warning: Option<u32> = if self.dropped_frames >= self.last_reported_dropped
            && self.dropped_frames - self.last_reported_dropped >= threshold {
            Some(self.dropped_frames - self.last_reported_dropped)
        } else {
            None
        };
        self.last_reported_dropped = self.dropped_frames;
        warning
    }
}

impl WriteOutcome {
    /// The outcome that a non-blocking write reported in the `nb` form.
    pub open spec fn of_nb<E>(result: Result<(), nb::Error<E>>) -> WriteOutcome {
        match result {
            Ok(_) => WriteOutcome::Written,
            Err(nb::Error::WouldBlock) => WriteOutcome::WouldBlock,
            Err(nb::Error::Other(_)) => WriteOutcome::Failed,
        }
    }

    /// Reads the result of a non-blocking write.
    pub fn from_nb<E>(result: Result<(), nb::Error<E>>) -> (outcome: WriteOutcome)
        ensures
            outcome == WriteOutcome::of_nb(result),
    {
        match result {
            Ok(_) => WriteOutcome::Written,
            Err(nb::Error::WouldBlock) => WriteOutcome::WouldBlock,
            Err(nb::Error::Other(_)) => WriteOutcome::Failed,
        }
    }

    /// Reads the result of one blocking write of a whole frame.
    pub fn from_blocking<E>(result: Result<(), E>) -> (outcome: WriteOutcome)
        ensures
            outcome == (if result is Ok {
                WriteOutcome::Written
            } else {
                WriteOutcome::Failed
            }),
    {
        match result {
            Ok(_) => WriteOutcome::Written,
            Err(_) => WriteOutcome::Failed,
        }
    }
}

impl SendState {
    /// The state before the first write of a frame of `len` bytes.
    pub open spec fn initial(len: usize) -> SendState {
        if len == 0 {
            SendState::Delivered
        } else {
            SendState::Writing { index: 0, spins: 0 }
        }
    }

    /// The state after one write has come to `outcome`. A taken byte moves
    /// on to the next one, with a fresh spin count. A refusal is one spin;
    /// the frame is abandoned when the spins on one byte reach the budget.
    /// Any failure ends the delivery at once. A state in which nothing is
    /// left to write stays as it is.
    pub open spec fn after(self, outcome: WriteOutcome, len: usize, spin_budget: u32) -> SendState {
        match self {
            SendState::Writing { index, spins } => match outcome {
                WriteOutcome::Written => if index + 1 < len {
                    SendState::Writing { index: (index + 1) as usize, spins: 0 }
                } else {
                    SendState::Delivered
                },
                WriteOutcome::WouldBlock => if spins + 1 >= spin_budget {
                    SendState::Abandoned
                } else {
                    SendState::Writing { index, spins: (spins + 1) as u32 }
                },
                WriteOutcome::Failed => SendState::Failed,
            },
            _ => self,
        }
    }

    /// The state after a run of writes with the given outcomes, in order.
    pub open spec fn after_all(
        self,
        outcomes: Seq<WriteOutcome>,
        len: usize,
        spin_budget: u32,
    ) -> SendState
        decreases outcomes.len(),
    {
        if outcomes.len() == 0 {
            self
        } else {
            self.after_all(outcomes.drop_last(), len, spin_budget).after(
                outcomes.last(),
                len,
                spin_budget,
            )
        }
    }

    /// Nothing is left to write.
    pub open spec fn finished(self) -> bool {
        !(self is Writing)
    }

    /// The state after one blocking write of the whole frame.
    pub open spec fn after_blocking(outcome: WriteOutcome) -> SendState {
        match outcome {
            WriteOutcome::Written => SendState::Delivered,
            WriteOutcome::WouldBlock => SendState::Abandoned,
            WriteOutcome::Failed => SendState::Failed,
        }
    }

    /// Starts the byte-wise delivery of a frame of `len` bytes.
    pub fn start(len: usize) -> (state: SendState)
        ensures
            state == SendState::initial(len),
    {
        if len == 0 {
            SendState::Delivered
        } else {
            SendState::Writing { index: 0, spins: 0 }
        }
    }

    /// The index of the byte to write next, if any is left.
    pub fn pending(&self) -> (index: Option<usize>)
        ensures
            index == (match *self {
                SendState::Writing { index, spins } => Some(index),
                _ => None,
            }),
    {
        match self {
            SendState::Writing { index, spins: _ } => Some(*index),
            _ => None,
        }
    }

    /// Takes the outcome of the write that was pending.
    pub fn advance(self, outcome: WriteOutcome, len: usize, spin_budget: u32) -> (next: SendState)
        ensures
            next == self.after(outcome, len, spin_budget),
    {
        match self {
            SendState::Writing { index, spins } => match outcome {
                WriteOutcome::Written => {
                    if len > 0 && index < len - 1 {
                        SendState::Writing { index: index + 1, spins: 0 }
                    } else {
                        SendState::Delivered
                    }
                },
                WriteOutcome::WouldBlock => {
                    if spins == u32::MAX || spins + 1 >= spin_budget {
                        SendState::Abandoned
                    } else {
                        SendState::Writing { index, spins: spins + 1 }
                    }
                },
                WriteOutcome::Failed => SendState::Failed,
            },
            _ => self,
        }
    }

    /// The end of a delivery that was made with one blocking write of the
    /// whole frame.
    pub fn blocking(outcome: WriteOutcome) -> (end: SendState)
        ensures
            end == SendState::after_blocking(outcome),
            end.finished(),
    {
        match outcome {
            WriteOutcome::Written => SendState::Delivered,
            WriteOutcome::WouldBlock => SendState::Abandoned,
            WriteOutcome::Failed => SendState::Failed,
        }
    }
}

impl WarmupGate {
    /// The warm-up is over: frames go to the sink.
    pub open spec fn streaming(self) -> bool {
        self.remaining == 0
    }

    /// The warm-up after one more frame has come.
    pub open spec fn passed(self) -> WarmupGate {
        if self.remaining > 0 {
            WarmupGate { remaining: (self.remaining - 1) as u32 }
        } else {
            self
        }
    }

    /// The warm-up after `frames` more frames have come.
    pub open spec fn passed_by(self, frames: nat) -> WarmupGate
        decreases frames,
    {
        if frames == 0 {
            self
        } else {
            self.passed_by((frames - 1) as nat).passed()
        }
    }

    /// A gate that holds back the first `warmup_frame_count` frames.
    pub fn new(warmup_frame_count: u32) -> (gate: WarmupGate)
        ensures
            gate.remaining == warmup_frame_count,
    {
        WarmupGate { remaining: warmup_frame_count }
    }

    /// Whether the warm-up is over.
    pub fn is_streaming(&self) -> (streaming: bool)
        ensures
            streaming == self.streaming(),
    {
        self.remaining == 0
    }

    /// Takes one frame and tells whether it goes to the sink.
    /// A frame that is held back uses up one frame of the warm-up.
    pub fn offer(&mut self) -> (deliver: bool)
        ensures
            deliver == old(self).streaming(),
            *final(self) == old(self).passed(),
    {
        if self.remaining > 0 {
            self.remaining = self.remaining - 1;
            false
        } else {
            true
        }
    }
}

/// A gate made for `count` warm-up frames holds back exactly the first
/// `count` frames: the frame that comes after `earlier` others goes to the
/// sink if and only if `earlier` is at least `count`.
pub proof fn lemma_warmup_holds_back_first_frames(count: u32, earlier: nat)
    ensures
        (WarmupGate { remaining: count }).passed_by(earlier).streaming() <==> earlier >= count,
        (WarmupGate { remaining: count }).passed_by(earlier).remaining == (if earlier >= count {
            0
        } else {
            count - earlier
        }),
    decreases earlier,
{
    if earlier > 0 {
        lemma_warmup_holds_back_first_frames(count, (earlier - 1) as nat);
    }
}

/// Once the warm-up is over it stays so.
pub proof fn lemma_streaming_is_final(gate: WarmupGate, frames: nat)
    requires
        gate.streaming(),
    ensures
        gate.passed_by(frames) == gate,
    decreases frames,
{
    if frames > 0 {
        lemma_streaming_is_final(gate, (frames - 1) as nat);
    }
}

/// The number of refusals of one byte after which a frame is abandoned: the
/// spin budget, and 1 for a budget of 0.
pub open spec fn spins_allowed(spin_budget: u32) -> nat {
    if spin_budget == 0 {
        1
    } else {
        spin_budget as nat
    }
}

/// A sink that refuses every write: while fewer refusals have come than the
/// budget allows, the first byte is still pending; from then on the frame
/// is abandoned.
pub proof fn lemma_refusals_abandon_frame(
    len: usize,
    spin_budget: u32,
    outcomes: Seq<WriteOutcome>,
)
    requires
        len > 0,
        forall|i: int| 0 <= i < outcomes.len() ==> outcomes[i] == WriteOutcome::WouldBlock,
    ensures
        SendState::initial(len).after_all(outcomes, len, spin_budget) == (if outcomes.len()
            >= spins_allowed(spin_budget) {
            SendState::Abandoned
        } else {
            SendState::Writing { index: 0, spins: outcomes.len() as u32 }
        }),
    decreases outcomes.len(),
{
    if outcomes.len() > 0 {
        lemma_refusals_abandon_frame(len, spin_budget, outcomes.drop_last());
    }
}

/// A sink that refuses every write costs every frame that reaches it exactly
/// one drop and no error, whatever the spin budget is.
pub proof fn lemma_refusing_sink_drops_once(
    counters: Counters,
    len: usize,
    spin_budget: u32,
    outcomes: Seq<WriteOutcome>,
)
    requires
        len > 0,
        forall|i: int| 0 <= i < outcomes.len() ==> outcomes[i] == WriteOutcome::WouldBlock,
        SendState::initial(len).after_all(outcomes, len, spin_budget).finished(),
    ensures
        counters.settled(SendState::initial(len).after_all(outcomes, len, spin_budget)) == (
        Counters { dropped_frames: wrapping_next(counters.dropped_frames), ..counters }),
{
    lemma_refusals_abandon_frame(len, spin_budget, outcomes);
}

/// A finished delivery takes no further outcome.
pub proof fn lemma_finished_is_final(
    state: SendState,
    outcomes: Seq<WriteOutcome>,
    len: usize,
    spin_budget: u32,
)
    requires
        state.finished(),
    ensures
        state.after_all(outcomes, len, spin_budget) == state,
    decreases outcomes.len(),
{
    if outcomes.len() > 0 {
        lemma_finished_is_final(state, outcomes.drop_last(), len, spin_budget);
    }
}

/// The writes that a delivery can still take before it is finished, at
/// most.
pub open spec fn writes_left(state: SendState, len: usize, spin_budget: u32) -> nat {
    match state {
        SendState::Writing { index, spins } => if index < len && spins < spins_allowed(
            spin_budget,
        ) {
            ((len - index) * spins_allowed(spin_budget) - spins) as nat
        } else {
            1
        },
        _ => 0,
    }
}

/// Every write brings a delivery that has started closer to its end.
pub proof fn lemma_write_makes_progress(
    state: SendState,
    outcome: WriteOutcome,
    len: usize,
    spin_budget: u32,
)
    requires
        state matches SendState::Writing { index, spins } && index < len && spins < spins_allowed(
            spin_budget,
        ),
    ensures
        writes_left(state.after(outcome, len, spin_budget), len, spin_budget) < writes_left(
            state,
            len,
            spin_budget,
        ),
        state.after(outcome, len, spin_budget) matches SendState::Writing { index, spins }
            ==> index < len && spins < spins_allowed(spin_budget),
{
    let b: int = spins_allowed(spin_budget) as int;
    if let SendState::Writing { index, spins } = state {
        assert((len - index) * b == (len - index - 1) * b + b) by (nonlinear_arith);
        assert((len - index - 1) * b >= 0) by (nonlinear_arith)
            requires
                len - index - 1 >= 0,
                b >= 1,
        ;
        if index + 1 < len {
            assert((len - (index + 1)) * b >= b) by (nonlinear_arith)
                requires
                    len - (index + 1) >= 1,
                    b >= 1,
            ;
        }
    }
}

/// The delivery of a frame is a bounded wait: whatever the sink answers, the
/// delivery is finished after `len` times the allowed spins writes at most.
pub proof fn lemma_delivery_is_bounded(
    len: usize,
    spin_budget: u32,
    outcomes: Seq<WriteOutcome>,
)
    requires
        outcomes.len() >= len * spins_allowed(spin_budget),
    ensures
        SendState::initial(len).after_all(outcomes, len, spin_budget).finished(),
{
    lemma_writes_left_shrinks(len, spin_budget, outcomes);
    let end = SendState::initial(len).after_all(outcomes, len, spin_budget);
    if let SendState::Writing { index, spins } = end {
        let b: int = spins_allowed(spin_budget) as int;
        assert((len - index) * b >= b) by (nonlinear_arith)
            requires
                len - index >= 1,
                b >= 1,
        ;
    }
}

proof fn lemma_writes_left_shrinks(len: usize, spin_budget: u32, outcomes: Seq<WriteOutcome>)
    ensures
        ({
            let end = SendState::initial(len).after_all(outcomes, len, spin_budget);
            &&& writes_left(end, len, spin_budget) + outcomes.len() <= len * spins_allowed(
                spin_budget,
            ) || end.finished()
            &&& end matches SendState::Writing { index, spins } ==> index < len && spins
                < spins_allowed(spin_budget)
        }),
    decreases outcomes.len(),
{
    if outcomes.len() > 0 {
        let before = SendState::initial(len).after_all(outcomes.drop_last(), len, spin_budget);
        lemma_writes_left_shrinks(len, spin_budget, outcomes.drop_last());
        if before is Writing {
            lemma_write_makes_progress(before, outcomes.last(), len, spin_budget);
        }
    } else {
        assert(len * spins_allowed(spin_budget) >= 0) by (nonlinear_arith);
        if len > 0 {
            assert((len - 0) * spins_allowed(spin_budget) - 0 == len * spins_allowed(spin_budget));
        }
    }
}

} // verus!
