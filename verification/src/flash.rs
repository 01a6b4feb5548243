//! The flash transaction: open the port, connect, write every segment, reset.
//!
//! The transaction is a state machine that the shell drives. In each state
//! the machine names the one command that is due ([`Flash::command`]); the
//! shell carries it out on the device and reports whether it succeeded
//! ([`Flash::advance`]). Nothing is retried: the first failure ends the
//! transaction, and segments that were written before it stay written.

use vstd::prelude::*;
use crate::endpoint::{EndpointView, SerialEndpoint};
use crate::error::{Outcome, PipelineError};

verus! {

/// The speed at which the port is opened, in bits per second.
pub const BAUD_RATE: u32 = 115_200;

/// The longest that one read or write on the port may take, in milliseconds.
pub const IO_TIMEOUT_MS: u64 = 1_000;

/// The chip families that can be flashed.
#[derive(Clone, Copy, Debug, PartialEq, Eq, Structural)]
pub enum ChipFamily {
    Esp32,
    Esp32c2,
    Esp32c3,
    Esp32c6,
    Esp32h2,
    Esp32p4,
    Esp32s2,
    Esp32s3,
}

/// How the target is brought into its flashable state before the handshake.
#[derive(Clone, Copy, Debug, PartialEq, Eq, Structural)]
pub enum ResetBefore {
    /// The usual reset sequence on the control lines.
    DefaultReset,
    /// No reset; the handshake starts at once.
    NoReset,
    /// No reset and no synchronisation.
    NoResetNoSync,
    /// The reset sequence of a USB serial peripheral.
    UsbReset,
}

/// What is done to the target once everything is written.
#[derive(Clone, Copy, Debug, PartialEq, Eq, Structural)]
pub enum ResetAfter {
    /// Reset into the newly written firmware.
    HardReset,
    /// Leave the target in its bootloader; no reset is performed.
    NoReset,
    /// Leave the target in the flasher stub; no reset is performed.
    NoResetNoStub,
}

/// What one flash transaction is aimed at.
#[derive(Clone, Debug, PartialEq, Eq)]
pub struct FlashTarget {
    pub endpoint: SerialEndpoint,
    pub chip: ChipFamily,
    pub reset_before: ResetBefore,
    pub reset_after: ResetAfter,
}

/// What a [`FlashTarget`] holds.
pub struct TargetView {
    pub endpoint: EndpointView,
    pub chip: ChipFamily,
    pub reset_before: ResetBefore,
    pub reset_after: ResetAfter,
}

impl View for FlashTarget {
    type V = TargetView;

    open spec fn view(&self) -> TargetView {
        TargetView {
            endpoint: self.endpoint@,
            chip: self.chip,
            reset_before: self.reset_before,
            reset_after: self.reset_after,
        }
    }
}

impl FlashTarget {
    /// A target with the usual reset policies: the default reset sequence
    /// before, a hard reset after.
    pub fn new(endpoint: SerialEndpoint, chip: ChipFamily) -> (target: FlashTarget)
        ensures
            target@ == (TargetView {
                endpoint: endpoint@,
                chip,
                reset_before: ResetBefore::DefaultReset,
                reset_after: ResetAfter::HardReset,
            }),
    {
        FlashTarget {
            endpoint,
            chip,
            reset_before: ResetBefore::DefaultReset,
            reset_after: ResetAfter::HardReset,
        }
    }
}

/// Where a flash transaction stands.
#[derive(Clone, Copy, Debug, PartialEq, Eq, Structural)]
pub enum FlashPhase {
    /// Nothing has been done yet.
    Idle,
    /// The port is open.
    PortOpened,
    /// The target has answered the handshake; no segment is written yet.
    Connected,
    /// Some segments are written, others are still to come.
    Writing,
    /// Every segment is written.
    Done,
    /// A step failed, as the error says; the transaction is over.
    Failed(PipelineError),
}

/// What the shell is to do next on the device.
#[derive(Clone, Copy, Debug, PartialEq, Eq, Structural)]
pub enum FlashCommand {
    /// Open the port at [`BAUD_RATE`] with [`IO_TIMEOUT_MS`].
    OpenPort,
    /// Perform the connect handshake, with the target's reset-before policy.
    Connect,
    /// Write the segment with this index to its flash offset.
    Write(usize),
    /// Apply the target's reset-after policy and report success.
    Finish,
    /// Report this failure; nothing more is done on the device.
    Abort(PipelineError),
}

/// How a flash transaction ended.
pub type FlashResult = Outcome;

/// What a [`Flash`] holds.
pub struct FlashView {
    pub phase: FlashPhase,
    /// How many segments the transaction has to write.
    pub total: nat,
    /// How many segments have been written, which are the first so many of
    /// the list.
    pub written: nat,
}

impl FlashView {
    /// A transaction for `total` segments, before anything is done.
    pub open spec fn start(total: nat) -> FlashView {
        FlashView { phase: FlashPhase::Idle, total, written: 0 }
    }

    /// Whether the transaction is over.
    pub open spec fn terminal(self) -> bool {
        self.phase is Done || self.phase is Failed
    }

    /// Why the transaction failed, once it has.
    pub open spec fn failure(self) -> Option<PipelineError> {
        match self.phase {
            FlashPhase::Failed(error) => Some(error),
            _ => None,
        }
    }

    /// What every state that the machine can reach satisfies.
    pub open spec fn wf(self) -> bool {
        match self.phase {
            FlashPhase::Idle | FlashPhase::PortOpened => self.written == 0,
            FlashPhase::Connected => self.written == 0 && self.total > 0,
            FlashPhase::Writing => 0 < self.written < self.total,
            FlashPhase::Done => self.written == self.total,
            FlashPhase::Failed(PipelineError::PortOpenError) => self.written == 0,
            FlashPhase::Failed(PipelineError::HandshakeError) => self.written == 0,
            FlashPhase::Failed(PipelineError::WriteError(index)) => index == self.written as usize
                && self.written < self.total,
            FlashPhase::Failed(_) => false,
        }
    }

    /// The transaction after it failed with `error`.
    pub open spec fn failed(self, error: PipelineError) -> FlashView {
        FlashView { phase: FlashPhase::Failed(error), ..self }
    }

    /// The command that is due.
    pub open spec fn command(self) -> FlashCommand {
        match self.phase {
            FlashPhase::Idle => FlashCommand::OpenPort,
            FlashPhase::PortOpened => FlashCommand::Connect,
            FlashPhase::Connected | FlashPhase::Writing => FlashCommand::Write(
                self.written as usize,
            ),
            FlashPhase::Done => FlashCommand::Finish,
            FlashPhase::Failed(error) => FlashCommand::Abort(error),
        }
    }

    /// The state after the command that was due has succeeded (`ok`) or failed.
    pub open spec fn step(self, ok: bool) -> FlashView {
        match self.phase {
            FlashPhase::Idle => if ok {
                FlashView { phase: FlashPhase::PortOpened, ..self }
            } else {
                self.failed(PipelineError::PortOpenError)
            },
            FlashPhase::PortOpened => if !ok {
                self.failed(PipelineError::HandshakeError)
            } else if self.total == 0 {
                FlashView { phase: FlashPhase::Done, ..self }
            } else {
                FlashView { phase: FlashPhase::Connected, ..self }
            },
            FlashPhase::Connected | FlashPhase::Writing => if !ok {
                self.failed(PipelineError::WriteError(self.written as usize))
            } else if self.written + 1 == self.total {
                FlashView { phase: FlashPhase::Done, written: self.written + 1, ..self }
            } else {
                FlashView { phase: FlashPhase::Writing, written: self.written + 1, ..self }
            },
            FlashPhase::Done | FlashPhase::Failed(_) => self,
        }
    }

    /// The state after a run of commands whose outcomes are `outcomes`, in order.
    pub open spec fn run(self, outcomes: Seq<bool>) -> FlashView
        decreases outcomes.len(),
    {
        if outcomes.len() == 0 {
            self
        } else {
            self.step(outcomes.first()).run(outcomes.drop_first())
        }
    }

    /// How the transaction ended, once it is over.
    pub open spec fn result(self) -> Option<FlashResult> {
        match self.phase {
            FlashPhase::Done => Some(Ok(())),
            FlashPhase::Failed(error) => Some(Err(error)),
            _ => None,
        }
    }
}

/// A flash transaction in progress.
#[derive(Debug, PartialEq, Eq)]
pub struct Flash {
    phase: FlashPhase,
    total: usize,
    written: usize,
}

impl View for Flash {
    type V = FlashView;

    closed spec fn view(&self) -> FlashView {
        FlashView { phase: self.phase, total: self.total as nat, written: self.written as nat }
    }
}

impl Flash {
    #[verifier::type_invariant]
    spec fn inv(self) -> bool {
        self@.wf()
    }

    /// A transaction that is to write `total` segments.
    pub fn new(total: usize) -> (flash: Flash)
        ensures
            flash@ == FlashView::start(total as nat),
    {
        Flash { phase: FlashPhase::Idle, total, written: 0 }
    }

    /// Where the transaction stands.
    pub fn phase(&self) -> (phase: FlashPhase)
        ensures
            phase == self@.phase,
    {
        self.phase
    }

    /// How many segments have been written.
    pub fn written(&self) -> (written: usize)
        ensures
            written == self@.written,
            self@.wf(),
    {
        proof {
            use_type_invariant(self);
        }
        self.written
    }

    /// How many segments the transaction has to write.
    pub fn total(&self) -> (total: usize)
        ensures
            total == self@.total,
    {
        self.total
    }

    /// The command that is due.
    pub fn command(&self) -> (command: FlashCommand)
        ensures
            command == self@.command(),
            self@.wf(),
    {
        proof {
            use_type_invariant(self);
        }
        match self.phase {
            FlashPhase::Idle => FlashCommand::OpenPort,
            FlashPhase::PortOpened => FlashCommand::Connect,
            FlashPhase::Connected | FlashPhase::Writing => FlashCommand::Write(self.written),
            FlashPhase::Done => FlashCommand::Finish,
            FlashPhase::Failed(error) => FlashCommand::Abort(error),
        }
    }

    /// Takes note of how the command that was due has ended.
    pub fn advance(self, ok: bool) -> (next: Flash)
        ensures
            next@ == self@.step(ok),
            next@.wf(),
    {
        proof {
            use_type_invariant(&self);
        }
        let Flash { phase, total, written } = self;
        match phase {
            FlashPhase::Idle => if ok {
                Flash { phase: FlashPhase::PortOpened, total, written }
            } else {
                Flash { phase: FlashPhase::Failed(PipelineError::PortOpenError), total, written }
            },
            FlashPhase::PortOpened => if !ok {
                Flash { phase: FlashPhase::Failed(PipelineError::HandshakeError), total, written }
            } else if total == 0 {
                Flash { phase: FlashPhase::Done, total, written }
            } else {
                Flash { phase: FlashPhase::Connected, total, written }
            },
            FlashPhase::Connected | FlashPhase::Writing => if !ok {
                Flash {
                    phase: FlashPhase::Failed(PipelineError::WriteError(written)),
                    total,
                    written,
                }
            } else if written + 1 == total {
                Flash { phase: FlashPhase::Done, total, written: written + 1 }
            } else {
                Flash { phase: FlashPhase::Writing, total, written: written + 1 }
            },
            FlashPhase::Done | FlashPhase::Failed(_) => Flash { phase, total, written },
        }
    }

    /// The transaction for `total` segments after the commands that fell due
    /// have ended as `reports` says, in order.
    pub fn replay(total: usize, reports: &Vec<bool>) -> (flash: Flash)
        ensures
            flash@ == FlashView::start(total as nat).run(reports@),
    {
        let mut flash = Flash::new(total);
        let mut i: usize = 0;
        while i < reports.len()
            invariant
                i <= reports.len(),
                flash@ == FlashView::start(total as nat).run(reports@.take(i as int)),
            decreases reports.len() - i,
        {
            proof {
                lemma_run_then_step(
                    FlashView::start(total as nat),
                    reports@.take(i as int),
                    reports@[i as int],
                );
                assert(reports@.take(i as int).push(reports@[i as int]) =~= reports@.take(i + 1));
            }
            flash = flash.advance(reports[i]);
            i += 1;
        }
        assert(reports@.take(i as int) =~= reports@);
        flash
    }

    /// How the transaction ended; `None` while it is still under way.
    pub fn result(&self) -> (result: Option<FlashResult>)
        ensures
            result == self@.result(),
    {
        match self.phase {
            FlashPhase::Done => Some(Ok(())),
            FlashPhase::Failed(error) => Some(Err(error)),
            _ => None,
        }
    }
}

/// Every state that the machine reaches from a state of its own is one of
/// its own.
pub proof fn lemma_step_keeps_shape(flash: FlashView, ok: bool)
    requires
        flash.wf(),
    ensures
        flash.step(ok).wf(),
        flash.step(ok).total == flash.total,
        flash.step(ok).written == flash.written || flash.step(ok).written == flash.written + 1,
{
}

/// A transaction that is over stays as it is, whatever is reported to it.
pub proof fn lemma_terminal_stays(flash: FlashView, outcomes: Seq<bool>)
    requires
        flash.terminal(),
    ensures
        flash.run(outcomes) == flash,
    decreases outcomes.len(),
{
    if outcomes.len() > 0 {
        lemma_terminal_stays(flash, outcomes.drop_first());
    }
}

/// From every state in which the transaction is not over, one failure leads
/// to `Failed`, and the failure names the step: the port, the handshake, or
/// the segment that was being written.
pub proof fn lemma_failure_ends_it(flash: FlashView)
    requires
        flash.wf(),
        !flash.terminal(),
    ensures
        flash.step(false).written == flash.written,
        flash.step(false).phase == FlashPhase::Failed(
            match flash.phase {
                FlashPhase::Idle => PipelineError::PortOpenError,
                FlashPhase::PortOpened => PipelineError::HandshakeError,
                _ => PipelineError::WriteError(flash.written as usize),
            },
        ),
{
}

/// A run of successes.
pub open spec fn successes(count: nat) -> Seq<bool> {
    Seq::new(count, |i: int| true)
}

/// While everything succeeds, the segments are written one after the other in
/// listed order: after the port, the handshake and `k` writes have succeeded,
/// exactly the first `k` segments are written, and the command that is due is
/// the write of segment `k`, or the finish once all are written.
pub proof fn lemma_writes_in_order(total: nat, k: nat)
    requires
        k <= total <= usize::MAX,
    ensures
        FlashView::start(total).run(successes(2 + k)).wf(),
        FlashView::start(total).run(successes(2 + k)).total == total,
        FlashView::start(total).run(successes(2 + k)).written == k,
        FlashView::start(total).run(successes(2 + k)).command() == if k < total {
            FlashCommand::Write(k as usize)
        } else {
            FlashCommand::Finish
        },
    decreases k,
{
    let start = FlashView::start(total);
    if k == 0 {
        reveal_with_fuel(FlashView::run, 3);
        assert(successes(2).drop_first().drop_first().len() == 0);
    } else {
        lemma_writes_in_order(total, (k - 1) as nat);
        let before = successes((2 + k - 1) as nat);
        lemma_run_then_step(start, before, true);
        assert(before.push(true) =~= successes(2 + k));
    }
}

/// Running through `outcomes` and then one more outcome is one more step.
pub proof fn lemma_run_then_step(flash: FlashView, outcomes: Seq<bool>, last: bool)
    ensures
        flash.run(outcomes.push(last)) == flash.run(outcomes).step(last),
    decreases outcomes.len(),
{
    if outcomes.len() == 0 {
        reveal_with_fuel(FlashView::run, 2);
    } else {
        assert(outcomes.push(last).drop_first() =~= outcomes.drop_first().push(last));
        lemma_run_then_step(flash.step(outcomes.first()), outcomes.drop_first(), last);
    }
}

/// Every run from a state of the machine ends in a state of the machine, and
/// never with fewer segments written than before.
pub proof fn lemma_run_keeps_shape(flash: FlashView, outcomes: Seq<bool>)
    requires
        flash.wf(),
    ensures
        flash.run(outcomes).wf(),
        flash.run(outcomes).total == flash.total,
        flash.run(outcomes).written >= flash.written,
    decreases outcomes.len(),
{
    if outcomes.len() > 0 {
        lemma_step_keeps_shape(flash, outcomes.first());
        lemma_run_keeps_shape(flash.step(outcomes.first()), outcomes.drop_first());
    }
}

/// When the handshake fails after the port has opened, the transaction ends
/// with `HandshakeError`; whatever is reported afterwards, no segment is
/// written and no write falls due.
pub proof fn lemma_failed_handshake_writes_nothing(total: nat, later: Seq<bool>)
    ensures
        FlashView::start(total).run(seq![true, false] + later).result() == Some(
            Err::<(), PipelineError>(PipelineError::HandshakeError),
        ),
        FlashView::start(total).run(seq![true, false] + later).written == 0,
        FlashView::start(total).run(seq![true, false] + later).command() == FlashCommand::Abort(
            PipelineError::HandshakeError,
        ),
{
    let start = FlashView::start(total);
    let failed = start.step(true).step(false);
    let outcomes = seq![true, false] + later;
    assert(outcomes.drop_first().drop_first() =~= later);
    reveal_with_fuel(FlashView::run, 3);
    lemma_terminal_stays(failed, later);
}

/// A transaction fails with `WriteError(i)` only when exactly the segments
/// before `i` are written: the error names the segment that failed.
pub proof fn lemma_write_error_names_segment(total: nat, outcomes: Seq<bool>, index: usize)
    requires
        total <= usize::MAX,
        FlashView::start(total).run(outcomes).phase == FlashPhase::Failed(
            PipelineError::WriteError(index),
        ),
    ensures
        FlashView::start(total).run(outcomes).written == index,
        index < total,
{
    lemma_run_keeps_shape(FlashView::start(total), outcomes);
}

} // verus!
