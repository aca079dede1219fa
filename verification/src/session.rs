//! The life of one run of the program, and when the cache is written.
//!
//! A run starts, gets ready, takes commands, shuts down, writes the cache if
//! it has to, and ends. A start that fails ends the run before any command
//! is taken.

use std::sync::atomic::AtomicBool;
use std::sync::atomic::Ordering;
use vstd::prelude::*;

verus! {

/// Seconds between two looks at the flag that says that the cache has to be
/// written again.
pub const CACHE_FLUSH_INTERVAL: u64 = 240;

/// How many requests to write the cache may wait at once.
pub const FLUSH_QUEUE: usize = 20;

/// Seconds that the look for a newer release may take.
pub const VERSION_CHECK_TIMEOUT: u64 = 6;

/// Where a run stands.
#[derive(Debug, Clone, Copy, PartialEq, Eq, Structural)]
pub enum Phase {
    /// The directories are found and the cache is read or built.
    Starting,
    /// All is there; no command was asked for yet.
    Ready,
    /// Commands are taken.
    Interactive,
    /// No command is taken any more; tasks still at work are left alone.
    ShuttingDown,
    /// The cache is written, if it has to be.
    Flushing,
    /// The run is over.
    Terminated,
}

/// What happens to a run.
#[derive(Debug, Clone, Copy, PartialEq, Eq, Structural)]
pub enum Signal {
    /// The start has succeeded.
    Started,
    /// The start has failed for good.
    StartupFailed,
    /// The prompt is shown.
    Prompt,
    /// The user or the system interrupts the run or closes its window.
    Interrupt,
    /// The user asks to leave.
    Quit,
    /// The prompt is taken down.
    Stopped,
    /// The cache is written, or did not have to be.
    Flushed,
}

/// The phase that follows `phase` on `signal`. A signal that has no meaning
/// in a phase leaves it as it is.
pub open spec fn next_phase(phase: Phase, signal: Signal) -> Phase {
    match (phase, signal) {
        (Phase::Starting, Signal::Started) => Phase::Ready,
        (Phase::Starting, Signal::StartupFailed) => Phase::Terminated,
        (Phase::Ready, Signal::Prompt) => Phase::Interactive,
        (Phase::Interactive, Signal::Interrupt) => Phase::ShuttingDown,
        (Phase::Interactive, Signal::Quit) => Phase::ShuttingDown,
        (Phase::ShuttingDown, Signal::Stopped) => Phase::Flushing,
        (Phase::Flushing, Signal::Flushed) => Phase::Terminated,
        _ => phase,
    }
}

/// The phase that follows `phase` on `signal`.
pub fn advance(phase: Phase, signal: Signal) -> (next: Phase)
    ensures
        next == next_phase(phase, signal),
{
    match (phase, signal) {
        (Phase::Starting, Signal::Started) => Phase::Ready,
        (Phase::Starting, Signal::StartupFailed) => Phase::Terminated,
        (Phase::Ready, Signal::Prompt) => Phase::Interactive,
        (Phase::Interactive, Signal::Interrupt) => Phase::ShuttingDown,
        (Phase::Interactive, Signal::Quit) => Phase::ShuttingDown,
        (Phase::ShuttingDown, Signal::Stopped) => Phase::Flushing,
        (Phase::Flushing, Signal::Flushed) => Phase::Terminated,
        _ => phase,
    }
}

/// Whether commands are taken in `phase`.
pub fn accepts_commands(phase: Phase) -> (accepts: bool)
    ensures
        accepts == (phase is Interactive),
{
    match phase {
        Phase::Interactive => true,
        _ => false,
    }
}

/// Whether the cache is written now: at the end of a run, and only if
/// something in it has changed since it was last written.
pub fn flush_on_exit(phase: Phase, cache_needs_update: bool) -> (flush: bool)
    ensures
        flush == (phase is Flushing && cache_needs_update),
{
    match phase {
        Phase::Flushing => cache_needs_update,
        _ => false,
    }
}

/// The phase that a run is in after `signals`, one after the other.
pub open spec fn phase_after(phase: Phase, signals: Seq<Signal>) -> Phase
    decreases signals.len(),
{
    if signals.len() == 0 {
        phase
    } else {
        next_phase(phase_after(phase, signals.drop_last()), signals.last())
    }
}

/// How far a run has come.
pub open spec fn progress(phase: Phase) -> nat {
    match phase {
        Phase::Starting => 0,
        Phase::Ready => 1,
        Phase::Interactive => 2,
        Phase::ShuttingDown => 3,
        Phase::Flushing => 4,
        Phase::Terminated => 5,
    }
}

/// A run never goes back, whatever happens to it.
pub proof fn lemma_run_goes_forward(phase: Phase, signals: Seq<Signal>)
    ensures
        progress(phase) <= progress(phase_after(phase, signals)),
    decreases signals.len(),
{
    if signals.len() > 0 {
        lemma_run_goes_forward(phase, signals.drop_last());
    }
}

/// A run whose start has failed is over: whatever happens after that, it
/// never takes a command.
pub proof fn lemma_failed_start_takes_no_command(signals: Seq<Signal>)
    ensures
        phase_after(next_phase(Phase::Starting, Signal::StartupFailed), signals)
            == Phase::Terminated,
{
    lemma_run_goes_forward(Phase::Terminated, signals);
}

/// A run that takes commands has started with success.
pub proof fn lemma_commands_need_a_start(signals: Seq<Signal>)
    requires
        phase_after(Phase::Starting, signals) is Interactive,
    ensures
        signals.contains(Signal::Started),
        signals.contains(Signal::Prompt),
    decreases signals.len(),
{
    if signals.len() > 0 {
        let init = signals.drop_last();
        let before = phase_after(Phase::Starting, init);
        if before is Interactive {
            lemma_commands_need_a_start(init);
            let i = choose|i: int| 0 <= i < init.len() && init[i] == Signal::Started;
            assert(signals[i] == Signal::Started);
            let k = choose|k: int| 0 <= k < init.len() && init[k] == Signal::Prompt;
            assert(signals[k] == Signal::Prompt);
        } else {
            assert(before is Ready && signals.last() == Signal::Prompt);
            assert(signals[signals.len() - 1] == Signal::Prompt);
            lemma_ready_needs_a_start(init);
            let i = choose|i: int| 0 <= i < init.len() && init[i] == Signal::Started;
            assert(signals[i] == Signal::Started);
        }
    }
}

proof fn lemma_ready_needs_a_start(signals: Seq<Signal>)
    requires
        phase_after(Phase::Starting, signals) is Ready,
    ensures
        signals.contains(Signal::Started),
    decreases signals.len(),
{
    if signals.len() > 0 {
        let init = signals.drop_last();
        let before = phase_after(Phase::Starting, init);
        if before is Ready {
            lemma_ready_needs_a_start(init);
            let i = choose|i: int| 0 <= i < init.len() && init[i] == Signal::Started;
            assert(signals[i] == Signal::Started);
        } else {
            assert(before is Starting && signals.last() == Signal::Started);
            assert(signals[signals.len() - 1] == Signal::Started);
        }
    }
}

/// Looks at the flag that says that the cache has to be written again, and
/// takes it down in the same step. Says whether it was up: the cache is
/// then to be written, by the one task that writes it.
pub fn flush_due(cache_needs_update: &AtomicBool) -> (due: bool) {
    let exchange = cache_needs_update.compare_exchange(
        true,
        false,
        Ordering::SeqCst,
        Ordering::SeqCst,
    );
    flag_was_up(exchange)
}

/// Reads the answer to an attempt to take the flag down: whether the flag
/// was up, and so was taken down. `exchange` is what the attempt came to:
/// `Ok` where the flag was up, `Err` where it was down already.
pub fn flag_was_up(exchange: Result<bool, bool>) -> (due: bool)
    ensures
        due == (exchange is Ok),
{
    match exchange {
        Ok(_) => true,
        Err(_) => false,
    }
}

} // verus!
