//! Interrupting and suspending a run.

use vstd::prelude::*;

use crate::report::{interrupt_text, Tally};
use crate::style::{BLUE, GREEN, RED, RESET, YELLOW};
use crate::text::decimal;

verus! {

/// The exit status of a run that was interrupted.
pub const EXIT_INTERRUPTED: i32 = 130;

/// Whether a run was interrupted.
#[derive(Debug)]
pub struct InterruptHandler {
    pub interrupted: bool,
}

/// What to do at an interrupt, before the process exits with `EXIT_INTERRUPTED`.
#[derive(Debug)]
pub enum InterruptAction {
    /// Clean up, then write this summary.
    Summarize(String),
    /// Write this, then clean up.
    ForceExit(String),
}

/// What is written at an interrupt while another one is dealt with.
pub open spec fn force_exit_text() -> Seq<char> {
    "\n"@ + RED@ + "*"@ + RESET@ + " Force exit.\n"@
}

/// A handler before any interrupt.
pub fn install_interrupt_handler() -> (r: InterruptHandler)
    ensures
        !r.interrupted,
{
    InterruptHandler { interrupted: false }
}

impl InterruptHandler {
    /// Decides what an interrupt does: the first one ends the run with a summary, and any
    /// other one at once.
    pub fn on_interrupt(&mut self, tally: &Tally) -> (r: InterruptAction)
        ensures
            final(self).interrupted,
            match r {
                InterruptAction::Summarize(text) => !old(self).interrupted && text@
                    == interrupt_text(*tally, "Interrupted by user."@),
                InterruptAction::ForceExit(text) => old(self).interrupted && text@
                    == force_exit_text(),
            },
            r matches InterruptAction::ForceExit(text) ==> text@ == "\n"@ + RED@ + "*"@ + RESET@
                + " Force exit.\n"@,
            r is ForceExit <==> old(self).interrupted,
            r matches InterruptAction::Summarize(text) ==> ({
                let left: nat = if tally.index < tally.total {
                    (tally.total - tally.index) as nat
                } else {
                    0
                };
                text@ == "\r\x1b[J"@ + YELLOW@ + "*"@ + RESET@ + " Verification interrupted ["@
                    + decimal(left) + "/"@ + decimal(tally.total as nat) + " unchecked]\n\n"@ + RED@
                    + "*"@ + RESET@ + " "@ + "Interrupted by user."@ + "\n"@ + BLUE@ + "*"@ + RESET@
                    + " OK: "@ + decimal(tally.ok as nat) + "  Errors: "@ + decimal(
                    tally.err as nat,
                ) + "  Unchecked: "@ + decimal(left) + "\n"@
            }),
    {
        if self.interrupted {
            let mut out = "\n".to_owned();
            out.append(RED);
            out.append("*");
            out.append(RESET);
            out.append(" Force exit.\n");
            InterruptAction::ForceExit(out)
        } else {
            self.interrupted = true;
            InterruptAction::Summarize(tally.interrupt_summary("Interrupted by user."))
        }
    }
}

/// A signal that concerns suspending.
#[derive(Clone, Copy, Debug, PartialEq, Eq, Structural)]
pub enum Signal {
    /// The terminal asks the process to stop.
    Stop,
    /// The process was resumed.
    Continue,
    /// Any other signal.
    Other,
}

/// Whether a run is suspended.
#[derive(Debug, PartialEq, Eq, Structural)]
pub struct SuspendHandler {
    /// No thread may write to the terminal.
    pub paused: bool,
}

/// What to do at a signal.
#[derive(Debug)]
pub enum SuspendAction {
    /// Write this, let the other threads come to rest, and stop the process.
    Suspend(String),
    /// Write this.
    Announce(String),
    /// Nothing.
    Ignore,
}

/// What is written before the process stops.
pub open spec fn paused_text() -> Seq<char> {
    "\r\x1b[J"@ + YELLOW@ + "*"@ + RESET@ + " Paused (Ctrl+Z). Resume with 'fg'.\n"@
}

/// What is written once the process is resumed.
pub open spec fn resumed_text() -> Seq<char> {
    GREEN@ + "*"@ + RESET@ + " Resumed.\n"@
}

/// A handler for suspending, if the signals can be listened to; a run goes on without one.
pub fn install_suspend_handler(listening: bool) -> (r: Option<SuspendHandler>)
    ensures
        r == if listening {
            Some(SuspendHandler { paused: false })
        } else {
            None
        },
{
    if listening {
        Some(SuspendHandler { paused: false })
    } else {
        None
    }
}

impl SuspendHandler {
    /// The run is suspended after a signal.
    pub open spec fn paused_after(self, signal: Signal) -> bool {
        match signal {
            Signal::Stop => true,
            Signal::Continue => false,
            Signal::Other => self.paused,
        }
    }

    /// A signal makes the handler say that the run goes on.
    pub open spec fn announces(self, signal: Signal) -> bool {
        signal is Continue && self.paused
    }

    /// Decides what a signal does.
    pub fn on_signal(&mut self, signal: Signal) -> (r: SuspendAction)
        ensures
            final(self).paused == old(self).paused_after(signal),
            match r {
                SuspendAction::Suspend(text) => signal is Stop && text@ == paused_text(),
                SuspendAction::Announce(text) => old(self).announces(signal) && text@
                    == resumed_text(),
                SuspendAction::Ignore => !(signal is Stop) && !old(self).announces(signal),
            },
            match signal {
                Signal::Stop => {
                    &&& final(self).paused
                    &&& r matches SuspendAction::Suspend(text)
                    &&& text@ == "\r\x1b[J"@ + YELLOW@ + "*"@ + RESET@
                        + " Paused (Ctrl+Z). Resume with 'fg'.\n"@
                },
                Signal::Continue => {
                    &&& !final(self).paused
                    &&& if old(self).paused {
                        &&& r matches SuspendAction::Announce(text)
                        &&& text@ == GREEN@ + "*"@ + RESET@ + " Resumed.\n"@
                    } else {
                        r is Ignore
                    }
                },
                Signal::Other => r is Ignore && final(self).paused == old(self).paused,
            },
    {
        match signal {
            Signal::Stop => {
                self.paused = true;
                let mut out = "\r\x1b[J".to_owned();
                out.append(YELLOW);
                out.append("*");
                out.append(RESET);
                out.append(" Paused (Ctrl+Z). Resume with 'fg'.\n");
                SuspendAction::Suspend(out)
            },
            Signal::Continue => if self.paused {
                self.paused = false;
                let mut out = GREEN.to_owned();
                out.append("*");
                out.append(RESET);
                out.append(" Resumed.\n");
                SuspendAction::Announce(out)
            } else {
                SuspendAction::Ignore
            },
            Signal::Other => SuspendAction::Ignore,
        }
    }
}

/// The handler after a history of signals.
pub open spec fn handler_after(signals: Seq<Signal>) -> SuspendHandler
    decreases signals.len(),
{
    if signals.len() == 0 {
        SuspendHandler { paused: false }
    } else {
        SuspendHandler {
            paused: handler_after(signals.drop_last()).paused_after(signals.last()),
        }
    }
}

/// How often a history of signals makes the handler say that the run goes on.
pub open spec fn announcements(signals: Seq<Signal>) -> nat
    decreases signals.len(),
{
    if signals.len() == 0 {
        0
    } else {
        announcements(signals.drop_last()) + if handler_after(signals.drop_last()).announces(
            signals.last(),
        ) {
            1nat
        } else {
            0
        }
    }
}

/// How often a history of signals suspends the run.
pub open spec fn suspensions(signals: Seq<Signal>) -> nat
    decreases signals.len(),
{
    if signals.len() == 0 {
        0
    } else {
        suspensions(signals.drop_last()) + if signals.last() is Stop {
            1nat
        } else {
            0
        }
    }
}

/// A run is suspended if and only if the last signal to stop came after the last to continue,
/// and going on is announced exactly when a signal to continue ends that.
pub proof fn law_last_signal_decides(signals: Seq<Signal>, other: Seq<Signal>)
    requires
        forall|i: int| 0 <= i < other.len() ==> #[trigger] other[i] is Other,
    ensures
        handler_after(signals.push(Signal::Stop) + other).paused,
        !handler_after(signals.push(Signal::Continue) + other).paused,
        !handler_after(other).paused,
        handler_after(signals.push(Signal::Stop) + other).announces(Signal::Continue),
        !handler_after(signals.push(Signal::Continue) + other).announces(Signal::Continue),
    decreases other.len(),
{
    let (a, b) = (signals.push(Signal::Stop), signals.push(Signal::Continue));
    if other.len() == 0 {
        assert(a + other =~= a && b + other =~= b);
        assert(a.drop_last() =~= signals && b.drop_last() =~= signals);
    } else {
        let less = other.drop_last();
        assert forall|i: int| 0 <= i < less.len() implies #[trigger] less[i] is Other by {
            assert(less[i] == other[i]);
        }
        law_last_signal_decides(signals, less);
        assert((a + other).drop_last() =~= a + less);
        assert((b + other).drop_last() =~= b + less);
        assert(other.last() == other[other.len() - 1]);
    }
}

/// A run is never said to go on more often than it was suspended, and less often as long as it
/// is.
pub proof fn law_resuming_follows_suspending(signals: Seq<Signal>)
    ensures
        announcements(signals) <= suspensions(signals),
        handler_after(signals).paused ==> announcements(signals) < suspensions(signals),
    decreases signals.len(),
{
    if signals.len() > 0 {
        law_resuming_follows_suspending(signals.drop_last());
    }
}

} // verus!
