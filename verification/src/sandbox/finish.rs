//! How a confined process finished, and the wait that gives it the chance to.
//!
//! The host closes its end of the conversation first, which tells the program
//! there is nothing more to wait for; then the program is given a grace to act
//! on that, because one killed while it was still tidying up left its tidying
//! half done; and only then is it stopped. The waiting itself (looking at the
//! process, sleeping, stopping it) is the host's; what to do after each look
//! is decided here.
//!
//! A program that has ended is not stopped for the wait that follows its
//! grace: what it wrote can wait its turn behind another command's
//! publication, for a bounded while, and stopping it then would discard what
//! it did exactly as asked.

use vstd::prelude::*;

verus! {

/// How long the wait for a process to finish sleeps between looks, in
/// nanoseconds.
pub const FINISH_WATCH_NANOS: u128 = 5_000_000;

/// How long a process that has ended is given, past its grace, to finish
/// publishing what it wrote, in nanoseconds.
pub const FINISH_PUBLICATION_NANOS: u128 = 5_000_000_000;

/// What one look at a finishing process showed.
#[derive(Debug, Clone, Copy, PartialEq, Eq, Structural)]
pub enum FinishLook {
    /// It exited, and its ending completed.
    Exited,
    /// Asking how it was doing failed.
    Failed,
    /// It is still running, as far as the look could tell.
    Running,
}

/// What the host does after one look.
#[derive(Debug, Clone, Copy, PartialEq, Eq, Structural)]
pub enum FinishAction {
    /// Report that it exited within its grace.
    ReportExited,
    /// Report that it ended but its ending went wrong, so nothing it wrote
    /// was published.
    ReportUnpublished,
    /// Sleep this many nanoseconds, then look again.
    Wait(u128),
    /// Stop it; `unpublished` says whether it had ended, so that the stop
    /// discarded what it wrote.
    Stop(bool),
}

/// How a confined process finished.
#[derive(Debug, Clone, Copy, PartialEq, Eq, Structural)]
pub enum FinishEnding {
    /// It ended on its own within its grace, and its ending completed.
    Exited,
    /// It did not, so it was stopped.
    Stopped,
    /// It ended, but its ending could not be completed, so nothing it wrote
    /// was published.
    Unpublished,
    /// It did not end, and stopping it failed.
    Unreaped,
}

/// The smaller of two counts.
pub open spec fn least(a: int, b: int) -> int {
    if a <= b {
        a
    } else {
        b
    }
}

/// What the host does after a look that showed `look`, with `ended` saying
/// whether the process had ended, `elapsed` nanoseconds into a wait with
/// `grace` nanoseconds of grace.
///
/// An exit is reported at once, and so is a failed look at a process that
/// has ended. Otherwise the host sleeps through the grace, a watch at a time;
/// past it, a process that has ended is waited for a watch at a time until
/// the publication allowance is spent too, and every other is stopped.
pub open spec fn finish_decision(look: FinishLook, ended: bool, elapsed: int, grace: int) -> FinishAction {
    if look == FinishLook::Exited {
        FinishAction::ReportExited
    } else if look == FinishLook::Failed && ended {
        FinishAction::ReportUnpublished
    } else if elapsed <= grace {
        FinishAction::Wait(least(grace - elapsed, FINISH_WATCH_NANOS as int) as u128)
    } else if ended && elapsed < grace + FINISH_PUBLICATION_NANOS {
        FinishAction::Wait(FINISH_WATCH_NANOS)
    } else {
        FinishAction::Stop(ended)
    }
}

/// The action [`finish_decision`] gives for one look. A grace is a span of
/// time, so it and the publication allowance together stay far below the
/// largest count.
pub fn finish_action(look: FinishLook, ended: bool, elapsed: u128, grace: u128) -> (action: FinishAction)
    requires
        grace + FINISH_PUBLICATION_NANOS <= u128::MAX,
    ensures
        action == finish_decision(look, ended, elapsed as int, grace as int),
{
    match look {
        FinishLook::Exited => {
            return FinishAction::ReportExited;
        },
        FinishLook::Failed => {
            if ended {
                return FinishAction::ReportUnpublished;
            }
        },
        FinishLook::Running => {},
    }
    if elapsed <= grace {
        let left = grace - elapsed;
        if left < FINISH_WATCH_NANOS {
            FinishAction::Wait(left)
        } else {
            FinishAction::Wait(FINISH_WATCH_NANOS)
        }
    } else if ended && elapsed < grace + FINISH_PUBLICATION_NANOS {
        FinishAction::Wait(FINISH_WATCH_NANOS)
    } else {
        FinishAction::Stop(ended)
    }
}

/// How a process that had to be stopped finished: stopped cleanly, or
/// unpublished where it had ended and the stop discarded what it wrote; and
/// unreaped where stopping it failed.
pub fn finish_after_stop(stopped: bool, unpublished: bool) -> (ending: FinishEnding)
    ensures
        !stopped ==> ending == FinishEnding::Unreaped,
        stopped && unpublished ==> ending == FinishEnding::Unpublished,
        stopped && !unpublished ==> ending == FinishEnding::Stopped,
{
    if !stopped {
        FinishEnding::Unreaped
    } else if unpublished {
        FinishEnding::Unpublished
    } else {
        FinishEnding::Stopped
    }
}

/// No wait is longer than one watch, and none goes past the grace and the
/// publication allowance together: from there on, unless the look reports
/// an ending, the process is stopped.
pub proof fn lemma_waits_are_bounded(look: FinishLook, ended: bool, elapsed: int, grace: int)
    requires
        0 <= elapsed,
        0 <= grace,
    ensures
        finish_decision(look, ended, elapsed, grace) matches FinishAction::Wait(nanos) ==> nanos
            <= FINISH_WATCH_NANOS,
        elapsed >= grace + FINISH_PUBLICATION_NANOS && look != FinishLook::Exited && !(look
            == FinishLook::Failed && ended) ==> finish_decision(look, ended, elapsed, grace)
            == FinishAction::Stop(ended),
{
}

} // verus!
