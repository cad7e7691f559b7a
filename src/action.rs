use vstd::prelude::*;

verus! {

/// An intent of the viewer, decoded from the keyboard by the caller.
#[derive(Debug, Clone, Copy, PartialEq, Eq, Structural)]
pub enum Ui {
    Quit,
    ToggleShowHistory,
    SelectNext,
    SelectPrev,
    SelectLatest,
    ToggleShowHelp,
    ScrollDown,
    ScrollUp,
}

/// A lifecycle event of one execution. Timestamps are milliseconds: the
/// tick on the scheduler's monotonic clock, and start and end since the
/// Unix epoch.
#[derive(Debug, Clone)]
pub enum Command {
    /// An execution finished: its start, end, standard output, standard
    /// error and exit status.
    RunResult(u64, u64, String, String, u8),
    /// An execution is to be launched at a tick, having started at a time.
    StartRun(u64, u64),
}

} // verus!
