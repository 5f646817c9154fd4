use vstd::prelude::*;

verus! {

/// What can go wrong when the profiler is started or stopped.
#[derive(Debug, Clone, Copy, PartialEq, Eq, Structural)]
pub enum Error {
    /// The sample sink could not be set up.
    CreatingError,
    /// `start` was asked while the profiler was running.
    Running,
    /// `stop` was asked while the profiler was idle.
    NotRunning,
    /// A signal or timer system call failed with this errno.
    OsError(i32),
}

} // verus!
