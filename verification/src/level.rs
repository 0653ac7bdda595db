//! Severity levels of captured records.

use vstd::prelude::*;

verus! {

/// Severity of a log record, from most verbose to most severe:
/// `Trace < Debug < Info < Warn < Error`.
#[derive(Clone, Copy, Debug, PartialEq, Eq, Structural)]
pub enum Level {
    Trace,
    Debug,
    Info,
    Warn,
    Error,
}

impl Level {
    /// Position of this level in the severity order; `Trace` is lowest.
    pub open spec fn severity(self) -> int {
        match self {
            Level::Trace => 0,
            Level::Debug => 1,
            Level::Info => 2,
            Level::Warn => 3,
            Level::Error => 4,
        }
    }
}

/// `Trace` is the least level of the order, so a threshold fixed at `Trace`
/// lets a record of every level through.
pub proof fn lemma_trace_is_most_permissive(level: Level)
    ensures
        Level::Trace.severity() <= level.severity(),
{
}

} // verus!
