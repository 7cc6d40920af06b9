use vstd::prelude::*;

verus! {

/// How much the pipeline reports while it runs.
#[derive(Clone, Copy, Debug, PartialEq, Eq, Structural)]
pub enum LogLevel {
    Profiling,
    Info,
    Verbose,
}

impl LogLevel {
    /// True for the level that asks for per-stage timings.
    pub fn is_profiling(&self) -> (r: bool)
        ensures
            r == (*self == LogLevel::Profiling),
    {
        match self {
            LogLevel::Profiling => true,
            _ => false,
        }
    }

    /// True for the level that traces every action.
    pub fn is_verbose(&self) -> (r: bool)
        ensures
            r == (*self == LogLevel::Verbose),
    {
        match self {
            LogLevel::Verbose => true,
            _ => false,
        }
    }
}

} // verus!
