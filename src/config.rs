//! Settings of the agent that the library decides on.

use vstd::prelude::*;

verus! {

/// How much the agent logs.
#[derive(Clone, Copy, Debug, PartialEq, Eq)]
pub enum LogLevel {
    Error,
    Warn,
    Info,
    Debug,
    Trace,
}

/// Maps a verbosity count to a log level: `0` error, `1` warn, `2` info,
/// `3` debug, and `4` or more trace.
pub fn log_level_for(verbosity: u8) -> (r: LogLevel)
    ensures
        verbosity == 0 ==> r == LogLevel::Error,
        verbosity == 1 ==> r == LogLevel::Warn,
        verbosity == 2 ==> r == LogLevel::Info,
        verbosity == 3 ==> r == LogLevel::Debug,
        verbosity >= 4 ==> r == LogLevel::Trace,
{
    match verbosity {
        0 => LogLevel::Error,
        1 => LogLevel::Warn,
        2 => LogLevel::Info,
        3 => LogLevel::Debug,
        _ => LogLevel::Trace,
    }
}

} // verus!
