//! Log lines for the journal: each starts with `<N>`, its syslog priority, which journald
//! reads from a service's stderr.

use vstd::prelude::*;

verus! {

/// The levels of a log event, most severe first.
#[derive(Debug, Clone, Copy, PartialEq, Eq, Structural)]
pub enum Level {
    Error,
    Warn,
    Info,
    Debug,
    Trace,
}

/// The syslog priority of a level: error 3, warning 4, information 6, the rest 7.
pub fn priority(level: Level) -> (p: u8)
    ensures
        p == match level {
            Level::Error => 3u8,
            Level::Warn => 4u8,
            Level::Info => 6u8,
            _ => 7u8,
        },
{
    match level {
        Level::Error => 3,
        Level::Warn => 4,
        Level::Info => 6,
        _ => 7,
    }
}

} // verus!
