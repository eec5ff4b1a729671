//! The do-not-disturb switch, the only thing the daemon keeps across sessions: the file
//! `do-not-disturb` in the daemon's state directory, present when the switch is on. It never
//! holds a notification.

use vstd::prelude::*;

use crate::paths::{join, join_spec};
use crate::shelld::server::DND_FILE;

verus! {

/// What the file holds when the switch is on.
pub const ON_CONTENTS: &'static str = "on\n";

/// The file of the switch in the state directory `dir`.
pub fn switch_path(dir: &str) -> (p: String)
    ensures
        p@ == join_spec(dir@, DND_FILE@),
{
    join(dir, DND_FILE)
}

/// What saving the switch does to its file.
pub enum Save {
    /// Write `ON_CONTENTS` at the path.
    Write(String),
    /// Remove the file at the path; a missing file is fine.
    Remove(String),
}

/// Saving the switch: on writes the file, off removes it, so that turning it off twice is
/// fine.
pub fn save(dir: &str, on: bool) -> (s: Save)
    ensures
        on ==> (s matches Save::Write(p) && p@ == join_spec(dir@, DND_FILE@)),
        !on ==> (s matches Save::Remove(p) && p@ == join_spec(dir@, DND_FILE@)),
{
    let path = switch_path(dir);
    if on {
        Save::Write(path)
    } else {
        Save::Remove(path)
    }
}

} // verus!
