//! What the daemon is started with: where it keeps the do-not-disturb switch and the
//! crash-loop record, and which unit is the bar.

use vstd::prelude::*;

use crate::paths::{join, join_spec};
use crate::shelld::sender::BarUnit;

verus! {

pub const NOTIFICATIONS_NAME: &'static str = "org.freedesktop.Notifications";

pub const NOTIFICATIONS_PATH: &'static str = "/org/freedesktop/Notifications";

pub const PRIVATE_PATH: &'static str = "/os/athanor/Notifications1";

pub const WATCHER_NAME: &'static str = "org.kde.StatusNotifierWatcher";

pub const WATCHER_PATH: &'static str = "/StatusNotifierWatcher";

/// The do-not-disturb switch: a file in the state directory, present when it is on.
pub const DND_FILE: &'static str = "do-not-disturb";

pub struct Config {
    /// `$XDG_STATE_HOME/athanor/shelld`: the do-not-disturb switch.
    pub state_dir: String,
    pub bar: BarUnit,
}

/// The view of an optional `&str`.
pub open spec fn opt_view(s: Option<&str>) -> Option<Seq<char>> {
    match s {
        Some(s) => Some(s@),
        None => None,
    }
}

/// An absolute path.
pub open spec fn absolute(p: Seq<char>) -> bool {
    p.len() > 0 && p[0] == '/'
}

/// The state directory and the crash-loop record, from `$XDG_STATE_HOME`, `$HOME`,
/// `$RUNTIME_DIRECTORY` and `$XDG_RUNTIME_DIR`: the state home (else `.local/state` under
/// the home) must be absolute, and so must the runtime directory (else `athanor-shelld`
/// under the user's runtime directory).
pub open spec fn dirs_spec(
    state_home: Option<Seq<char>>,
    home: Option<Seq<char>>,
    runtime_directory: Option<Seq<char>>,
    xdg_runtime: Option<Seq<char>>,
) -> Option<(Seq<char>, Seq<char>)> {
    let state = match state_home {
        Some(s) if s.len() > 0 => Some(s),
        _ => match home {
            Some(h) => Some(join_spec(h, ".local/state"@)),
            None => None,
        },
    };
    let runtime = match runtime_directory {
        Some(r) => Some(r),
        None => match xdg_runtime {
            Some(x) => Some(join_spec(x, "athanor-shelld"@)),
            None => None,
        },
    };
    match (state, runtime) {
        (Some(s), Some(r)) => if absolute(s) && absolute(r) {
            Some((join_spec(s, "athanor/shelld"@), join_spec(r, "failures"@)))
        } else {
            None
        },
        _ => None,
    }
}

pub fn dirs(
    state_home: Option<&str>,
    home: Option<&str>,
    runtime_directory: Option<&str>,
    xdg_runtime: Option<&str>,
) -> (r: Option<(String, String)>)
    ensures
        match dirs_spec(opt_view(state_home), opt_view(home), opt_view(runtime_directory), opt_view(xdg_runtime)) {
            Some((s, f)) => r matches Some(p) && p.0@ == s && p.1@ == f,
            None => r is None,
        },
{
    let state = match state_home {
        Some(s) if !s.is_empty() => Some(s.to_owned()),
        _ => match home {
            Some(h) => Some(join(h, ".local/state")),
            None => None,
        },
    };
    let runtime = match runtime_directory {
        Some(r) => Some(r.to_owned()),
        None => match xdg_runtime {
            Some(x) => Some(join(x, "athanor-shelld")),
            None => None,
        },
    };
    match (state, runtime) {
        (Some(s), Some(r)) => {
            let sv = crate::chars::chars_of(s.as_str());
            let rv = crate::chars::chars_of(r.as_str());
            if sv.len() > 0 && sv[0] == '/' && rv.len() > 0 && rv[0] == '/' {
                Some((join(s.as_str(), "athanor/shelld"), join(r.as_str(), "failures")))
            } else {
                None
            }
        },
        _ => None,
    }
}

} // verus!
