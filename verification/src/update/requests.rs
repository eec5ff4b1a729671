//! The two requests, `Apply()` and `GoBack()`: when each may go ahead, and what a failed
//! reboot is answered. logind, polkit and the bus are the caller's.

use vstd::prelude::*;

use crate::update::check::{enforced, enforced_spec, opt_view};
use crate::update::policy::Scopes;
use crate::update::tools::Status;

verus! {

/// Why logind did not reboot.
#[derive(Debug, Clone, Copy, PartialEq, Eq, Structural)]
pub enum RebootError {
    /// `org.freedesktop.login1.BlockedByInhibitorLock`
    Blocked,
    Failed,
}

/// Why a request did nothing. Each becomes one D-Bus error name; none carries free text.
#[derive(Debug, Clone, Copy, PartialEq, Eq, Structural)]
pub enum Refusal {
    Busy,
    NothingDownloaded,
    NoPreviousVersion,
    Blocked,
    Failed,
}

impl From<RebootError> for Refusal {
    fn from(err: RebootError) -> (r: Refusal) {
        match err {
            RebootError::Blocked => Refusal::Blocked,
            RebootError::Failed => Refusal::Failed,
        }
    }
}

impl vstd::std_specs::convert::FromSpecImpl<RebootError> for Refusal {
    open spec fn obeys_from_spec() -> bool {
        true
    }

    open spec fn from_spec(err: RebootError) -> Refusal {
        match err {
            RebootError::Blocked => Refusal::Blocked,
            RebootError::Failed => Refusal::Failed,
        }
    }
}

/// Whether what the timer downloaded may be applied: a locked staged deployment, through a
/// reference that enforces the policy, newer than the booted one, and not the digest the
/// user went back from.
pub open spec fn ready_spec(status: Status, scopes: Seq<(String, Vec<String>)>, held: Option<Seq<char>>) -> bool {
    status.staged matches Some(staged) && {
        &&& staged.download_only
        &&& enforced_spec(scopes, status.booted)
        &&& staged.build_time > status.booted.build_time
        &&& held != Some(staged.digest@)
    }
}

pub fn apply_ready(status: &Status, scopes: &Scopes, held: Option<&str>) -> (ready: bool)
    ensures
        ready == ready_spec(*status, scopes@, opt_view(held)),
{
    match &status.staged {
        Some(staged) => staged.download_only && enforced(scopes, &status.booted) && staged.build_time
            > status.booted.build_time && match held {
            Some(h) => !h.to_owned().eq(&staged.digest),
            None => true,
        },
        None => false,
    }
}

/// `Apply()` before it unlocks anything: refused with nothing ready, and when a block
/// inhibitor on shutdown is held (a courtesy; logind's own check inside the reboot is the
/// authority).
pub fn apply_gate(ready: bool, blocked: bool) -> (r: Result<(), Refusal>)
    ensures
        !ready ==> r == Err::<(), Refusal>(Refusal::NothingDownloaded),
        ready && blocked ==> r == Err::<(), Refusal>(Refusal::Blocked),
        ready && !blocked ==> r is Ok,
{
    if !ready {
        Err(Refusal::NothingDownloaded)
    } else if blocked {
        Err(Refusal::Blocked)
    } else {
        Ok(())
    }
}

/// `GoBack()` before it holds anything: refused without a previous deployment, and when a
/// block inhibitor is held.
pub fn go_back_gate(status: &Status, blocked: bool) -> (r: Result<(), Refusal>)
    ensures
        status.rollback is None ==> r == Err::<(), Refusal>(Refusal::NoPreviousVersion),
        status.rollback is Some && blocked ==> r == Err::<(), Refusal>(Refusal::Blocked),
        status.rollback is Some && !blocked ==> r is Ok,
{
    if status.rollback.is_none() {
        Err(Refusal::NoPreviousVersion)
    } else if blocked {
        Err(Refusal::Blocked)
    } else {
        Ok(())
    }
}

/// What a request is answered when logind does not reboot.
pub fn reboot_refusal(err: RebootError) -> (r: Refusal)
    ensures
        r == (match err {
            RebootError::Blocked => Refusal::Blocked,
            RebootError::Failed => Refusal::Failed,
        }),
{
    Refusal::from(err)
}

impl Refusal {
    /// The text of the D-Bus error each refusal becomes.
    pub fn message(self) -> (m: &'static str)
        ensures
            m@ == match self {
                Refusal::Busy => "a check or another request is running"@,
                Refusal::NothingDownloaded => "no update is downloaded; the timer downloads at its next run"@,
                Refusal::NoPreviousVersion => "there is no previous version to go back to"@,
                Refusal::Blocked => "a restart is blocked by an inhibitor"@,
                Refusal::Failed => "the request failed; the journal of athanor-update.service has the detail"@,
            },
    {
        match self {
            Refusal::Busy => "a check or another request is running",
            Refusal::NothingDownloaded => "no update is downloaded; the timer downloads at its next run",
            Refusal::NoPreviousVersion => "there is no previous version to go back to",
            Refusal::Blocked => "a restart is blocked by an inhibitor",
            Refusal::Failed => "the request failed; the journal of athanor-update.service has the detail",
        }
    }
}

/// One inhibitor as logind lists it: what it inhibits (kinds joined with `:`) and its mode.
pub type Inhibitor = (String, String);

/// Whether an inhibitor blocks a shutdown: its mode is `block` and `shutdown` is one of the
/// kinds it inhibits.
pub open spec fn blocks_shutdown(what: Seq<char>, mode: Seq<char>) -> bool {
    mode == "block"@ && crate::chars::split_spec(what, ':').contains("shutdown"@)
}

/// Whether `kind` is one of the `:`-separated kinds of `what`.
fn has_kind(what: &str, kind: &[char]) -> (r: bool)
    ensures
        r == crate::chars::split_spec(what@, ':').contains(kind@),
{
    let w = crate::chars::chars_of(what);
    let kinds = crate::chars::split(w.as_slice(), ':');
    let ghost all = crate::chars::split_spec(what@, ':');
    let mut k: usize = 0;
    while k < kinds.len()
        invariant
            k <= kinds@.len(),
            all == crate::chars::split_spec(what@, ':'),
            kinds@.len() == all.len(),
            forall|j: int| 0 <= j < kinds@.len() ==> #[trigger] kinds@[j]@ == all[j],
            forall|j: int| 0 <= j < k ==> all[j] != kind@,
        decreases kinds.len() - k,
    {
        if crate::chars::same_chars(kinds[k].as_slice(), kind) {
            assert(all[k as int] == kind@);
            return true;
        }
        k = k + 1;
    }
    false
}

/// Whether a block inhibitor on shutdown is held.
pub fn shutdown_blocked(inhibitors: &[Inhibitor]) -> (b: bool)
    ensures
        b == exists|i: int| 0 <= i < inhibitors@.len() && blocks_shutdown(#[trigger] inhibitors@[i].0@, inhibitors@[i].1@),
{
    let block = "block".to_owned();
    let shutdown = crate::chars::chars_of("shutdown");
    let mut i: usize = 0;
    while i < inhibitors.len()
        invariant
            i <= inhibitors@.len(),
            block@ == "block"@,
            shutdown@ == "shutdown"@,
            forall|j: int| 0 <= j < i ==> !blocks_shutdown(#[trigger] inhibitors@[j].0@, inhibitors@[j].1@),
        decreases inhibitors.len() - i,
    {
        let (what, mode) = (&inhibitors[i].0, &inhibitors[i].1);
        if mode.eq(&block) && has_kind(what.as_str(), shutdown.as_slice()) {
            assert(blocks_shutdown(inhibitors@[i as int].0@, inhibitors@[i as int].1@));
            return true;
        }
        i = i + 1;
    }
    false
}

/// The digest the user went back from is never applied again, and nothing is applied but a
/// locked staged deployment newer than the booted one.
pub proof fn the_digest_gone_back_from_is_never_applied(status: Status, scopes: Seq<(String, Vec<String>)>, held: Option<Seq<char>>)
    ensures
        status.staged matches Some(s) && held == Some(s.digest@) ==> !ready_spec(status, scopes, held),
        ready_spec(status, scopes, held) ==> (status.staged matches Some(s) && s.download_only
            && s.build_time > status.booted.build_time && held != Some(s.digest@)),
{
}

} // verus!
