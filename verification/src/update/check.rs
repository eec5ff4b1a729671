//! The decisions of `athanor-update check`: why the booted image is or is not verified,
//! what may be offered, and each step of an online check. The tools are run by the caller,
//! which hands in what they answered.

use vstd::prelude::*;

use crate::update::policy::{in_scope, keys_of, Scopes};
use crate::update::sigobj::{claim_view, repository_of, repository_spec, Claim};
use crate::update::state::{ErrorCode, Reason, UpdateState};
use crate::update::tools::{Deployed, Failure, Status};

verus! {

/// `Available` when `digest` may be offered; otherwise why not. The order of the build
/// times is the only ordering: bootc has none, and a moved tag is a downgrade the policy
/// cannot see.
pub open spec fn offerable_spec(booted: Deployed, held: Option<Seq<char>>, digest: Seq<char>, build_time: i64) -> UpdateState {
    if digest == booted.digest@ {
        UpdateState::Current
    } else if held == Some(digest) {
        UpdateState::Held
    } else if build_time <= booted.build_time {
        UpdateState::OlderThanBooted
    } else {
        UpdateState::Available
    }
}

/// The view of an optional `&str`.
pub open spec fn opt_view(s: Option<&str>) -> Option<Seq<char>> {
    match s {
        Some(s) => Some(s@),
        None => None,
    }
}

pub fn offerable(booted: &Deployed, held: Option<&str>, digest: &str, build_time: i64) -> (u: UpdateState)
    ensures
        u == offerable_spec(*booted, opt_view(held), digest@, build_time),
{
    let d = digest.to_owned();
    if d.eq(&booted.digest) {
        UpdateState::Current
    } else if match held {
        Some(h) => h.to_owned().eq(&d),
        None => false,
    } {
        UpdateState::Held
    } else if build_time <= booted.build_time {
        UpdateState::OlderThanBooted
    } else {
        UpdateState::Available
    }
}

/// The update state that needs no network: what is staged, and what was refused.
pub open spec fn local_spec(status: Status, held: Option<Seq<char>>, refused: bool) -> UpdateState {
    match status.staged {
        Some(staged) => if !staged.download_only {
            UpdateState::WillApplyAtNextShutdown
        } else if offerable_spec(status.booted, held, staged.digest@, staged.build_time)
            == UpdateState::Available {
            UpdateState::Downloaded
        } else if refused {
            UpdateState::Refused
        } else {
            UpdateState::Current
        },
        None => if refused {
            UpdateState::Refused
        } else {
            UpdateState::Current
        },
    }
}

/// `held` is the digest the user went back from, `refused` whether the policy refused a
/// digest since.
pub fn local_update(status: &Status, held: Option<&str>, refused: bool) -> (u: UpdateState)
    ensures
        u == local_spec(*status, opt_view(held), refused),
{
    match &status.staged {
        Some(staged) => if !staged.download_only {
            UpdateState::WillApplyAtNextShutdown
        } else if offerable(&status.booted, held, staged.digest.as_str(), staged.build_time)
            == UpdateState::Available {
            UpdateState::Downloaded
        } else if refused {
            UpdateState::Refused
        } else {
            UpdateState::Current
        },
        None => if refused {
            UpdateState::Refused
        } else {
            UpdateState::Current
        },
    }
}

/// True when a download would be verified: the booted origin makes bootc apply the host
/// policy, and that policy demands a signature for the repository the machine follows.
pub open spec fn enforced_spec(scopes: Seq<(String, Vec<String>)>, booted: Deployed) -> bool {
    booted.enforcing && in_scope(scopes, repository_spec(booted.image@))
}

pub fn enforced(scopes: &Scopes, booted: &Deployed) -> (e: bool)
    ensures
        e == enforced_spec(scopes@, *booted),
{
    if !booted.enforcing {
        return false;
    }
    let repository = repository_of(booted.image.as_str());
    match keys_of(scopes, repository.as_str()) {
        Some(_) => true,
        None => false,
    }
}

/// Whether a claim is about the booted digest, for the repository the machine follows.
pub open spec fn covers(c: (Seq<char>, Seq<char>, bool), booted: Deployed) -> bool {
    c.0 == booted.digest@ && c.1 == repository_spec(booted.image@)
}

/// Why the booted image is, or is not, verified. `claims` are those of the signature object
/// stored for the booted digest, checked against the keys of the policy in force today.
pub open spec fn reason_spec(
    shipped: bool,
    scopes: Seq<(String, Vec<String>)>,
    booted: Deployed,
    claims: Seq<(Seq<char>, Seq<char>, bool)>,
) -> Reason {
    if !shipped {
        Reason::PolicyNotInForce
    } else if !in_scope(scopes, repository_spec(booted.image@)) {
        Reason::ReferenceOutOfScope
    } else if !booted.enforcing {
        Reason::Media
    } else if exists|i: int| 0 <= i < claims.len() && covers(#[trigger] claims[i], booted) && claims[i].2 {
        Reason::Signature
    } else if exists|i: int| 0 <= i < claims.len() && covers(#[trigger] claims[i], booted) {
        Reason::KeyNotInPolicy
    } else {
        Reason::NoSignature
    }
}

pub fn reason(shipped: bool, scopes: &Scopes, booted: &Deployed, claims: &[Claim]) -> (r: Reason)
    ensures
        r == reason_spec(shipped, scopes@, *booted, claims@.map_values(|c: Claim| claim_view(c))),
{
    let ghost cs = claims@.map_values(|c: Claim| claim_view(c));
    if !shipped {
        return Reason::PolicyNotInForce;
    }
    let repository = repository_of(booted.image.as_str());
    if keys_of(scopes, repository.as_str()).is_none() {
        return Reason::ReferenceOutOfScope;
    }
    if !booted.enforcing {
        return Reason::Media;
    }
    let mut any = false;
    let mut backed = false;
    let mut i: usize = 0;
    while i < claims.len()
        invariant
            i <= claims@.len(),
            cs == claims@.map_values(|c: Claim| claim_view(c)),
            repository@ == repository_spec(booted.image@),
            any == exists|j: int| 0 <= j < i && covers(#[trigger] cs[j], *booted),
            backed == exists|j: int| 0 <= j < i && covers(#[trigger] cs[j], *booted) && cs[j].2,
        decreases claims.len() - i,
    {
        let c = &claims[i];
        assert(cs[i as int] == claim_view(*c));
        let covering = c.manifest_digest.eq(&booted.digest) && c.repository.eq(&repository);
        if covering {
            any = true;
            if c.backed {
                backed = true;
            }
        }
        i = i + 1;
    }
    if backed {
        Reason::Signature
    } else if any {
        Reason::KeyNotInPolicy
    } else {
        Reason::NoSignature
    }
}

/// What a check does after the local state: ask the registry only when a download would be
/// verified and nothing is about to be applied anyway.
pub fn asks_registry(local: UpdateState, enforced: bool) -> (ask: bool)
    ensures
        ask == (enforced && local != UpdateState::WillApplyAtNextShutdown),
{
    enforced && local != UpdateState::WillApplyAtNextShutdown
}

/// The step after the registry named a candidate.
#[derive(Debug, Clone, Copy, PartialEq, Eq, Structural)]
pub enum Next {
    /// Publish this update state; nothing is downloaded.
    Publish(UpdateState),
    /// Download the candidate.
    Download,
}

/// What to do with the candidate the registry named: publish why it is not offered (the
/// local state when it is the booted digest), publish it as downloaded when bootc staged
/// it already, publish it as available on a metered connection, else download it.
pub open spec fn after_candidate_spec(local: UpdateState, verdict: UpdateState, staged_is_candidate: bool, metered: bool) -> Next {
    if verdict != UpdateState::Available {
        Next::Publish(if verdict == UpdateState::Current { local } else { verdict })
    } else if staged_is_candidate {
        Next::Publish(UpdateState::Downloaded)
    } else if metered {
        Next::Publish(UpdateState::Available)
    } else {
        Next::Download
    }
}

pub fn after_candidate(local: UpdateState, verdict: UpdateState, staged_is_candidate: bool, metered: bool) -> (n: Next)
    ensures
        n == after_candidate_spec(local, verdict, staged_is_candidate, metered),
{
    if verdict != UpdateState::Available {
        Next::Publish(if verdict == UpdateState::Current { local } else { verdict })
    } else if staged_is_candidate {
        Next::Publish(UpdateState::Downloaded)
    } else if metered {
        Next::Publish(UpdateState::Available)
    } else {
        Next::Download
    }
}

/// Whether the staged deployment is the candidate, locked: downloaded already.
pub fn staged_is(status: &Status, digest: &str) -> (b: bool)
    ensures
        b == (status.staged matches Some(s) && s.download_only && s.digest@ == digest@),
{
    match &status.staged {
        Some(s) => s.download_only && s.digest.eq(&digest.to_owned()),
        None => false,
    }
}

/// The storage failure: what a record that cannot be written becomes.
pub fn storage_failure() -> (f: Failure)
    ensures
        f.code == ErrorCode::Storage,
        f.host is None,
{
    Failure { code: ErrorCode::Storage, host: None }
}

/// Whether a download failed because bootc's policy refused the image: only then is the
/// candidate recorded as refused.
pub fn refused_by_policy(failure: &Failure) -> (r: bool)
    ensures
        r == (failure.code == ErrorCode::Policy),
{
    failure.code == ErrorCode::Policy
}

/// After a download the policy refused: the update is refused, and the failure is the
/// policy's, or the storage's when the refusal could not be recorded.
pub fn after_refused_download(failure: Failure, recorded: bool) -> (r: (UpdateState, Failure))
    ensures
        r.0 == UpdateState::Refused,
        recorded ==> r.1 == failure,
        !recorded ==> r.1.code == ErrorCode::Storage && r.1.host is None,
{
    if recorded {
        (UpdateState::Refused, failure)
    } else {
        (UpdateState::Refused, storage_failure())
    }
}

/// After a download bootc staged: what counts is what bootc staged, not what the tag said
/// a moment earlier. `after` is the local state of the new status; the failure is the
/// first of clearing the refusal and fetching the signature object.
pub fn after_download(after: UpdateState, cleared: bool, fetched: Option<Failure>) -> (r: (UpdateState, Option<Failure>))
    ensures
        after != UpdateState::Downloaded ==> r.0 == UpdateState::Available && r.1 is None,
        after == UpdateState::Downloaded ==> r.0 == UpdateState::Downloaded && (if !cleared {
            r.1 matches Some(f) && f.code == ErrorCode::Storage && f.host is None
        } else {
            r.1 == fetched
        }),
{
    if after != UpdateState::Downloaded {
        return (UpdateState::Available, None);
    }
    if !cleared {
        (UpdateState::Downloaded, Some(storage_failure()))
    } else {
        (UpdateState::Downloaded, fetched)
    }
}

/// The code published for the check's failure: none without one.
pub fn last_error(failure: Option<&Failure>) -> (code: ErrorCode)
    ensures
        code == match failure {
            Some(f) => f.code,
            None => ErrorCode::Clear,
        },
{
    match failure {
        Some(f) => f.code,
        None => ErrorCode::Clear,
    }
}

/// A check offers nothing the user went back from, nothing older than what is booted, and
/// never the booted digest itself.
pub proof fn offered_is_newer_and_not_held(booted: Deployed, held: Option<Seq<char>>, digest: Seq<char>, build_time: i64)
    ensures
        offerable_spec(booted, held, digest, build_time) == UpdateState::Available ==> {
            &&& digest != booted.digest@
            &&& held != Some(digest)
            &&& build_time > booted.build_time
        },
{
}

/// A candidate already staged and locked is published as downloaded, metered or not; a
/// download happens only for an available candidate that is not staged, on a connection
/// that is not metered.
pub proof fn a_staged_candidate_is_downloaded_whatever_the_metering(local: UpdateState, verdict: UpdateState, staged_is_candidate: bool, metered: bool)
    ensures
        verdict == UpdateState::Available && staged_is_candidate ==> after_candidate_spec(
            local,
            verdict,
            true,
            metered,
        ) == Next::Publish(UpdateState::Downloaded),
        after_candidate_spec(local, verdict, staged_is_candidate, metered) == Next::Download <==> (
        verdict == UpdateState::Available && !staged_is_candidate && !metered),
        verdict == UpdateState::Available && !staged_is_candidate && metered ==> after_candidate_spec(
            local,
            verdict,
            staged_is_candidate,
            metered,
        ) == Next::Publish(UpdateState::Available),
{
}

} // verus!
