//! `athanor-update migrate`: move the machine, once, onto the signed reference. bootc, the
//! registry and the stamp are the caller's; this module decides each step.

use vstd::prelude::*;

use crate::chars::push_str;

verus! {

/// The tag machines follow.
pub const CHANNEL: &'static str = "stable";

#[derive(Debug, Clone, Copy, PartialEq, Eq, Structural)]
pub enum Outcome {
    /// The stamp exists, or the booted reference already enforces the policy.
    Done,
    /// The reference was switched; the signed digest boots at the next restart.
    Switched,
    /// Nothing was done and nothing is wrong: the next boot tries again.
    Waiting(Wait),
}

/// Why a migration waits.
#[derive(Debug, Clone, Copy, PartialEq, Eq, Structural)]
pub enum Wait {
    PolicyNotInForce,
    ReferenceOutOfScope,
    ChannelOlderThanBooted,
}

impl Wait {
    /// The code the journal shows.
    pub fn code(self) -> (c: &'static str)
        ensures
            c@ == match self {
                Wait::PolicyNotInForce => "policy-not-in-force"@,
                Wait::ReferenceOutOfScope => "reference-out-of-scope"@,
                Wait::ChannelOlderThanBooted => "channel-older-than-booted"@,
            },
    {
        match self {
            Wait::PolicyNotInForce => "policy-not-in-force",
            Wait::ReferenceOutOfScope => "reference-out-of-scope",
            Wait::ChannelOlderThanBooted => "channel-older-than-booted",
        }
    }
}

/// What the migration does before it asks the registry.
#[derive(Debug, Clone, Copy, PartialEq, Eq, Structural)]
pub enum Start {
    /// Stop with this outcome; `true` when the stamp is to be written first.
    Stop(Outcome, bool),
    /// Ask the registry for the channel of the repository.
    AskChannel,
}

/// The first steps: a stamped machine is done; a machine whose reference enforces the policy
/// is stamped and done; without the shipped policy, or outside its scopes, it waits.
pub fn start(migrated: bool, enforcing: bool, shipped: bool, in_scope: bool) -> (s: Start)
    ensures
        s == (if migrated {
            Start::Stop(Outcome::Done, false)
        } else if enforcing {
            Start::Stop(Outcome::Done, true)
        } else if !shipped {
            Start::Stop(Outcome::Waiting(Wait::PolicyNotInForce), false)
        } else if !in_scope {
            Start::Stop(Outcome::Waiting(Wait::ReferenceOutOfScope), false)
        } else {
            Start::AskChannel
        }),
{
    if migrated {
        Start::Stop(Outcome::Done, false)
    } else if enforcing {
        Start::Stop(Outcome::Done, true)
    } else if !shipped {
        Start::Stop(Outcome::Waiting(Wait::PolicyNotInForce), false)
    } else if !in_scope {
        Start::Stop(Outcome::Waiting(Wait::ReferenceOutOfScope), false)
    } else {
        Start::AskChannel
    }
}

/// The reference the machine is switched to: its repository at the channel.
pub fn target(repository: &str) -> (t: String)
    ensures
        t@ == repository@ + ":"@ + CHANNEL@,
{
    let mut t = repository.to_owned();
    push_str(&mut t, ":");
    push_str(&mut t, CHANNEL);
    t
}

/// Whether the channel may be followed: the migration never moves a machine back.
pub fn follows(channel_build_time: i64, booted_build_time: i64) -> (f: bool)
    ensures
        f == (channel_build_time >= booted_build_time),
{
    channel_build_time >= booted_build_time
}

/// Whether the staged deployment is locked again: a newer build is an update, and an update
/// waits for the user.
pub fn relock(staged_build_time: i64, booted_build_time: i64) -> (r: bool)
    ensures
        r == (staged_build_time > booted_build_time),
{
    staged_build_time > booted_build_time
}

} // verus!
