//! The vocabulary of the published state: the error codes, the update states and the
//! reasons of the verification.

use vstd::prelude::*;

verus! {

/// What may enter the state file of a failure: a code, never the text.
#[derive(Debug, Clone, Copy, PartialEq, Eq, Structural)]
pub enum ErrorCode {
    /// No error.
    Clear,
    Policy,
    Network,
    Registry,
    Storage,
    Internal,
}

/// What the update check found.
#[derive(Debug, Clone, Copy, PartialEq, Eq, Structural)]
pub enum UpdateState {
    /// Nothing to offer.
    Current,
    Available,
    Downloaded,
    Held,
    OlderThanBooted,
    Refused,
    WillApplyAtNextShutdown,
}

/// Why the booted image is, or is not, verified.
#[derive(Debug, Clone, Copy, PartialEq, Eq, Structural)]
pub enum Reason {
    Signature,
    KeyNotInPolicy,
    NoSignature,
    Media,
    ReferenceOutOfScope,
    PolicyNotInForce,
}

impl Reason {
    /// Only a signature verified against a key of the policy in force verifies the image.
    pub fn verified(self) -> (v: bool)
        ensures
            v == (self == Reason::Signature),
    {
        match self {
            Reason::Signature => true,
            _ => false,
        }
    }
}

} // verus!

verus! {

/// A deployment as the state publishes it.
#[derive(Debug, Clone, PartialEq, Eq)]
pub struct Deployment {
    pub image: String,
    pub digest: String,
    pub version: String,
    pub build_time: i64,
}

/// The verification of the booted image: derived again on every check.
#[derive(Debug, Clone, Copy, PartialEq, Eq, Structural)]
pub struct Verified {
    pub value: bool,
    pub reason: Reason,
}

impl Verified {
    /// The verification a reason stands for: verified only by a signature.
    pub fn of(reason: Reason) -> (v: Verified)
        ensures
            v.reason == reason,
            v.value == (reason == Reason::Signature),
    {
        Verified { value: reason.verified(), reason }
    }
}

} // verus!
