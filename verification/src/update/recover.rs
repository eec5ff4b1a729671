//! `athanor-update recover-key`: the out-of-band move of one machine to a new signing key.
//! `begin` installs a local policy that names the new key alone; `finish`, once the booted
//! image's own policy names the new key in every signed scope, gives the policy back to the
//! link into `/usr`. The files are read and written by the caller; what is decided on them
//! is here.

use vstd::prelude::*;

use crate::chars::{chars_of, push_str, same_chars, trim, trim_spec};
use crate::paths::{file_name, file_name_of, parent, parent_of};

verus! {

/// The name of the new key in the local key directory.
pub const RECOVERY_KEY: &'static str = "recovery.pub";

pub const NOT_A_KEY: &'static str = "the new key is not a PEM ECDSA P-256 public key";

pub const NOTHING_TO_RECOVER: &'static str = "the shipped policy has no signed repository: nothing to recover";

pub const NOT_SHIPPED_YET: &'static str = "the booted image does not ship the new key in its policy yet: update and restart first";

/// `trim_spec`, kept folded where keys are compared.
#[verifier::opaque]
pub open spec fn trimmed(s: Seq<char>) -> Seq<char> {
    trim_spec(s)
}

fn trimmed_chars(s: &str) -> (r: Vec<char>)
    ensures
        r@ == trimmed(s@),
{
    reveal(trimmed);
    let v = chars_of(s);
    trim(v.as_slice())
}

/// A key file whose text, trimmed, is the recovery key's, trimmed. An unreadable file
/// names no key.
pub open spec fn same_key(recovery: Seq<char>, text: Option<String>) -> bool {
    text matches Some(t) && trimmed(t@) == trimmed(recovery)
}

/// One scope names the recovery key: one of its key files holds it.
pub open spec fn scope_names(recovery: Seq<char>, texts: Seq<Option<String>>) -> bool {
    exists|j: int| 0 <= j < texts.len() && same_key(recovery, #[trigger] texts[j])
}

/// The shipped policy names the recovery key everywhere: it has a signed scope, and each
/// scope names the key.
pub open spec fn named_everywhere_spec(recovery: Seq<char>, scopes: Seq<Vec<Option<String>>>) -> bool {
    scopes.len() > 0 && forall|i: int| 0 <= i < scopes.len() ==> scope_names(recovery, #[trigger] scopes[i]@)
}

fn names_key(recovery: &str, texts: &[Option<String>]) -> (r: bool)
    ensures
        r == scope_names(recovery@, texts@),
{
    let ghost want = trimmed(recovery@);
    let r = trimmed_chars(recovery);
    let mut j: usize = 0;
    while j < texts.len()
        invariant
            j <= texts@.len(),
            r@ == want,
            want == trimmed(recovery@),
            forall|k: int| 0 <= k < j ==> !same_key(recovery@, #[trigger] texts@[k]),
        decreases texts@.len() - j,
    {
        let same = match &texts[j] {
            Some(t) => {
                let tv = trimmed_chars(t.as_str());
                same_chars(tv.as_slice(), r.as_slice())
            },
            None => false,
        };
        if same {
            assert(same_key(recovery@, texts@[j as int]));
            return true;
        }
        j = j + 1;
    }
    false
}

/// Whether `finish` may give the policy back: `scopes` holds, for each signed scope of the
/// shipped policy, the texts of its key files (`None` where one cannot be read).
pub fn named_everywhere(recovery: &str, scopes: &[Vec<Option<String>>]) -> (r: bool)
    ensures
        r == named_everywhere_spec(recovery@, scopes@),
{
    if scopes.len() == 0 {
        return false;
    }
    let mut i: usize = 0;
    while i < scopes.len()
        invariant
            i <= scopes@.len(),
            forall|k: int| 0 <= k < i ==> scope_names(recovery@, #[trigger] scopes@[k]@),
        decreases scopes@.len() - i,
    {
        if !names_key(recovery, scopes[i].as_slice()) {
            return false;
        }
        i = i + 1;
    }
    true
}

/// The directory and the name of the policy file, which is replaced by rename in its
/// directory; an error message for a path with neither.
pub fn split(path: &str) -> (r: Result<(String, String), String>)
    ensures
        match (parent_of(path@), file_name_of(path@)) {
            (Some(d), Some(n)) => r matches Ok(p) && p.0@ == d && p.1@ == n,
            _ => r matches Err(m) && m@ == path@ + " has no directory or name"@,
        },
{
    match (parent(path), file_name(path)) {
        (Some(d), Some(n)) => Ok((d.to_owned(), n.to_owned())),
        _ => {
            let mut m = path.to_owned();
            push_str(&mut m, " has no directory or name");
            Err(m)
        },
    }
}

} // verus!
