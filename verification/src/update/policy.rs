//! The container signature policy: which one is in force, whether it is the shipped one,
//! and which keys it names for a repository. Reading the files and the JSON is the caller's.

use vstd::prelude::*;

use crate::chars::string_views;
use crate::update::sigobj::{hex_encode, hex_spec, sha256, sha256_of};

verus! {

/// One requirement of a scope, as the caller read it from the JSON.
#[derive(Debug, Clone, PartialEq, Eq)]
pub struct Requirement {
    /// `type`, when it is a string.
    pub kind: Option<String>,
    /// `signedIdentity.type`, when it is a string.
    pub identity: Option<String>,
    /// The strings of `keyPaths`.
    pub key_paths: Vec<String>,
}

/// A scope of `transports.docker`: its name and its requirements, `None` when they are not
/// a list.
pub type ScopeEntry = (String, Option<Vec<Requirement>>);

/// Repository scope and the `keyPaths` of its `sigstoreSigned` requirements.
pub type Scopes = Vec<(String, Vec<String>)>;

/// A requirement of ours: `sigstoreSigned` with `matchRepository`.
pub open spec fn strict_requirement(r: Requirement) -> bool {
    &&& r.kind matches Some(k) && k@ == "sigstoreSigned"@
    &&& r.identity matches Some(i) && i@ == "matchRepository"@
}

/// The key paths of all the requirements, in order.
pub open spec fn all_keys(reqs: Seq<Requirement>) -> Seq<Seq<char>>
    decreases reqs.len(),
{
    if reqs.len() == 0 {
        Seq::empty()
    } else {
        all_keys(reqs.drop_last()) + string_views(reqs.last().key_paths@)
    }
}

/// The keys a scope brings, when it is one of ours: a named scope whose requirements are a
/// list that is not empty and holds only strict requirements. A scope somebody relaxed is
/// not one of ours any more.
pub open spec fn scope_spec(entry: ScopeEntry) -> Option<(Seq<char>, Seq<Seq<char>>)> {
    match entry.1 {
        Some(reqs) => if entry.0@.len() > 0 && reqs@.len() > 0 && forall|i: int|
            0 <= i < reqs@.len() ==> strict_requirement(#[trigger] reqs@[i]) {
            Some((entry.0@, all_keys(reqs@)))
        } else {
            None
        },
        None => None,
    }
}

/// The scopes of ours among `docker`'s, in their order.
pub open spec fn scopes_spec(docker: Seq<ScopeEntry>) -> Seq<(Seq<char>, Seq<Seq<char>>)>
    decreases docker.len(),
{
    if docker.len() == 0 {
        Seq::empty()
    } else {
        let before = scopes_spec(docker.drop_last());
        match scope_spec(docker.last()) {
            Some(s) => before.push(s),
            None => before,
        }
    }
}

/// The view of some scopes.
pub open spec fn scopes_view(s: Seq<(String, Vec<String>)>) -> Seq<(Seq<char>, Seq<Seq<char>>)> {
    s.map_values(|e: (String, Vec<String>)| (e.0@, string_views(e.1@)))
}

fn strict(r: &Requirement) -> (b: bool)
    ensures
        b == strict_requirement(*r),
{
    let signed = "sigstoreSigned".to_owned();
    let matching = "matchRepository".to_owned();
    (match &r.kind {
        Some(k) => k.eq(&signed),
        None => false,
    }) && (match &r.identity {
        Some(i) => i.eq(&matching),
        None => false,
    })
}

fn scope_of(entry: &ScopeEntry) -> (r: Option<(String, Vec<String>)>)
    ensures
        match scope_spec(*entry) {
            Some((name, keys)) => r matches Some(s) && s.0@ == name && string_views(s.1@) == keys,
            None => r is None,
        },
{
    let reqs = match &entry.1 {
        Some(reqs) => reqs,
        None => return None,
    };
    if entry.0.as_str().is_empty() || reqs.len() == 0 {
        return None;
    }
    let mut keys: Vec<String> = Vec::new();
    let mut i: usize = 0;
    while i < reqs.len()
        invariant
            i <= reqs@.len(),
            entry.1 == Some(*reqs),
            forall|j: int| 0 <= j < i ==> strict_requirement(#[trigger] reqs@[j]),
            string_views(keys@) == all_keys(reqs@.take(i as int)),
        decreases reqs.len() - i,
    {
        if !strict(&reqs[i]) {
            assert(!strict_requirement(reqs@[i as int]));
            return None;
        }
        proof {
            assert(reqs@.take(i as int + 1).drop_last() == reqs@.take(i as int));
        }
        let req = &reqs[i];
        let mut k: usize = 0;
        let ghost start = keys@;
        assert(req.key_paths@.take(0) =~= Seq::<String>::empty());
        assert(string_views(start) + string_views(Seq::<String>::empty()) =~= string_views(start));
        while k < req.key_paths.len()
            invariant
                k <= req.key_paths@.len(),
                string_views(keys@) == string_views(start) + string_views(req.key_paths@.take(k as int)),
            decreases req.key_paths@.len() - k,
        {
            let ghost before = keys@;
            keys.push(req.key_paths[k].clone());
            assert(string_views(keys@) =~= string_views(before).push(req.key_paths@[k as int]@));
            assert(string_views(req.key_paths@.take(k as int + 1)) =~= string_views(req.key_paths@.take(k as int)).push(
                req.key_paths@[k as int]@,
            ));
            assert(string_views(start) + string_views(req.key_paths@.take(k as int + 1)) =~= (string_views(start) + string_views(
                req.key_paths@.take(k as int),
            )).push(req.key_paths@[k as int]@));
            k = k + 1;
        }
        assert(req.key_paths@.take(k as int) == req.key_paths@);
        i = i + 1;
    }
    assert(reqs@.take(i as int) == reqs@);
    Some((entry.0.clone(), keys))
}

/// The scopes of ours among the entries of `transports.docker`; none when the policy is not
/// JSON or has no such object (`docker` is `None`).
pub fn scopes(docker: Option<&[ScopeEntry]>) -> (r: Scopes)
    ensures
        scopes_view(r@) == match docker {
            Some(d) => scopes_spec(d@),
            None => Seq::empty(),
        },
{
    let mut found: Scopes = Vec::new();
    let d = match docker {
        Some(d) => d,
        None => {
            assert(scopes_view(found@) =~= Seq::empty());
            return found;
        },
    };
    assert(scopes_view(found@) =~= scopes_spec(d@.take(0)));
    let mut i: usize = 0;
    while i < d.len()
        invariant
            i <= d@.len(),
            scopes_view(found@) == scopes_spec(d@.take(i as int)),
        decreases d.len() - i,
    {
        proof {
            assert(d@.take(i as int + 1).drop_last() == d@.take(i as int));
            assert(d@.take(i as int + 1).last() == d@[i as int]);
        }
        let ghost before = found@;
        match scope_of(&d[i]) {
            Some(s) => {
                found.push(s);
                assert(scopes_view(found@) =~= scopes_view(before).push((s.0@, string_views(s.1@))));
            },
            None => {},
        }
        i = i + 1;
    }
    assert(d@.take(i as int) == d@);
    found
}

/// The keys the scope of `repository` names, if it is one of ours: those of the first
/// scope of that name.
pub fn keys_of<'a>(scopes: &'a Scopes, repository: &str) -> (r: Option<&'a Vec<String>>)
    ensures
        match r {
            Some(keys) => exists|i: int|
                0 <= i < scopes@.len() && (#[trigger] scopes@[i]).0@ == repository@ && scopes@[i].1
                    == *keys && forall|j: int| 0 <= j < i ==> (#[trigger] scopes@[j]).0@ != repository@,
            None => forall|i: int| 0 <= i < scopes@.len() ==> (#[trigger] scopes@[i]).0@ != repository@,
        },
{
    let wanted = repository.to_owned();
    let mut i: usize = 0;
    while i < scopes.len()
        invariant
            i <= scopes@.len(),
            wanted@ == repository@,
            forall|j: int| 0 <= j < i ==> (#[trigger] scopes@[j]).0@ != repository@,
        decreases scopes.len() - i,
    {
        if scopes[i].0.eq(&wanted) {
            return Some(&scopes[i].1);
        }
        i = i + 1;
    }
    None
}

/// Whether `repository` is a scope of ours.
pub open spec fn in_scope(scopes: Seq<(String, Vec<String>)>, repository: Seq<char>) -> bool {
    exists|i: int| 0 <= i < scopes.len() && (#[trigger] scopes[i]).0@ == repository
}

/// Where the files of this module live.
#[derive(Debug, Clone, PartialEq, Eq)]
pub struct PolicyPaths {
    /// `/etc/containers/policy.json`: what the units' bootc and skopeo resolve.
    pub etc_policy: String,
    pub etc_registries: String,
    /// `/usr/share/athanor/containers`
    pub shipped: String,
}

impl PolicyPaths {
    pub fn system() -> (p: PolicyPaths)
        ensures
            p.etc_policy@ == "/etc/containers/policy.json"@,
            p.etc_registries@ == "/etc/containers/registries.d/athanor.yaml"@,
            p.shipped@ == "/usr/share/athanor/containers"@,
    {
        PolicyPaths {
            etc_policy: "/etc/containers/policy.json".to_owned(),
            etc_registries: "/etc/containers/registries.d/athanor.yaml".to_owned(),
            shipped: "/usr/share/athanor/containers".to_owned(),
        }
    }
}

/// What is published of the policy in force.
#[derive(Debug, Clone, PartialEq, Eq)]
pub struct PolicyInfo {
    pub path: String,
    /// SHA-256 of the policy file, lowercase hexadecimal.
    pub sha256: String,
    /// The file in force is the shipped one, and so is the `registries.d` entry.
    pub shipped: bool,
}

/// The policy in force.
#[derive(Debug, Clone, PartialEq, Eq)]
pub struct InForce {
    pub info: PolicyInfo,
    /// The scopes of the policy in force, shipped or not: the download gate reads these.
    pub scopes: Scopes,
}

/// Whether a file in `/etc` is the shipped one: both read, not empty, the same bytes.
pub open spec fn same_spec(etc: Option<Seq<u8>>, shipped: Option<Seq<u8>>) -> bool {
    etc matches Some(a) && shipped matches Some(b) && a.len() > 0 && a == b
}

fn same_bytes(a: &[u8], b: &[u8]) -> (r: bool)
    ensures
        r == (a@ == b@),
{
    if a.len() != b.len() {
        return false;
    }
    let mut i: usize = 0;
    while i < a.len()
        invariant
            a@.len() == b@.len(),
            i <= a@.len(),
            forall|j: int| 0 <= j < i ==> a@[j] == b@[j],
        decreases a.len() - i,
    {
        if a[i] != b[i] {
            return false;
        }
        i = i + 1;
    }
    assert(a@ =~= b@);
    true
}

/// The view of optional bytes.
pub open spec fn bytes_view(b: Option<&[u8]>) -> Option<Seq<u8>> {
    match b {
        Some(b) => Some(b@),
        None => None,
    }
}

pub fn same(etc: Option<&[u8]>, shipped: Option<&[u8]>) -> (r: bool)
    ensures
        r == same_spec(bytes_view(etc), bytes_view(shipped)),
{
    match (etc, shipped) {
        (Some(a), Some(b)) => a.len() > 0 && same_bytes(a, b),
        _ => false,
    }
}

/// The policy in force, from what the caller read: the policy the tools resolve (its
/// path, its bytes, and the entries of its `transports.docker`), the shipped policy, and
/// the `registries.d` entry in `/etc` and shipped. It is the shipped one only when both
/// files are.
pub fn in_force(
    etc_path: &str,
    etc_policy: Option<&[u8]>,
    shipped_policy: Option<&[u8]>,
    etc_registries: Option<&[u8]>,
    shipped_registries: Option<&[u8]>,
    docker: Option<&[ScopeEntry]>,
) -> (r: InForce)
    ensures
        r.info.path@ == etc_path@,
        r.info.sha256@ == hex_spec(sha256_of(match etc_policy {
            Some(b) => b@,
            None => Seq::empty(),
        })),
        r.info.shipped == (same_spec(bytes_view(etc_policy), bytes_view(shipped_policy)) && same_spec(
            bytes_view(etc_registries),
            bytes_view(shipped_registries),
        )),
        scopes_view(r.scopes@) == match docker {
            Some(d) => scopes_spec(d@),
            None => Seq::empty(),
        },
{
    let empty: Vec<u8> = Vec::new();
    let bytes = match etc_policy {
        Some(b) => b,
        None => empty.as_slice(),
    };
    let digest = sha256(bytes);
    let shipped = same(etc_policy, shipped_policy) && same(etc_registries, shipped_registries);
    InForce {
        info: PolicyInfo { path: etc_path.to_owned(), sha256: hex_encode(digest.as_slice()), shipped },
        scopes: scopes(docker),
    }
}

} // verus!
