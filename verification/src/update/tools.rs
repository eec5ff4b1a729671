//! What bootc, skopeo and NetworkManager answer, reduced to values, and the codes their
//! error texts map to.

use vstd::prelude::*;

use crate::chars::{
    chars_of, contains, contains_spec, owned_all, push_str, split, split_spec, str_views, string_views,
    trim, trim_spec,
};
use crate::update::sigobj::{repository_of, repository_spec};
use crate::update::store::string_opt_view;
use crate::update::state::ErrorCode;

verus! {

/// A failed call, reduced to what may enter the state file: a code and the registry host.
#[derive(Debug, Clone, PartialEq, Eq)]
pub struct Failure {
    pub code: ErrorCode,
    pub host: Option<String>,
}

/// One deployment as `bootc status --format json` reports it.
#[derive(Debug, Clone, PartialEq, Eq)]
pub struct Deployed {
    pub image: String,
    pub digest: String,
    pub version: String,
    /// `org.opencontainers.image.created`, seconds since the epoch; 0 when absent.
    pub build_time: i64,
    /// The deployment's origin is `ostree-image-signed:`, so bootc applies the host policy.
    pub enforcing: bool,
    /// Staged and locked against finalization (`bootc upgrade --download-only`).
    pub download_only: bool,
}

#[derive(Debug, Clone, PartialEq, Eq)]
pub struct Status {
    pub booted: Deployed,
    pub staged: Option<Deployed>,
    pub rollback: Option<Deployed>,
}

/// What the tag points at in the registry, read without downloading a layer.
#[derive(Debug, Clone, PartialEq, Eq)]
pub struct Candidate {
    pub digest: String,
    pub version: String,
    pub build_time: i64,
}

/// What chrono's RFC 3339 parser reads, as seconds since the epoch.
pub uninterp spec fn rfc3339_seconds(text: Seq<char>) -> Option<i64>;

/// `DateTime::parse_from_rfc3339`, then `timestamp`.
#[verifier::external_body]
fn parse_rfc3339(text: &str) -> (r: Option<i64>)
    ensures
        r == rfc3339_seconds(text@),
{
    match chrono::DateTime::parse_from_rfc3339(text) {
        Ok(time) => Some(time.timestamp()),
        Err(_) => None,
    }
}

/// Seconds since the epoch of an RFC 3339 time, as the image labels carry it.
pub fn unix_time(rfc3339: &str) -> (r: Option<i64>)
    ensures
        r == rfc3339_seconds(rfc3339@),
{
    parse_rfc3339(rfc3339)
}

/// The registry host of `registry/path[:tag]`: what comes before the first `/`, when it is
/// not empty.
pub open spec fn host_spec(image: Seq<char>) -> Option<Seq<char>> {
    let first = split_spec(image, '/')[0];
    if first.len() > 0 {
        Some(first)
    } else {
        None
    }
}

pub fn host_of(image: &str) -> (r: Option<String>)
    ensures
        match host_spec(image@) {
            Some(h) => r matches Some(s) && s@ == h,
            None => r is None,
        },
{
    let v = chars_of(image);
    let parts = split(v.as_slice(), '/');
    proof {
        crate::chars::lemma_split_nonempty(image@, '/');
    }
    if parts[0].len() > 0 {
        Some(crate::chars::string_of(parts[0].as_slice()))
    } else {
        None
    }
}

/// The texts of containers/image that mean the signature policy refused the image.
pub open spec fn policy_texts() -> Seq<Seq<char>> {
    seq![
        "A signature was required, but no signature exists"@,
        "cryptographic signature verification failed"@,
        "Source image rejected"@,
        "refusing usage"@,
    ]
}

/// The texts that mean the registry was not reached.
pub open spec fn network_texts() -> Seq<Seq<char>> {
    seq![
        "pinging container registry"@,
        "i/o timeout"@,
        "connection refused"@,
        "no such host"@,
        "dial tcp"@,
        "network is unreachable"@,
        "TLS handshake"@,
    ]
}

/// The texts that mean the registry answered with a refusal.
pub open spec fn registry_texts() -> Seq<Seq<char>> {
    seq![
        "manifest unknown"@,
        "unauthorized"@,
        "denied"@,
        "toomanyrequests"@,
        "received unexpected HTTP status"@,
    ]
}

/// The texts that mean the disk failed.
pub open spec fn storage_texts() -> Seq<Seq<char>> {
    seq!["No space left on device"@, "Read-only file system"@, "Input/output error"@]
}

/// Whether one of `needles` occurs in `text`.
pub open spec fn has_any(text: Seq<char>, needles: Seq<Seq<char>>) -> bool {
    exists|i: int| 0 <= i < needles.len() && contains_spec(text, #[trigger] needles[i])
}

/// The code of an error text: the first list with a text in it decides.
pub open spec fn classify_spec(stderr: Seq<char>) -> ErrorCode {
    if has_any(stderr, policy_texts()) {
        ErrorCode::Policy
    } else if has_any(stderr, network_texts()) {
        ErrorCode::Network
    } else if has_any(stderr, registry_texts()) {
        ErrorCode::Registry
    } else if has_any(stderr, storage_texts()) {
        ErrorCode::Storage
    } else {
        ErrorCode::Internal
    }
}

fn has_any_of(text: &[char], needles: &[&str]) -> (r: bool)
    ensures
        r == has_any(text@, needles@.map_values(|n: &str| n@)),
{
    let ghost ns = needles@.map_values(|n: &str| n@);
    let mut i: usize = 0;
    while i < needles.len()
        invariant
            i <= needles@.len(),
            ns == needles@.map_values(|n: &str| n@),
            forall|j: int| 0 <= j < i ==> !contains_spec(text@, #[trigger] ns[j]),
        decreases needles.len() - i,
    {
        let n = chars_of(needles[i]);
        if contains(text, n.as_slice()) {
            assert(contains_spec(text@, ns[i as int]));
            return true;
        }
        i = i + 1;
    }
    false
}

/// Maps the error text of bootc, skopeo or ostree to a code. The text goes no further.
pub fn classify(stderr: &str) -> (code: ErrorCode)
    ensures
        code == classify_spec(stderr@),
{
    let text = chars_of(stderr);
    let policy = [
        "A signature was required, but no signature exists",
        "cryptographic signature verification failed",
        "Source image rejected",
        "refusing usage",
    ];
    let network = [
        "pinging container registry",
        "i/o timeout",
        "connection refused",
        "no such host",
        "dial tcp",
        "network is unreachable",
        "TLS handshake",
    ];
    let registry = [
        "manifest unknown",
        "unauthorized",
        "denied",
        "toomanyrequests",
        "received unexpected HTTP status",
    ];
    let storage = ["No space left on device", "Read-only file system", "Input/output error"];
    assert(policy@.map_values(|n: &str| n@) =~= policy_texts());
    assert(network@.map_values(|n: &str| n@) =~= network_texts());
    assert(registry@.map_values(|n: &str| n@) =~= registry_texts());
    assert(storage@.map_values(|n: &str| n@) =~= storage_texts());
    if has_any_of(text.as_slice(), &policy) {
        ErrorCode::Policy
    } else if has_any_of(text.as_slice(), &network) {
        ErrorCode::Network
    } else if has_any_of(text.as_slice(), &registry) {
        ErrorCode::Registry
    } else if has_any_of(text.as_slice(), &storage) {
        ErrorCode::Storage
    } else {
        ErrorCode::Internal
    }
}

/// The failure of a command whose error text is `stderr`: the registry host goes with it
/// only when the code is about the network or the registry.
pub fn failure_of(stderr: &str, host: Option<String>) -> (f: Failure)
    ensures
        f.code == classify_spec(stderr@),
        f.host == (if f.code == ErrorCode::Network || f.code == ErrorCode::Registry {
            host
        } else {
            None
        }),
{
    let code = classify(stderr);
    let host = match code {
        ErrorCode::Network | ErrorCode::Registry => host,
        _ => None,
    };
    Failure { code, host }
}

/// An image entry of `bootc status`, its JSON read by the caller.
#[derive(Debug, Clone, PartialEq, Eq)]
pub struct ImageEntry {
    /// `image.image`
    pub reference: String,
    /// `image.signature`, when it is a string.
    pub signature: Option<String>,
    pub version: Option<String>,
    pub timestamp: Option<String>,
    /// `imageDigest`
    pub digest: String,
}

/// A deployment of `bootc status`: none without an image. It enforces the host policy when
/// its origin's signature is `containerPolicy`; a missing version is empty and a missing or
/// unreadable time is 0.
pub fn deployed(image: Option<ImageEntry>, download_only: bool) -> (d: Option<Deployed>)
    ensures
        match image {
            None => d is None,
            Some(e) => d matches Some(dep) && dep.image@ == e.reference@ && dep.digest@
                == e.digest@ && dep.enforcing == (e.signature matches Some(s) && s@
                == "containerPolicy"@) && dep.version@ == (match e.version {
                Some(v) => v@,
                None => Seq::empty(),
            }) && dep.build_time == (match e.timestamp {
                Some(t) => match rfc3339_seconds(t@) {
                    Some(s) => s,
                    None => 0,
                },
                None => 0,
            }) && dep.download_only == download_only,
        },
{
    let e = match image {
        Some(e) => e,
        None => return None,
    };
    let policy = "containerPolicy".to_owned();
    let enforcing = match &e.signature {
        Some(s) => s.eq(&policy),
        None => false,
    };
    let version = match e.version {
        Some(v) => v,
        None => String::new(),
    };
    let build_time = match &e.timestamp {
        Some(t) => match unix_time(t.as_str()) {
            Some(s) => s,
            None => 0,
        },
        None => 0,
    };
    Some(Deployed { image: e.reference, digest: e.digest, version, build_time, enforcing, download_only })
}

/// Whether NetworkManager's `Metered` answer means a metered connection: `u 1` (yes) or
/// `u 3` (guessed yes). No answer is no.
pub fn metered(answer: Option<&str>) -> (m: bool)
    ensures
        m == (answer matches Some(a) && (trim_spec(a@) == "u 1"@ || trim_spec(a@) == "u 3"@)),
{
    match answer {
        Some(a) => {
            let v = chars_of(a);
            let t = trim(v.as_slice());
            let yes = chars_of("u 1");
            let guessed = chars_of("u 3");
            crate::chars::same_chars(t.as_slice(), yes.as_slice())
                || crate::chars::same_chars(t.as_slice(), guessed.as_slice())
        },
        None => false,
    }
}

/// A hexadecimal digit, either case.
pub open spec fn hex_digit_any(c: char) -> bool {
    ('0' <= c <= '9') || ('a' <= c <= 'f') || ('A' <= c <= 'F')
}

/// Where the signature object of `digest` is copied from: `docker://<repository>:sha256-<hex>.sig`,
/// for a `sha256:` digest of 64 hexadecimal digits only.
pub open spec fn signature_source_spec(repository: Seq<char>, digest: Seq<char>) -> Option<Seq<char>> {
    if digest.len() == 71 && digest.take(7) == "sha256:"@ && forall|i: int|
        7 <= i < 71 ==> hex_digit_any(#[trigger] digest[i]) {
        Some("docker://"@ + repository + ":sha256-"@ + digest.skip(7) + ".sig"@)
    } else {
        None
    }
}

pub fn signature_source(repository: &str, digest: &str) -> (r: Option<String>)
    ensures
        match signature_source_spec(repository@, digest@) {
            Some(s) => r matches Some(x) && x@ == s,
            None => r is None,
        },
{
    let d = chars_of(digest);
    let prefix = chars_of("sha256:");
    proof {
        reveal_strlit("sha256:");
    }
    if d.len() != 71 || !crate::chars::starts_with(d.as_slice(), prefix.as_slice()) {
        return None;
    }
    let mut i: usize = 7;
    while i < 71
        invariant
            d@ == digest@,
            d@.len() == 71,
            7 <= i <= 71,
            forall|j: int| 7 <= j < i ==> hex_digit_any(#[trigger] d@[j]),
        decreases 71 - i,
    {
        let c = d[i];
        if !(('0' <= c && c <= '9') || ('a' <= c && c <= 'f') || ('A' <= c && c <= 'F')) {
            assert(!hex_digit_any(digest@[i as int]));
            return None;
        }
        i = i + 1;
    }
    let (_, hex) = d.as_slice().split_at(7);
    let mut s = "docker://".to_owned();
    push_str(&mut s, repository);
    push_str(&mut s, ":sha256-");
    push_str(&mut s, crate::chars::string_of(hex).as_str());
    push_str(&mut s, ".sig");
    Some(s)
}

pub const BOOTC: &'static str = "/usr/bin/bootc";

pub const SKOPEO: &'static str = "/usr/bin/skopeo";

pub const OSTREE: &'static str = "/usr/bin/ostree";

pub const BUSCTL: &'static str = "/usr/bin/busctl";

/// The policy that lets skopeo copy a signature object and nothing else.
pub const ATTACHMENTS_POLICY: &'static str = "/usr/share/athanor/containers/attachments-policy.json";

/// One run of a program of the image, with `LC_ALL=C`. `host` is the registry the run
/// talks to, named in the failure when the error is about the network or the registry.
pub struct Invocation {
    pub program: String,
    pub args: Vec<String>,
    pub host: Option<String>,
}

/// The real programs, at their absolute paths in the image.
pub struct System;

fn invocation(program: &str, args: &[&str], host: Option<String>) -> (i: Invocation)
    ensures
        i.program@ == program@,
        string_views(i.args@) == str_views(args@),
        i.host == host,
{
    Invocation { program: program.to_owned(), args: owned_all(args), host }
}

/// `docker://` and the image.
pub open spec fn docker_spec(image: Seq<char>) -> Seq<char> {
    "docker://"@ + image
}

fn docker(image: &str) -> (s: String)
    ensures
        s@ == docker_spec(image@),
{
    let mut s = "docker://".to_owned();
    push_str(&mut s, image);
    s
}

impl System {
    /// `bootc status --format json`.
    pub fn status_command(&self) -> (i: Invocation)
        ensures
            i.program@ == BOOTC@,
            string_views(i.args@) == seq!["status"@, "--format"@, "json"@],
            i.host is None,
    {
        let args: [&str; 3] = ["status", "--format", "json"];
        assert(str_views(args@) =~= seq!["status"@, "--format"@, "json"@]);
        invocation(BOOTC, &args, None)
    }

    /// The digest the tag points at: `skopeo inspect --format {{.Digest}} docker://<image>`.
    pub fn digest_command(&self, image: &str) -> (i: Invocation)
        ensures
            i.program@ == SKOPEO@,
            string_views(i.args@) == seq!["inspect"@, "--format"@, "{{.Digest}}"@, docker_spec(image@)],
            string_opt_view(i.host) == host_spec(image@),
    {
        let source = docker(image);
        let args: [&str; 4] = ["inspect", "--format", "{{.Digest}}", source.as_str()];
        assert(str_views(args@) =~= seq!["inspect"@, "--format"@, "{{.Digest}}"@, docker_spec(image@)]);
        invocation(SKOPEO, &args, host_of(image))
    }

    /// The configuration of the image by digest, so that both facts describe one image even
    /// if the tag moves between the two calls: `skopeo inspect --config
    /// docker://<repository>@<digest>`.
    pub fn config_command(&self, image: &str, digest: &str) -> (i: Invocation)
        ensures
            i.program@ == SKOPEO@,
            string_views(i.args@) == seq![
                "inspect"@,
                "--config"@,
                docker_spec(repository_spec(image@) + "@"@ + digest@),
            ],
            string_opt_view(i.host) == host_spec(image@),
    {
        let mut pinned = repository_of(image);
        push_str(&mut pinned, "@");
        push_str(&mut pinned, digest);
        let source = docker(pinned.as_str());
        let args: [&str; 3] = ["inspect", "--config", source.as_str()];
        assert(str_views(args@) =~= seq![
            "inspect"@,
            "--config"@,
            docker_spec(repository_spec(image@) + "@"@ + digest@),
        ]);
        invocation(SKOPEO, &args, host_of(image))
    }

    /// `bootc upgrade --download-only`, against the registry of the booted image when the
    /// status could be read.
    pub fn download_command(&self, booted_image: Option<&str>) -> (i: Invocation)
        ensures
            i.program@ == BOOTC@,
            string_views(i.args@) == seq!["upgrade"@, "--download-only"@],
            string_opt_view(i.host) == (match booted_image {
                Some(b) => host_spec(b@),
                None => None,
            }),
    {
        let host = match booted_image {
            Some(b) => host_of(b),
            None => None,
        };
        let args: [&str; 2] = ["upgrade", "--download-only"];
        assert(str_views(args@) =~= seq!["upgrade"@, "--download-only"@]);
        invocation(BOOTC, &args, host)
    }

    /// `bootc upgrade --from-downloaded`.
    pub fn apply_downloaded_command(&self) -> (i: Invocation)
        ensures
            i.program@ == BOOTC@,
            string_views(i.args@) == seq!["upgrade"@, "--from-downloaded"@],
            i.host is None,
    {
        let args: [&str; 2] = ["upgrade", "--from-downloaded"];
        assert(str_views(args@) =~= seq!["upgrade"@, "--from-downloaded"@]);
        invocation(BOOTC, &args, None)
    }

    /// `ostree admin lock-finalization`.
    pub fn relock_command(&self) -> (i: Invocation)
        ensures
            i.program@ == OSTREE@,
            string_views(i.args@) == seq!["admin"@, "lock-finalization"@],
            i.host is None,
    {
        let args: [&str; 2] = ["admin", "lock-finalization"];
        assert(str_views(args@) =~= seq!["admin"@, "lock-finalization"@]);
        invocation(OSTREE, &args, None)
    }

    /// `bootc rollback`.
    pub fn rollback_command(&self) -> (i: Invocation)
        ensures
            i.program@ == BOOTC@,
            string_views(i.args@) == seq!["rollback"@],
            i.host is None,
    {
        let args: [&str; 1] = ["rollback"];
        assert(str_views(args@) =~= seq!["rollback"@]);
        invocation(BOOTC, &args, None)
    }

    /// `bootc switch --enforce-container-sigpolicy --transport registry <image>`.
    pub fn switch_command(&self, image: &str) -> (i: Invocation)
        ensures
            i.program@ == BOOTC@,
            string_views(i.args@) == seq![
                "switch"@,
                "--enforce-container-sigpolicy"@,
                "--transport"@,
                "registry"@,
                image@,
            ],
            string_opt_view(i.host) == host_spec(image@),
    {
        let args: [&str; 5] = ["switch", "--enforce-container-sigpolicy", "--transport", "registry", image];
        assert(str_views(args@) =~= seq![
            "switch"@,
            "--enforce-container-sigpolicy"@,
            "--transport"@,
            "registry"@,
            image@,
        ]);
        invocation(BOOTC, &args, host_of(image))
    }

    /// Copies the signature object of `digest` into the directory `dest`, under the policy
    /// that admits attachments only: `skopeo copy --policy <policy>
    /// docker://<repository>:sha256-<hex>.sig dir:<dest>`. `None` for a digest that is not
    /// `sha256:` and 64 hexadecimal digits.
    pub fn fetch_signature_command(&self, repository: &str, digest: &str, dest: &str) -> (r: Option<Invocation>)
        ensures
            match signature_source_spec(repository@, digest@) {
                Some(source) => r matches Some(i) && i.program@ == SKOPEO@ && string_views(i.args@)
                    == seq![
                    "copy"@,
                    "--policy"@,
                    ATTACHMENTS_POLICY@,
                    source,
                    "dir:"@ + dest@,
                ] && string_opt_view(i.host) == host_spec(repository@),
                None => r is None,
            },
    {
        let source = match signature_source(repository, digest) {
            Some(s) => s,
            None => return None,
        };
        let mut target = "dir:".to_owned();
        push_str(&mut target, dest);
        let args: [&str; 5] = ["copy", "--policy", ATTACHMENTS_POLICY, source.as_str(), target.as_str()];
        assert(str_views(args@) =~= seq![
            "copy"@,
            "--policy"@,
            ATTACHMENTS_POLICY@,
            source@,
            "dir:"@ + dest@,
        ]);
        Some(invocation(SKOPEO, &args, host_of(repository)))
    }

    /// NetworkManager's `Metered` property, asked of the system bus with busctl.
    pub fn metered_command(&self) -> (i: Invocation)
        ensures
            i.program@ == BUSCTL@,
            string_views(i.args@) == seq![
                "--system"@,
                "get-property"@,
                "org.freedesktop.NetworkManager"@,
                "/org/freedesktop/NetworkManager"@,
                "org.freedesktop.NetworkManager"@,
                "Metered"@,
            ],
            i.host is None,
    {
        let args: [&str; 6] = [
            "--system",
            "get-property",
            "org.freedesktop.NetworkManager",
            "/org/freedesktop/NetworkManager",
            "org.freedesktop.NetworkManager",
            "Metered",
        ];
        assert(str_views(args@) =~= seq![
            "--system"@,
            "get-property"@,
            "org.freedesktop.NetworkManager"@,
            "/org/freedesktop/NetworkManager"@,
            "org.freedesktop.NetworkManager"@,
            "Metered"@,
        ]);
        invocation(BUSCTL, &args, None)
    }
}

/// The candidate of `skopeo inspect`: the digest printed (trimmed), and the version and the
/// creation time of the image's labels, empty when missing; an unreadable time is 0.
pub fn candidate_of(digest_output: &str, version_label: &str, created_label: &str) -> (c: Candidate)
    ensures
        c.digest@ == trim_spec(digest_output@),
        c.version@ == version_label@,
        c.build_time == (match rfc3339_seconds(created_label@) {
            Some(s) => s,
            None => 0,
        }),
{
    let v = chars_of(digest_output);
    let t = trim(v.as_slice());
    let build_time = match unix_time(created_label) {
        Some(s) => s,
        None => 0,
    };
    Candidate { digest: crate::chars::string_of(t.as_slice()), version: version_label.to_owned(), build_time }
}

} // verus!
