use athanor::update::check::{after_candidate, local_update, offerable, reason, refused_by_policy, storage_failure, Next};
use athanor::update::policy::{scopes, Requirement, ScopeEntry};
use athanor::update::requests::{apply_gate, reboot_refusal, RebootError, Refusal};
use athanor::update::secureboot::{lockdown_mode, read};
use athanor::update::sigobj::repository_of;
use athanor::update::state::{ErrorCode, Reason, UpdateState};
use athanor::update::store::{line_of, newest_booted, record_booted, Store};
use athanor::update::tools::{classify, failure_of, host_of, metered, unix_time, Deployed, Status};

fn deployed(digest: &str, build_time: i64) -> Deployed {
    Deployed {
        image: "localhost:5000/spike/athanor-system:stable".into(),
        digest: digest.into(),
        version: format!("43.{build_time}"),
        build_time,
        enforcing: true,
        download_only: false,
    }
}

#[test]
fn the_recorded_messages_map_to_their_codes() {
    for (stderr, code) in [
        ("error: Upgrading: … failed to invoke method OpenImage: A signature was required, but no signature exists", ErrorCode::Policy),
        ("… cryptographic signature verification failed: invalid signature when validating ASN.1 encoded signature", ErrorCode::Policy),
        ("containers-policy.json specifies a default of `insecureAcceptAnything`; refusing usage", ErrorCode::Policy),
        ("pinging container registry localhost:5000: Get \"http://localhost:5000/v2/\": dial tcp: i/o timeout", ErrorCode::Network),
        ("reading manifest stable in registry.example/o/athanor-system: manifest unknown", ErrorCode::Registry),
        ("error: Initializing storage: … Read-only file system (os error 30)", ErrorCode::Storage),
        ("error: something nobody has seen yet", ErrorCode::Internal),
    ] {
        assert_eq!(classify(stderr), code, "{stderr}");
    }
}

#[test]
fn only_network_and_registry_failures_carry_the_host() {
    assert_eq!(failure_of("dial tcp", Some("h".into())).host, Some("h".into()));
    assert_eq!(failure_of("Read-only file system", Some("h".into())).host, None);
}

#[test]
fn times_and_hosts() {
    assert_eq!(unix_time("2026-09-15T10:00:00Z"), unix_time("2026-09-15T12:00:00.5+02:00"));
    assert_eq!(unix_time("yesterday"), None);
    assert_eq!(host_of("localhost:5000/spike/athanor-system:stable").as_deref(), Some("localhost:5000"));
    assert_eq!(host_of("/x"), None);
}

#[test]
fn the_repository_is_the_reference_without_its_tag_or_digest() {
    assert_eq!(repository_of("localhost:5000/a/b:v1"), "localhost:5000/a/b");
    assert_eq!(repository_of("localhost:5000/a/b"), "localhost:5000/a/b");
    assert_eq!(repository_of("registry.example/o/n@sha256:abc"), "registry.example/o/n");
    assert_eq!(repository_of("registry.example/o/n:1@sha256:abc"), "registry.example/o/n");
}

#[test]
fn a_signature_directory_exists_only_for_a_sha256_digest() {
    let store = Store { run: "/tmp/run".into(), var: "/tmp/var".into() };
    assert_eq!(
        store.signature_dir(&format!("sha256:{}", "a".repeat(64))),
        Some(format!("/tmp/var/signatures/{}", "a".repeat(64)))
    );
    for bad in ["sha256:../../etc", "sha512:aa", "", &format!("sha256:{}", "A".repeat(64))] {
        assert_eq!(store.signature_dir(bad), None, "{bad}");
    }
}

#[test]
fn the_newest_booted_build_time_only_grows() {
    assert_eq!(record_booted(2000, 0), Some(2000));
    assert_eq!(record_booted(1000, 2000), None, "booting an older image after going back");
    assert_eq!(newest_booted(Some("2000\n")), 2000);
    assert_eq!(newest_booted(Some("garbage")), 0);
    assert_eq!(newest_booted(None), 0);
    assert_eq!(line_of("  sha256:aa \n"), Some("sha256:aa".into()));
    assert_eq!(line_of(" \n"), None);
}

#[test]
fn the_held_digest_and_older_builds_are_not_offered() {
    let booted = deployed("sha256:01", 1000);
    assert_eq!(offerable(&booted, Some("sha256:02"), "sha256:02", 2000), UpdateState::Held);
    assert_eq!(offerable(&booted, None, "sha256:02", 1000), UpdateState::OlderThanBooted);
    assert_eq!(offerable(&booted, None, "sha256:01", 3000), UpdateState::Current);
    assert_eq!(offerable(&booted, Some("sha256:02"), "sha256:03", 3000), UpdateState::Available);
    assert_eq!(after_candidate(UpdateState::Current, UpdateState::Available, false, true), Next::Publish(UpdateState::Available));
    assert_eq!(after_candidate(UpdateState::Refused, UpdateState::Current, false, false), Next::Publish(UpdateState::Refused));
    assert_eq!(after_candidate(UpdateState::Current, UpdateState::Available, false, false), Next::Download);
    let staged = Status { booted: booted.clone(), staged: Some(Deployed { download_only: true, ..deployed("sha256:02", 2000) }), rollback: None };
    assert_eq!(local_update(&staged, None, false), UpdateState::Downloaded);
    let applying = Status { booted, staged: Some(deployed("sha256:02", 2000)), rollback: None };
    assert_eq!(local_update(&applying, None, true), UpdateState::WillApplyAtNextShutdown);
}

fn strict(keys: &[&str]) -> Requirement {
    Requirement {
        kind: Some("sigstoreSigned".into()),
        identity: Some("matchRepository".into()),
        key_paths: keys.iter().map(|k| k.to_string()).collect(),
    }
}

#[test]
fn only_strict_repository_scopes_are_ours_and_they_carry_their_keys() {
    let docker: Vec<ScopeEntry> = vec![
        ("".into(), Some(vec![Requirement { kind: Some("insecureAcceptAnything".into()), identity: None, key_paths: vec![] }])),
        (
            "registry.example/owner/athanor-system".into(),
            Some(vec![strict(&["/usr/share/athanor/keys/athanor-image-1.pub", "/usr/share/athanor/keys/athanor-image-2.pub"])]),
        ),
        ("registry.example/owner/relaxed".into(), Some(vec![Requirement { kind: Some("insecureAcceptAnything".into()), identity: None, key_paths: vec![] }])),
    ];
    let found = scopes(Some(&docker));
    assert_eq!(found.iter().map(|(s, _)| s.as_str()).collect::<Vec<_>>(), ["registry.example/owner/athanor-system"]);
    assert_eq!(found[0].1.len(), 2);
    assert!(scopes(None).is_empty());
}

#[test]
fn verified_needs_the_shipped_policy_a_scope_and_a_backed_claim() {
    let booted = deployed("sha256:01", 1000);
    let ours = vec![("localhost:5000/spike/athanor-system".to_string(), vec!["/k.pub".to_string()])];
    assert_eq!(reason(false, &ours, &booted, &[]), Reason::PolicyNotInForce);
    assert_eq!(reason(true, &vec![], &booted, &[]), Reason::ReferenceOutOfScope);
    assert_eq!(reason(true, &ours, &Deployed { enforcing: false, ..booted.clone() }, &[]), Reason::Media);
    assert_eq!(reason(true, &ours, &booted, &[]), Reason::NoSignature);
}

#[test]
fn a_failed_reboot_is_answered_with_its_refusal() {
    assert_eq!(reboot_refusal(RebootError::Blocked), Refusal::Blocked);
    assert_eq!(Refusal::from(RebootError::Failed), Refusal::Failed);
    assert_eq!(apply_gate(false, false), Err(Refusal::NothingDownloaded));
    assert_eq!(apply_gate(true, true), Err(Refusal::Blocked));
    assert_eq!(apply_gate(true, false), Ok(()));
}

#[test]
fn the_four_readings_are_read_separately() {
    let on = read(Some(&[6, 0, 0, 0, 1]), Some(&[6, 0, 0, 0, 0]), None, Some("none [integrity] confidentiality\n"));
    assert_eq!((on.secure_boot, on.setup_mode, on.mok_sb_state, on.lockdown.as_deref()), (Some(1), Some(0), None, Some("integrity")));
    let bios = read(None, None, None, None);
    assert_eq!((bios.secure_boot, bios.lockdown), (None, None));
    assert_eq!(lockdown_mode("[none] integrity"), Some("none".into()));
    assert_eq!(lockdown_mode("none"), None);
}

#[test]
fn a_metered_connection_is_yes_or_guessed_yes() {
    assert!(metered(Some("u 1\n")));
    assert!(metered(Some("u 3")));
    assert!(!metered(Some("u 2")));
    assert!(!metered(None));
}

#[test]
fn only_a_policy_failure_records_a_refusal() {
    let refused = failure_of("error: A signature was required, but no signature exists", None);
    assert_eq!(refused.code, ErrorCode::Policy);
    assert!(refused_by_policy(&refused));
    assert!(!refused_by_policy(&failure_of("dial tcp: i/o timeout", None)));
    assert!(!refused_by_policy(&storage_failure()));
}
