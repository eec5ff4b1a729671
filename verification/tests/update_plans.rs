use athanor::update::migrate::{follows, relock, start, target, Outcome, Start, Wait};
use athanor::update::recover::{named_everywhere, split};
use athanor::update::requests::{shutdown_blocked, Refusal};
use athanor::update::store::{Change, Store, RECORD_MODE};
use athanor::update::tools::{candidate_of, System, ATTACHMENTS_POLICY, BOOTC, BUSCTL, OSTREE, SKOPEO};

fn scratch() -> Store {
    Store { run: "/run/athanor-update".into(), var: "/var/lib/athanor-update".into() }
}

#[test]
fn one_line_records_read_trimmed_and_blank_is_none() {
    assert_eq!(Store::held(Some("sha256:aa\n")).as_deref(), Some("sha256:aa"));
    assert_eq!(Store::held(Some("  \n")), None);
    assert_eq!(Store::held(None), None);
    assert_eq!(Store::refused(Some("sha256:bb\n")).as_deref(), Some("sha256:bb"));
    assert_eq!(Store::last_success(Some("1789034400\n")), Some(1_789_034_400));
    assert_eq!(Store::last_success(Some("yesterday\n")), None);
    assert_eq!(Store::last_success(None), None);
}

#[test]
fn records_are_written_whole_with_a_newline() {
    let store = scratch();
    let held = store.set_held("sha256:aa");
    assert_eq!((held.dir.as_str(), held.name.as_str(), held.mode, held.contents.as_str()), ("/var/lib/athanor-update", "held", 0o644, "sha256:aa\n"));
    let success = store.set_last_success(-5);
    assert_eq!((success.name.as_str(), success.contents.as_str()), ("last-success", "-5\n"));
    let booted = store.set_number("newest-booted", 2000);
    assert_eq!((booted.name.as_str(), booted.contents.as_str(), booted.mode), ("newest-booted", "2000\n", RECORD_MODE));
    let migrated = store.set_migrated();
    assert_eq!((migrated.name.as_str(), migrated.contents.as_str()), ("migrated", ""));
}

#[test]
fn refused_is_replaced_or_removed() {
    let store = scratch();
    match store.set_refused(Some("sha256:bb")) {
        Change::Replace(w) => assert_eq!((w.name.as_str(), w.contents.as_str()), ("refused", "sha256:bb\n")),
        Change::Remove(_) => panic!("a digest is written"),
    }
    match store.set_refused(None) {
        Change::Remove(path) => assert_eq!(path, "/var/lib/athanor-update/refused"),
        Change::Replace(_) => panic!("no digest clears the record"),
    }
}

#[test]
fn the_programs_and_their_arguments() {
    let system = System;
    let status = system.status_command();
    assert_eq!((status.program.as_str(), status.args.clone(), status.host), (BOOTC, vec!["status".to_owned(), "--format".into(), "json".into()], None));
    let digest = system.digest_command("registry.example/o/athanor-system:stable");
    assert_eq!(digest.program, SKOPEO);
    assert_eq!(digest.args, ["inspect", "--format", "{{.Digest}}", "docker://registry.example/o/athanor-system:stable"]);
    assert_eq!(digest.host.as_deref(), Some("registry.example"));
    let config = system.config_command("registry.example/o/athanor-system:stable", "sha256:e64f");
    assert_eq!(config.args, ["inspect", "--config", "docker://registry.example/o/athanor-system@sha256:e64f"]);
    let download = system.download_command(Some("localhost:5000/spike/athanor-system:stable"));
    assert_eq!((download.args.clone(), download.host.as_deref()), (vec!["upgrade".to_owned(), "--download-only".into()], Some("localhost:5000")));
    assert_eq!(system.download_command(None).host, None);
    assert_eq!(system.apply_downloaded_command().args, ["upgrade", "--from-downloaded"]);
    let relock = system.relock_command();
    assert_eq!((relock.program.as_str(), relock.args.clone()), (OSTREE, vec!["admin".to_owned(), "lock-finalization".into()]));
    assert_eq!(system.rollback_command().args, ["rollback"]);
    let switch = system.switch_command("registry.example/o/athanor-system:stable");
    assert_eq!(switch.args, ["switch", "--enforce-container-sigpolicy", "--transport", "registry", "registry.example/o/athanor-system:stable"]);
    let metered = system.metered_command();
    assert_eq!(metered.program, BUSCTL);
    assert_eq!(metered.args.last().map(String::as_str), Some("Metered"));
}

#[test]
fn a_signature_is_fetched_only_for_a_sha256_digest() {
    let hex = "ab".repeat(32);
    let fetch = System.fetch_signature_command("registry.example/o/athanor-system", &format!("sha256:{hex}"), "/var/lib/athanor-update/signatures/x").expect("a sha256 digest");
    assert_eq!(fetch.args, [
        "copy".to_owned(),
        "--policy".into(),
        ATTACHMENTS_POLICY.into(),
        format!("docker://registry.example/o/athanor-system:sha256-{hex}.sig"),
        "dir:/var/lib/athanor-update/signatures/x".into(),
    ]);
    assert_eq!(fetch.host.as_deref(), Some("registry.example"));
    assert!(System.fetch_signature_command("r/o", "sha256:../../etc", "/tmp").is_none());
}

#[test]
fn a_candidate_from_what_skopeo_printed() {
    let candidate = candidate_of("sha256:e64f7608\n", "43.20260915.2", "2026-09-15T10:00:00Z");
    assert_eq!((candidate.digest.as_str(), candidate.version.as_str(), candidate.build_time), ("sha256:e64f7608", "43.20260915.2", 1_789_466_400));
    assert_eq!(candidate_of("sha256:e64f", "", "").build_time, 0);
}

#[test]
fn finish_waits_until_every_scope_names_the_new_key() {
    let recovery = "-----BEGIN PUBLIC KEY-----\nNEW\n-----END PUBLIC KEY-----\n";
    let new_key = Some("  -----BEGIN PUBLIC KEY-----\nNEW\n-----END PUBLIC KEY-----".to_owned());
    let old_key = Some("-----BEGIN PUBLIC KEY-----\nOLD\n-----END PUBLIC KEY-----\n".to_owned());
    assert!(named_everywhere(recovery, &[vec![old_key.clone(), new_key.clone()], vec![new_key.clone()]]));
    assert!(!named_everywhere(recovery, &[vec![new_key.clone()], vec![old_key.clone(), None]]));
    assert!(!named_everywhere(recovery, &[]), "no signed scope: nothing to give back");
}

#[test]
fn the_policy_path_splits_into_directory_and_name() {
    assert_eq!(split("/etc/containers/policy.json"), Ok(("/etc/containers".to_owned(), "policy.json".to_owned())));
    assert_eq!(split("/"), Err("/ has no directory or name".to_owned()));
}

#[test]
fn a_shutdown_is_blocked_only_by_a_block_inhibitor_on_shutdown() {
    assert!(shutdown_blocked(&[("sleep:shutdown".to_owned(), "block".to_owned())]));
    assert!(!shutdown_blocked(&[("shutdown".to_owned(), "delay".to_owned()), ("sleep".to_owned(), "block".to_owned())]));
    assert!(!shutdown_blocked(&[]));
}

#[test]
fn each_refusal_has_its_message() {
    assert_eq!(Refusal::Busy.message(), "a check or another request is running");
    assert_eq!(Refusal::Blocked.message(), "a restart is blocked by an inhibitor");
    assert_eq!(Refusal::NoPreviousVersion.message(), "there is no previous version to go back to");
}

#[test]
fn a_migration_starts_or_stops_before_the_registry() {
    assert_eq!(start(true, false, true, true), Start::Stop(Outcome::Done, false));
    assert_eq!(start(false, true, true, true), Start::Stop(Outcome::Done, true));
    assert_eq!(start(false, false, false, true), Start::Stop(Outcome::Waiting(Wait::PolicyNotInForce), false));
    assert_eq!(start(false, false, true, false), Start::Stop(Outcome::Waiting(Wait::ReferenceOutOfScope), false));
    assert_eq!(start(false, false, true, true), Start::AskChannel);
    assert_eq!(target("registry.example/o/athanor-system"), "registry.example/o/athanor-system:stable");
    assert!(follows(2000, 2000) && !follows(1999, 2000));
    assert!(relock(2001, 2000) && !relock(2000, 2000));
    assert_eq!(Wait::ChannelOlderThanBooted.code(), "channel-older-than-booted");
}
