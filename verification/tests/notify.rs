use athanor::notify::{english, italian, message_of, texts, Notice, Notices, Published, Request, Sent, ACTION_APPLY, ACTION_GO_BACK, ACTION_LATER};
use athanor::update::state::{Deployment, UpdateState};

fn state(booted: &str, downloaded: Option<&str>, update: UpdateState) -> Published {
    let deployment = |digest: &str| Deployment {
        image: "localhost:5000/spike/athanor-system:stable".into(),
        digest: digest.into(),
        version: "43.20260910.1".into(),
        build_time: 1_789_034_400,
    };
    Published {
        booted: deployment(booted),
        downloaded: downloaded.map(deployment),
        previous: Some(deployment(booted)),
        update,
    }
}

#[test]
fn one_notice_per_downloaded_digest_per_session() {
    let mut notices = Notices::default();
    let ready = state("sha256:a", Some("sha256:b"), UpdateState::Downloaded);
    assert_eq!(notices.due(&ready, Some("sha256:a")), Some(Notice::Ready { digest: "sha256:b".into() }));
    assert_eq!(notices.due(&ready, Some("sha256:a")), None, "\"Later\" is not asked again in this session");
    assert!(Notices::default().due(&ready, Some("sha256:a")).is_some());
    let newer = state("sha256:a", Some("sha256:c"), UpdateState::Downloaded);
    assert_eq!(notices.due(&newer, Some("sha256:a")), Some(Notice::Ready { digest: "sha256:c".into() }));
}

#[test]
fn only_a_downloaded_update_is_announced() {
    for update in [UpdateState::Available, UpdateState::Held, UpdateState::OlderThanBooted, UpdateState::Refused, UpdateState::WillApplyAtNextShutdown] {
        assert_eq!(Notices::default().due(&state("sha256:a", Some("sha256:b"), update), Some("sha256:a")), None, "{update:?}");
    }
}

#[test]
fn a_new_deployment_is_announced_once_and_never_on_a_first_session() {
    let mut notices = Notices::default();
    let booted = state("sha256:b", None, UpdateState::Current);
    assert_eq!(notices.due(&booted, None), None, "first session of this user");
    assert!(matches!(notices.due(&booted, Some("sha256:a")), Some(Notice::Running { .. })));
    assert_eq!(notices.due(&booted, Some("sha256:a")), None);
    assert_eq!(notices.due(&booted, Some("sha256:b")), None);
}

#[test]
fn a_forged_action_is_dropped() {
    let mut notices = Notices::default();
    notices.sent.insert(7, Sent { server: ":1.42".into(), notice: Notice::Running { digest: "sha256:b".into(), version: "43".into(), build_time: 0 } });
    assert_eq!(notices.invoked(":1.666", 7, ACTION_GO_BACK), None, "another sender");
    assert_eq!(notices.invoked(":1.42", 8, ACTION_GO_BACK), None, "an id this process does not hold");
    assert_eq!(notices.invoked(":1.42", 7, ACTION_APPLY), None, "an action that notification never offered");
    assert_eq!(notices.invoked(":1.42", 7, ACTION_GO_BACK), None, "the id was forgotten by the wrong action");
    notices.sent.insert(9, Sent { server: ":1.42".into(), notice: Notice::Ready { digest: "sha256:c".into() } });
    assert_eq!(notices.invoked(":1.42", 9, ACTION_APPLY), Some(Request::Apply));
    assert_eq!(notices.invoked(":1.42", 9, ACTION_APPLY), None, "once");
}

#[test]
fn italian_for_an_italian_session_english_otherwise() {
    assert_eq!(texts(Some("it_IT.UTF-8")).later, "Più tardi");
    assert_eq!(texts(Some("de_DE.UTF-8")).later, "Later");
    assert_eq!(texts(None).restart, "Restart to update");
}

#[test]
fn each_notice_is_sent_with_its_words_and_actions() {
    let ready = message_of(&Notice::Ready { digest: "sha256:b".into() }, english(), "43.1");
    assert_eq!(ready.summary, "A system update is ready");
    assert_eq!(ready.actions, [ACTION_APPLY, "Restart to update", ACTION_LATER, "Later"]);
    let running = message_of(&Notice::Running { digest: "sha256:b".into(), version: "43.20260915.2".into(), build_time: 1_789_466_400 }, italian(), "43.20260915.2");
    assert_eq!(running.body, "Ora è in esecuzione la versione 43.20260915.2 del 2026-09-15.");
    assert_eq!(running.actions, [ACTION_GO_BACK, "Torna alla versione precedente"]);
}
