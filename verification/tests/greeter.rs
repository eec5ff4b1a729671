use athanor::greeter::{
    capitalize_first, discover_target_user, first_installed, is_system_account, pick_installed,
    reply_fits, session_badge, session_command, started, step, target_user, Answer, AuthKind,
    Reply, Step, MAX_REPLY_BYTES, MAX_TURNS, SESSION_COMMAND_FALLBACK, SESSION_COMMAND_PATHS,
};

const PASSWD: &str = "root:x:0:0:root:/root:/bin/bash\ngreeter:x:967:967::/var/lib/greeter:/usr/sbin/nologin\nada:x:1000:1000:Ada Lovelace,,,:/var/home/ada:/bin/bash\nbob:x:1001:1001::/home/bob:/usr/bin/zsh\n";

#[test]
fn badge_names_the_session_the_greeter_starts() {
    assert_eq!(session_badge("/usr/bin/athanor-session"), "WAYLAND • ATHANOR-SESSION");
    assert_eq!(session_badge("athanor-session"), "WAYLAND • ATHANOR-SESSION");
}

#[test]
fn auth_badge_names_the_session_the_greeter_starts() {
    assert_eq!(session_badge("/usr/bin/athanor-session"), "WAYLAND • ATHANOR-SESSION");
    assert_eq!(session_badge("athanor-session"), "WAYLAND • ATHANOR-SESSION");
}

#[test]
fn badge_names_no_compositor() {
    let badge = session_badge(&session_command());
    for compositor in ["NIRI", "COSMIC", "COSMIC-COMP", "SWAY", "GNOME", "KDE"] {
        assert!(!badge.contains(compositor), "badge {badge:?} names the compositor {compositor}");
    }
}

#[test]
fn auth_badge_names_no_compositor() {
    let badge = session_badge(&session_command());
    for compositor in ["NIRI", "COSMIC", "COSMIC-COMP", "SWAY", "GNOME", "KDE"] {
        assert!(!badge.contains(compositor), "badge {badge:?} names the compositor {compositor}");
    }
}

#[test]
fn the_real_candidates_are_absolute_and_end_in_the_session_command() {
    for candidate in SESSION_COMMAND_PATHS {
        assert!(candidate.starts_with('/'), "an installed session command is an absolute path: {candidate}");
        assert!(candidate.ends_with(SESSION_COMMAND_FALLBACK), "{candidate}");
    }
    assert_eq!(session_command(), first_installed(&SESSION_COMMAND_PATHS, SESSION_COMMAND_FALLBACK));
}

#[test]
fn session_command_is_absolute_where_the_session_is_installed() {
    let command = session_command();
    assert!(command.starts_with('/') || command == SESSION_COMMAND_FALLBACK, "{command}");
}

#[test]
fn the_first_installed_candidate_is_chosen_else_the_fallback() {
    assert_eq!(pick_installed(&["/a", "/b"], &[true, true], "f"), "/a");
    assert_eq!(pick_installed(&["/a", "/b"], &[false, true], "f"), "/b");
    assert_eq!(pick_installed(&["/a"], &[false], "f"), "f");
}

#[test]
fn a_person_is_greeted_not_the_greeters_account() {
    assert!(is_system_account(Some(PASSWD), "greeter"));
    assert!(is_system_account(Some(PASSWD), "nobody-here"));
    assert!(!is_system_account(Some(PASSWD), "ada"));
    assert!(is_system_account(None, "ada"));
    assert_eq!(target_user(Some("greeter"), None, Some(PASSWD)), "ada");
    assert_eq!(target_user(Some("bob"), None, Some(PASSWD)), "bob");
    assert_eq!(target_user(None, Some("carol"), Some(PASSWD)), "carol");
    assert_eq!(target_user(Some(""), None, None), "athanor");
    let info = discover_target_user(Some("greeter"), None, Some(PASSWD));
    assert_eq!((info.username.as_str(), info.real_name.as_str()), ("ada", "Ada Lovelace"));
    let bob = discover_target_user(Some("bob"), None, Some(PASSWD));
    assert_eq!(bob.real_name, "Bob");
}

#[test]
fn the_first_letter_is_capitalised() {
    assert_eq!(capitalize_first("ada"), "Ada");
    assert_eq!(capitalize_first(""), "");
    assert_eq!(capitalize_first("élan"), "Élan");
}

#[test]
fn the_conversation_answers_each_question() {
    let finger = Reply::AuthMessage { kind: AuthKind::Visible, message: "Place your Finger on the reader".into() };
    assert_eq!(step(0, &finger), Step::Respond { status: "Place your Finger on the reader".into(), answer: Answer::Nothing });
    let password = Reply::AuthMessage { kind: AuthKind::Secret, message: "Password:".into() };
    assert!(matches!(step(1, &password), Step::Respond { answer: Answer::Password, .. }));
    assert_eq!(step(2, &Reply::Success), Step::Start);
    assert_eq!(step(3, &Reply::Error { description: "no".into() }), Step::Done(Err("no".into())));
    assert!(matches!(step(MAX_TURNS, &password), Step::Done(Err(_))));
    assert_eq!(started(&Reply::Success), Ok(()));
    assert!(started(&finger).is_err());
    assert!(reply_fits(MAX_REPLY_BYTES) && !reply_fits(MAX_REPLY_BYTES + 1));
}
