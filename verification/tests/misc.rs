use athanor::chooser::{grants, Access};
use athanor::i18n::{is_rtl, replace, tr, tr_with};
use athanor::shelld::dnd::{save, switch_path, Save, ON_CONTENTS};
use athanor::journal::{priority, Level};
use athanor::shell::writable_paths;

#[test]
fn without_a_catalog_the_message_id_is_the_text() {
    assert_eq!(tr("Shut down"), "Shut down");
    assert!(!is_rtl());
}

#[test]
fn the_placeholder_is_replaced_and_nothing_else() {
    assert_eq!(tr_with("Password for {name}", "name", "Ada {x}"), "Password for Ada {x}");
}

#[test]
fn every_occurrence_is_replaced_left_to_right() {
    assert_eq!(replace("aaa", "aa", "b"), "ba");
    assert_eq!(tr_with("{n} and {n}", "n", "x"), "x and x");
    assert_eq!(tr_with("{name", "name", "x"), "{name");
}

#[test]
fn levels_map_to_syslog_priorities() {
    assert_eq!(priority(Level::Error), 3);
    assert_eq!(priority(Level::Warn), 4);
    assert_eq!(priority(Level::Info), 6);
    assert_eq!(priority(Level::Debug), 7);
    assert_eq!(priority(Level::Trace), 7);
}

#[test]
fn writable_set_follows_the_xdg_variables() {
    let paths = writable_paths(Some("/var/home/tester"), Some("/var/home/tester/.config"), None, Some("/run/user/1000"));
    assert!(paths.contains(&"/tmp".to_string()));
    assert!(paths.contains(&"/var/home/tester/.config/athanor".to_string()));
    assert!(paths.contains(&"/var/home/tester/.local/state/athanor".to_string()));
    assert!(paths.contains(&"/run/user/1000".to_string()));
    assert_eq!(paths.len(), 4);
}

#[test]
fn a_relative_directory_is_not_granted() {
    let paths = writable_paths(None, Some("relative"), None, Some(""));
    assert_eq!(paths, ["/tmp"]);
}

#[test]
fn the_chooser_writes_its_document_directory_the_cache_and_the_runtime_directory() {
    let granted = grants("/home/u/dotfiles", None, Some("/home/u"), Some("/run/user/1000"));
    assert_eq!(
        granted,
        [
            ("/home/u/dotfiles".to_owned(), Access::Write),
            ("/tmp".to_owned(), Access::Write),
            ("/home/u/.cache".to_owned(), Access::Write),
            ("/run/user/1000".to_owned(), Access::Write),
            ("/dev/dri".to_owned(), Access::WriteFile),
        ]
    );
    let relative = grants("/home/u/dotfiles", Some("cache"), Some(""), Some("run"));
    assert_eq!(relative, [("/home/u/dotfiles".to_owned(), Access::Write), ("/tmp".to_owned(), Access::Write), ("/dev/dri".to_owned(), Access::WriteFile)]);
    assert_eq!(grants("/d", Some("/x/cache"), Some("/home/u"), None)[2], ("/x/cache".to_owned(), Access::Write));
}

#[test]
fn the_do_not_disturb_switch_is_a_file_present_when_on() {
    assert_eq!(switch_path("/home/u/.local/state/athanor/shelld"), "/home/u/.local/state/athanor/shelld/do-not-disturb");
    assert!(matches!(save("/s", true), Save::Write(path) if path == "/s/do-not-disturb"));
    assert!(matches!(save("/s", false), Save::Remove(path) if path == "/s/do-not-disturb"));
    assert_eq!(ON_CONTENTS, "on\n");
}
