use athanor::shelld::server::dirs;
use athanor::shelld::watcher::{item, Added, Registry, MAX_ITEMS};

#[test]
fn both_registration_forms_name_the_item_as_the_specification_announces_it() {
    assert_eq!(
        item("org.kde.StatusNotifierItem-5-1", ":1.9"),
        Some(("org.kde.StatusNotifierItem-5-1/StatusNotifierItem".into(), "org.kde.StatusNotifierItem-5-1".into()))
    );
    assert_eq!(
        item("/org/ayatana/NotificationItem/nm", ":1.9"),
        Some((":1.9/org/ayatana/NotificationItem/nm".into(), ":1.9".into()))
    );
    assert_eq!(item("not a name", ":1.9"), None);
    assert_eq!(item("/bad//path", ":1.9"), None);
}

#[test]
fn duplicates_are_known_the_cap_holds_and_owners_take_their_items() {
    let mut registry = Registry::default();
    assert_eq!(registry.add_item("a/StatusNotifierItem".into(), "a".into()), Added::New);
    assert_eq!(registry.add_item("a/StatusNotifierItem".into(), "a".into()), Added::Known);
    for n in 1..MAX_ITEMS {
        assert_eq!(registry.add_item(format!(":1.9/i{n}"), ":1.9".into()), Added::New);
    }
    assert_eq!(registry.add_item(":1.9/one-too-many".into(), ":1.9".into()), Added::Full);
    let lost = registry.name_lost(":1.9");
    assert_eq!(lost.items.len(), MAX_ITEMS - 1);
    assert_eq!(registry.items(), ["a/StatusNotifierItem"]);
}

#[test]
fn the_last_host_leaving_is_reported_once() {
    let mut registry = Registry::default();
    assert!(registry.add_host("h1".into()));
    assert!(!registry.add_host("h2".into()));
    assert!(!registry.name_lost("h1").last_host_gone);
    assert!(registry.name_lost("h2").last_host_gone);
    assert!(!registry.name_lost("h2").last_host_gone);
    assert!(!registry.has_host());
}

#[test]
fn the_daemon_keeps_its_switch_in_the_state_home_and_its_record_at_runtime() {
    assert_eq!(
        dirs(None, Some("/home/u"), None, Some("/run/user/1000")),
        Some(("/home/u/.local/state/athanor/shelld".into(), "/run/user/1000/athanor-shelld/failures".into()))
    );
    assert_eq!(
        dirs(Some("/s"), None, Some("/r"), None),
        Some(("/s/athanor/shelld".into(), "/r/failures".into()))
    );
    assert_eq!(dirs(Some("rel"), None, Some("/r"), None), None);
    assert_eq!(dirs(None, None, Some("/r"), None), None);
}

#[test]
fn paths_and_names_follow_the_bus_rules() {
    assert!(item("/org/ayatana/NotificationItem/x", ":1.9").is_some());
    assert!(item("/a//b", ":1.9").is_none());
    assert!(item("/a/", ":1.9").is_none());
    assert!(item("org.kde.x-1", ":1.9").is_some());
    assert!(item("9org.kde", ":1.9").is_none());
    assert!(item("org", ":1.9").is_none());
    assert!(item(":1.42", ":1.9").is_some());
}
