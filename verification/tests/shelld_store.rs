use athanor::shelld::hints::{Hints, HintsReader};
use athanor::shelld::icon::Icon;
use athanor::shelld::image::{Image, Raw};
use athanor::shelld::notifications::{content, is_action_key, ACTION_KEY_BYTES};
use athanor::shelld::store::{
    popup_ms_left, timeout_ms, Content, Notification, Reason, Store, Urgency, Visual, CAPACITY,
    DEFAULT_TIMEOUT_MS,
};
use athanor::shelld::wire::WireNotification;

fn body(summary: &str, urgency: Urgency, timeout_ms: u32) -> Content {
    Content {
        app_name: "test".into(),
        summary: summary.into(),
        body: String::new(),
        actions: Vec::new(),
        urgency,
        transient: false,
        resident: false,
        desktop_entry: None,
        visual: Visual::Blank,
        timeout_ms,
    }
}

#[test]
fn ids_start_at_one_and_a_replace_keeps_the_id_and_moves_it_last() {
    let mut store = Store::new(false);
    let first = store.notify(body("a", Urgency::Normal, 5000), 0, 0).notification.id;
    let second = store.notify(body("b", Urgency::Normal, 5000), 0, 0).notification.id;
    assert_eq!((first, second), (1, 2));
    let again = store.notify(body("a2", Urgency::Normal, 5000), first, 10);
    assert!(again.replaced);
    assert_eq!(again.notification.id, first);
    assert_eq!(store.iter().map(|n| n.id).collect::<Vec<_>>(), [2, 1]);
    let unknown = store.notify(body("c", Urgency::Normal, 5000), 999, 0);
    assert!(!unknown.replaced);
    assert_eq!(unknown.notification.id, 3);
}

#[test]
fn the_hundred_and_first_pushes_out_the_oldest() {
    let mut store = Store::new(false);
    for n in 0..CAPACITY {
        assert!(store.notify(body(&n.to_string(), Urgency::Low, 1), 0, 0).evicted.is_empty());
    }
    let outcome = store.notify(body("new", Urgency::Low, 1), 0, 0);
    assert_eq!(outcome.evicted, [1]);
    assert_eq!(store.iter().count(), CAPACITY);
}

#[test]
fn ids_wrap_past_zero_and_skip_ids_still_held() {
    let mut store = Store::new(false);
    store.last_id = u32::MAX - 1;
    let held = store.notify(body("x", Urgency::Low, 1), 0, 0).notification.id;
    assert_eq!(held, u32::MAX);
    store.last_id = u32::MAX - 1;
    assert_eq!(store.notify(body("y", Urgency::Low, 1), 0, 0).notification.id, 1, "skips MAX (held) and 0");
}

#[test]
fn timeouts_follow_the_specification_and_critical_waits() {
    assert_eq!(timeout_ms(-1, Urgency::Normal), DEFAULT_TIMEOUT_MS);
    assert_eq!(timeout_ms(0, Urgency::Normal), 0);
    assert_eq!(timeout_ms(1200, Urgency::Low), 1200);
    assert_eq!(timeout_ms(1200, Urgency::Critical), 0);
}

#[test]
fn popup_time_survives_a_bar_restart_only_within_the_timeout() {
    let at = |arrived_ms, urgency, timeout_ms| Notification { id: 1, arrived_ms, content: body("x", urgency, timeout_ms) };
    assert_eq!(popup_ms_left(&at(1000, Urgency::Normal, 5000), 3000, false), 3000, "sent while no bar ran");
    assert_eq!(popup_ms_left(&at(1000, Urgency::Normal, 5000), 9000, false), 0, "old: list only");
    assert_eq!(popup_ms_left(&at(0, Urgency::Normal, 0), 99_000, false), u32::MAX, "expire timeout 0");
    assert_eq!(popup_ms_left(&at(0, Urgency::Critical, 0), 99_000, true), u32::MAX, "critical under DND");
    assert_eq!(popup_ms_left(&at(1000, Urgency::Normal, 5000), 1000, true), 0, "DND ends the popup");
    assert_eq!(popup_ms_left(&at(0, Urgency::Normal, 0), 0, true), 0, "DND ends a sticky popup too");
}

#[test]
fn a_closed_notification_is_gone_and_a_second_close_finds_nothing() {
    let mut store = Store::new(true);
    let id = store.notify(body("a", Urgency::Normal, 5000), 0, 0).notification.id;
    assert!(store.close(id).is_some());
    assert!(store.get(id).is_none());
    assert!(store.close(id).is_none());
    assert!(store.dnd());
    store.set_dnd(false);
    assert!(!store.dnd());
    assert_eq!(Reason::Closed.number(), 3);
    assert_eq!(Reason::Expired.number(), 1);
    assert_eq!(Reason::Dismissed.number(), 2);
}

#[test]
fn urgency_hints_map_to_the_three_levels() {
    assert_eq!(Urgency::from_hint(Some(0)), Urgency::Low);
    assert_eq!(Urgency::from_hint(Some(2)), Urgency::Critical);
    assert_eq!(Urgency::from_hint(Some(7)), Urgency::Normal);
    assert_eq!(Urgency::from_hint(None), Urgency::Normal);
    assert_eq!(Urgency::Critical.byte(), 2);
}

#[test]
fn bad_action_keys_are_dropped_and_labels_cleaned() {
    let long = "k".repeat(ACTION_KEY_BYTES + 1);
    let actions = ["default", "Open", "bad\u{202E}", "x", long.as_str(), "y", "ok", "La\u{0007}bel", "odd"];
    let made = content("app", "", "s", "b", &actions, Hints::default(), -1);
    assert_eq!(made.actions, [("default".into(), "Open".into()), ("ok".into(), "Label".into())]);
}

#[test]
fn the_picture_follows_the_specification_order() {
    let hints = Hints { image_path: Some(Icon::Name("from-hint".into())), ..Hints::default() };
    assert_eq!(content("a", "app-icon", "s", "b", &[], hints, -1).visual, Visual::Icon(Icon::Name("from-hint".into())));
    assert_eq!(content("a", "app-icon", "s", "b", &[], Hints::default(), -1).visual, Visual::Icon(Icon::Name("app-icon".into())));
    assert_eq!(content("a", "https://x/y.png", "s", "b", &[], Hints::default(), -1).visual, Visual::Blank);
}

#[test]
fn at_most_eight_actions_are_kept_and_an_odd_key_is_dropped() {
    let many: Vec<String> = (0..40).map(|n| if n % 2 == 0 { format!("k{n}") } else { "v".to_owned() }).collect();
    let refs: Vec<&str> = many.iter().map(String::as_str).collect();
    let made = content("app", "", "s", "b", &refs, Hints::default(), -1);
    assert_eq!(made.actions.len(), 8);
    assert_eq!(made.actions[0], ("k0".into(), "v".into()));
    assert!(!is_action_key(""));
    assert!(is_action_key("default"));
}

#[test]
fn the_image_hint_of_the_newest_name_wins_and_a_bad_one_falls_back() {
    let good = [0u8; 14];
    let bad = [0u8; 13];
    let mut reader = HintsReader::new();
    reader.image(2, Some(&Raw { width: 1, height: 1, rowstride: 3, has_alpha: false, bits_per_sample: 8, channels: 3, data: &good[..3] }));
    reader.image(0, Some(&Raw { width: 2, height: 2, rowstride: 8, has_alpha: false, bits_per_sample: 8, channels: 3, data: &bad }));
    reader.image(1, Some(&Raw { width: 2, height: 2, rowstride: 8, has_alpha: false, bits_per_sample: 8, channels: 3, data: &good }));
    reader.image_path(1, Some("file:///a.png"));
    reader.image_path(0, Some("https://x"));
    reader.desktop_entry(Some("../evil"));
    reader.urgency(Some(2));
    reader.transient(Some(true));
    let hints = reader.finish();
    assert_eq!(hints.image.map(|i| i.width), Some(2), "image_data, since image-data was refused");
    assert_eq!(hints.image_path, Some(Icon::File("/a.png".into())));
    assert_eq!(hints.desktop_entry, None);
    assert_eq!(hints.urgency, Some(2));
    assert!(hints.transient && !hints.resident);
}

#[test]
fn pixels_and_names_land_in_their_own_fields() {
    let mut content = body("x", Urgency::Critical, 0);
    content.visual = Visual::Pixels(Image { width: 1, height: 1, rgba: vec![1, 2, 3, 4] });
    let wire = WireNotification::new(&Notification { id: 7, arrived_ms: 0, content }, 0, true);
    assert_eq!((wire.id, wire.urgency, wire.image_width, wire.image_rgba.len()), (7, 2, 1, 4));
    assert_eq!((wire.icon_name.as_str(), wire.popup_ms_left), ("", u32::MAX));
}

#[test]
fn a_named_icon_lands_in_the_name_field() {
    let mut content = body("x", Urgency::Normal, 5000);
    content.visual = Visual::Icon(Icon::File("/a.png".into()));
    content.desktop_entry = Some("org.gnome.Nautilus".into());
    let wire = WireNotification::new(&Notification { id: 3, arrived_ms: 1000, content }, 2000, false);
    assert_eq!((wire.icon_name.as_str(), wire.icon_file.as_str()), ("", "/a.png"));
    assert_eq!((wire.desktop_entry.as_str(), wire.popup_ms_left, wire.image_width), ("org.gnome.Nautilus", 4000, 0));
}

/// The fields of the notification the bar decodes, in the order they travel.
fn fields(
    w: WireNotification,
) -> (u32, String, String, String, Vec<(String, String)>, u8, bool, bool, String, String, String, u32, u32, Vec<u8>, u32, u32) {
    (
        w.id,
        w.app_name,
        w.summary,
        w.body,
        w.actions,
        w.urgency,
        w.transient,
        w.resident,
        w.desktop_entry,
        w.icon_name,
        w.icon_file,
        w.image_width,
        w.image_height,
        w.image_rgba,
        w.timeout_ms,
        w.popup_ms_left,
    )
}

#[test]
fn the_signature_is_the_one_the_bar_decodes() {
    let wire = WireNotification::new(&Notification { id: 1, arrived_ms: 0, content: body("x", Urgency::Normal, 0) }, 0, false);
    let travelling = fields(wire);
    assert_eq!(zvariant::DynamicType::signature(&travelling).to_string(), "(usssa(ss)ybbsssuuayuu)");
}
