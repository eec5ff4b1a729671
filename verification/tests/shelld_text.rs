use athanor::shelld::icon::{parse, Icon};
use athanor::shelld::sender::{admits_path, BAR_UNIT};
use athanor::shelld::text;
use athanor::shelld::text::SUMMARY_CHARS;

#[test]
fn names_and_local_files_are_accepted() {
    assert_eq!(parse("dialog-information"), Some(Icon::Name("dialog-information".into())));
    assert_eq!(parse("org.gnome.Nautilus"), Some(Icon::Name("org.gnome.Nautilus".into())));
    assert_eq!(parse("/usr/share/icons/a.png"), Some(Icon::File("/usr/share/icons/a.png".into())));
    assert_eq!(parse("file:///home/u/My%20Pic.png"), Some(Icon::File("/home/u/My Pic.png".into())));
}

#[test]
fn remote_relative_and_malformed_values_are_refused() {
    for value in [
        "",
        "https://evil.example/x.png",
        "file://evil.example/x.png",
        "../x",
        "a/b",
        "/a/../etc/shadow",
        "file:///a%2",
        "file:///a%ZZ",
        "file:///a%0A",
        ".hidden",
    ] {
        assert_eq!(parse(value), None, "{value:?}");
    }
}

#[test]
fn a_line_loses_controls_bidi_and_newlines() {
    assert_eq!(text::line("a\u{202E}b\nc\td\u{0007}e\u{0085}", 64), "abcde");
}

#[test]
fn lines_keep_newlines_and_drop_carriage_returns() {
    assert_eq!(text::lines("one\r\ntwo\u{2066}\u{0000}", 64), "one\ntwo");
}

#[test]
fn markup_is_kept_as_written() {
    assert_eq!(text::lines("<b>bold</b> &amp;", 64), "<b>bold</b> &amp;");
}

#[test]
fn truncation_counts_characters_not_bytes() {
    let cut = text::line(&"é".repeat(300), SUMMARY_CHARS);
    assert_eq!(cut.chars().count(), SUMMARY_CHARS);
}

#[test]
fn a_delegated_or_malformed_path_is_refused_even_when_it_ends_in_the_bar_unit() {
    for (label, cgroup) in [
        (
            "nested under a .service ancestor",
            "0::/user.slice/user-1000.slice/user@1000.service/app.slice/app-foo.service/athanor-bar.service\n",
        ),
        (
            "nested under a .scope ancestor",
            "0::/user.slice/user-1000.slice/user@1000.service/app.slice/some.scope/athanor-bar.service\n",
        ),
        (
            "a trailing space",
            "0::/user.slice/user-1000.slice/user@1000.service/app.slice/athanor-bar.service \n",
        ),
        (
            "a sibling unit with a suffix",
            "0::/user.slice/user-1000.slice/user@1000.service/app.slice/athanor-bar.service.d\n",
        ),
        ("a relative path", "0::athanor-bar.service\n"),
    ] {
        assert!(!admits_path(cgroup, BAR_UNIT), "{label}");
    }
}

#[test]
fn the_bar_unit_itself_is_admitted() {
    let bar = "0::/user.slice/user-1000.slice/user@1000.service/app.slice/athanor-bar.service\n";
    assert!(admits_path(bar, BAR_UNIT));
    let child = "0::/user.slice/user-1000.slice/user@1000.service/app.slice/athanor-bar.service/sub\n";
    assert!(!admits_path(child, BAR_UNIT), "a child cgroup");
    let launched = "0::/user.slice/user-1000.slice/user@1000.service/app.slice/app-athanor-foo@0123.service\n";
    assert!(!admits_path(launched, BAR_UNIT), "an application the bar launched");
}

#[test]
fn a_line_keeps_at_most_its_characters_and_lines_keep_tabs_out() {
    assert_eq!(text::line("abcdef", 3), "abc");
    assert_eq!(text::lines("a\tb\nc", 64), "ab\nc");
    assert_eq!(text::line("", 10), "");
}

#[test]
fn a_file_uri_decodes_to_utf8_text_or_is_refused() {
    assert_eq!(parse("file:///tmp/caf%C3%A9.png"), Some(Icon::File("/tmp/café.png".into())));
    assert_eq!(parse("file:///tmp/%41%62c"), Some(Icon::File("/tmp/Abc".into())));
    assert_eq!(parse("file:///tmp/a%FF.png"), None);
    assert_eq!(parse("file:///tmp/a%C3"), None);
}
