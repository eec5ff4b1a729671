//! What `Notify` makes of its arguments: every text made safe, the actions checked, the
//! picture chosen in the specification's order (image-data, image-path, app_icon).

use vstd::prelude::*;
use vstd::utf8::encode_utf8;

use crate::chars::chars_of;
use crate::shelld::hints::{opt_chars, opt_image_view, Hints, HintsView};
use crate::shelld::icon::{parse, parse_spec};
use crate::shelld::store::{
    actions_view, timeout_ms, timeout_spec, Content, ContentView, Urgency, Visual, VisualView,
};
use crate::shelld::text::{
    cap, hidden, is_hidden, lemma_cap_step, line, line_spec, lines, lines_spec, BODY_CHARS,
    NAME_CHARS, SUMMARY_CHARS,
};

verus! {

pub const MAX_ACTIONS: usize = 8;

pub const ACTION_KEY_BYTES: usize = 64;

pub const TOKEN_CHARS: usize = 256;

/// The strings of `actions` the bus decoder keeps: a whole pair per key and label.
pub const ACTION_STRINGS: usize = 16;

/// A key returns to the application unchanged, so a bad one is refused, not cleaned: it is
/// not empty, at most `ACTION_KEY_BYTES` long and holds no hidden character.
pub open spec fn action_key_ok(key: Seq<char>) -> bool {
    &&& key.len() > 0
    &&& encode_utf8(key).len() <= ACTION_KEY_BYTES
    &&& forall|i: int| 0 <= i < key.len() ==> !hidden(#[trigger] key[i])
}

pub fn is_action_key(key: &str) -> (r: bool)
    ensures
        r == action_key_ok(key@),
{
    let v = chars_of(key);
    if v.len() == 0 || key.as_bytes().len() > ACTION_KEY_BYTES {
        return false;
    }
    let mut i: usize = 0;
    while i < v.len()
        invariant
            v@ == key@,
            i <= v@.len(),
            forall|j: int| 0 <= j < i ==> !hidden(#[trigger] v@[j]),
        decreases v.len() - i,
    {
        if is_hidden(v[i]) {
            return false;
        }
        i = i + 1;
    }
    true
}

/// `actions` read as (key, label) pairs; an odd last string has no label and is dropped.
pub open spec fn action_pairs(actions: Seq<Seq<char>>) -> Seq<(Seq<char>, Seq<char>)> {
    Seq::new(actions.len() / 2, |k: int| (actions[2 * k], actions[2 * k + 1]))
}

/// The pairs whose key is good, at most `MAX_ACTIONS` of them, each label made one line.
pub open spec fn actions_spec(actions: Seq<Seq<char>>) -> Seq<(Seq<char>, Seq<char>)> {
    cap(action_pairs(actions).filter(|p: (Seq<char>, Seq<char>)| action_key_ok(p.0)), MAX_ACTIONS as nat)
        .map_values(|p: (Seq<char>, Seq<char>)| (p.0, line_spec(p.1, NAME_CHARS as nat)))
}

/// The characters of each string.
pub open spec fn strs_view(actions: Seq<&str>) -> Seq<Seq<char>> {
    actions.map_values(|s: &str| s@)
}

/// The picture: the image, else the image path, else `app_icon` when it names one.
pub open spec fn visual_spec(app_icon: Seq<char>, hints: HintsView) -> VisualView {
    match hints.image {
        Some(image) => VisualView::Pixels(image),
        None => match hints.image_path {
            Some(icon) => VisualView::Icon(icon),
            None => match parse_spec(app_icon) {
                Some(icon) => VisualView::Icon(icon),
                None => VisualView::Blank,
            },
        },
    }
}

/// What `Notify` keeps of its arguments.
pub open spec fn content_spec(
    app_name: Seq<char>,
    app_icon: Seq<char>,
    summary: Seq<char>,
    body: Seq<char>,
    actions: Seq<Seq<char>>,
    hints: HintsView,
    expire_timeout: i32,
) -> ContentView {
    let urgency = match hints.urgency {
        Some(0u8) => Urgency::Low,
        Some(2u8) => Urgency::Critical,
        _ => Urgency::Normal,
    };
    ContentView {
        app_name: line_spec(app_name, NAME_CHARS as nat),
        summary: line_spec(summary, SUMMARY_CHARS as nat),
        body: lines_spec(body, BODY_CHARS as nat),
        actions: actions_spec(actions),
        urgency,
        transient: hints.transient,
        resident: hints.resident,
        desktop_entry: hints.desktop_entry,
        visual: visual_spec(app_icon, hints),
        timeout_ms: timeout_spec(expire_timeout, urgency),
    }
}

proof fn lemma_actions_view_push(actions: Seq<(String, String)>, pair: (String, String))
    ensures
        actions_view(actions.push(pair)) == actions_view(actions).push((pair.0@, pair.1@)),
{
    assert(actions_view(actions.push(pair)) =~= actions_view(actions).push((pair.0@, pair.1@)));
}

/// The pairs of `actions` with a good key, at most `MAX_ACTIONS`, labels made one line.
fn checked_actions(actions: &[&str]) -> (r: Vec<(String, String)>)
    ensures
        actions_view(r@) == actions_spec(strs_view(actions@)),
{
    let ghost all = action_pairs(strs_view(actions@));
    let ghost good = |p: (Seq<char>, Seq<char>)| action_key_ok(p.0);
    let ghost shown = |p: (Seq<char>, Seq<char>)| (p.0, line_spec(p.1, NAME_CHARS as nat));
    let mut r: Vec<(String, String)> = Vec::new();
    let pairs = actions.len() / 2;
    let mut k: usize = 0;
    while k < pairs
        invariant
            pairs == actions@.len() / 2,
            all == action_pairs(strs_view(actions@)),
            good == (|p: (Seq<char>, Seq<char>)| action_key_ok(p.0)),
            shown == (|p: (Seq<char>, Seq<char>)| (p.0, line_spec(p.1, NAME_CHARS as nat))),
            k <= pairs,
            r@.len() <= MAX_ACTIONS,
            actions_view(r@) == cap(all.take(k as int).filter(good), MAX_ACTIONS as nat).map_values(
                shown,
            ),
        decreases pairs - k,
    {
        let ghost prefix = all.take(k as int);
        let len = actions.len();
        assert(2 * k + 1 < len) by (nonlinear_arith)
            requires
                k < pairs,
                pairs == len / 2,
        ;
        let ghost before = r@;
        let ghost capped = cap(prefix.filter(good), MAX_ACTIONS as nat);
        assert(all[k as int] == (actions@[2 * k as int]@, actions@[2 * k as int + 1]@));
        proof {
            assert(all.take(k as int + 1) == prefix.push(all[k as int]));
            prefix.lemma_filter_push(all[k as int], good);
            lemma_cap_step(prefix.filter(good), true, all[k as int], MAX_ACTIONS as nat);
            assert(capped.map_values(shown).len() == capped.len());
        }
        let at: usize = k + k;
        let key = actions[at];
        let label = actions[at + 1];
        if is_action_key(key) && r.len() < MAX_ACTIONS {
            let pair = (key.to_owned(), line(label, NAME_CHARS));
            r.push(pair);
            proof {
                lemma_actions_view_push(before, pair);
                assert(capped.push(all[k as int]).map_values(shown) =~= capped.map_values(
                    shown,
                ).push(shown(all[k as int])));
            }
        }
        k = k + 1;
    }
    assert(all.take(pairs as int) == all);
    r
}

/// The arguments of `Notify`, made safe. The picture is, in the specification's order:
/// image-data, image-path, app_icon.
pub fn content(
    app_name: &str,
    app_icon: &str,
    summary: &str,
    body: &str,
    actions: &[&str],
    hints: Hints,
    expire_timeout: i32,
) -> (c: Content)
    ensures
        c@ == content_spec(
            app_name@,
            app_icon@,
            summary@,
            body@,
            strs_view(actions@),
            hints@,
            expire_timeout,
        ),
{
    let urgency = Urgency::from_hint(hints.urgency);
    let visual = match hints.image {
        Some(image) => Visual::Pixels(image),
        None => match hints.image_path {
            Some(named) => Visual::Icon(named),
            None => match parse(app_icon) {
                Some(named) => Visual::Icon(named),
                None => Visual::Blank,
            },
        },
    };
    Content {
        app_name: line(app_name, NAME_CHARS),
        summary: line(summary, SUMMARY_CHARS),
        body: lines(body, BODY_CHARS),
        actions: checked_actions(actions),
        urgency,
        transient: hints.transient,
        resident: hints.resident,
        desktop_entry: hints.desktop_entry,
        visual,
        timeout_ms: timeout_ms(expire_timeout, urgency),
    }
}

} // verus!
