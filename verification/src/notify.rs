//! `athanor-update-notify`: what to tell the user, and which `ActionInvoked` signals to
//! believe. No bus here: the caller sends what this module decides.

use std::collections::HashMap;

use vstd::prelude::*;

use crate::chars::{chars_of, push_str, starts_with, string_views};
use crate::i18n::{replace, replace_spec};
use crate::update::state::{Deployment, UpdateState};

verus! {

broadcast use vstd::std_specs::hash::group_hash_axioms;

#[derive(Debug, Clone, PartialEq, Eq)]
pub enum Notice {
    /// A downloaded digest waits for a restart.
    Ready { digest: String },
    /// A new deployment booted for the first time, and there is a way back.
    Running { digest: String, version: String, build_time: i64 },
}

#[derive(Debug, Clone, Copy, PartialEq, Eq, Structural)]
pub enum Request {
    Apply,
    GoBack,
}

pub const ACTION_APPLY: &'static str = "apply";

pub const ACTION_LATER: &'static str = "later";

pub const ACTION_GO_BACK: &'static str = "go-back";

/// What the notifier reads of the published state.
#[derive(Debug, Clone, PartialEq, Eq)]
pub struct Published {
    pub booted: Deployment,
    pub downloaded: Option<Deployment>,
    pub previous: Option<Deployment>,
    pub update: UpdateState,
}

/// A notification this process sent and still answers for.
#[derive(Debug, Clone, PartialEq, Eq)]
pub struct Sent {
    /// The unique name that owned `org.freedesktop.Notifications` when it was sent.
    pub server: String,
    pub notice: Notice,
}

/// The notices of one session.
#[derive(Debug)]
pub struct Notices {
    /// What was offered since this process started: one notice per digest and per session.
    offered: Vec<String>,
    pub sent: HashMap<u32, Sent>,
}

/// The key under which the notice of a new deployment is remembered.
pub open spec fn running_key(digest: Seq<char>) -> Seq<char> {
    "running "@ + digest
}

/// A notice as values.
pub enum NoticeView {
    Ready { digest: Seq<char> },
    Running { digest: Seq<char>, version: Seq<char>, build_time: i64 },
}

impl View for Notice {
    type V = NoticeView;

    open spec fn view(&self) -> NoticeView {
        match self {
            Notice::Ready { digest } => NoticeView::Ready { digest: digest@ },
            Notice::Running { digest, version, build_time } => NoticeView::Running {
                digest: digest@,
                version: version@,
                build_time: *build_time,
            },
        }
    }
}

/// The notice `state` calls for, given what was offered already and the digest the last
/// run recorded (`None` on this user's first session, which is not greeted with "the
/// system was updated"). A new deployment is announced first; then a downloaded update.
pub open spec fn due_spec(offered: Set<Seq<char>>, state: Published, seen: Option<Seq<char>>) -> Option<NoticeView> {
    if seen matches Some(s) && s != state.booted.digest@ && state.previous is Some && !offered.contains(
        running_key(state.booted.digest@),
    ) {
        Some(
            NoticeView::Running {
                digest: state.booted.digest@,
                version: state.booted.version@,
                build_time: state.booted.build_time,
            },
        )
    } else {
        match state.downloaded {
            Some(d) => if state.update == UpdateState::Downloaded && !offered.contains(d.digest@) {
                Some(NoticeView::Ready { digest: d.digest@ })
            } else {
                None
            },
            None => None,
        }
    }
}

/// What is remembered as offered once `due` has answered.
pub open spec fn offered_after(offered: Set<Seq<char>>, state: Published, seen: Option<Seq<char>>) -> Set<Seq<char>> {
    match due_spec(offered, state, seen) {
        Some(NoticeView::Running { digest, .. }) => offered.insert(running_key(digest)),
        Some(NoticeView::Ready { digest }) => offered.insert(digest),
        None => offered,
    }
}

/// The request an action stands for on the notification it came for.
pub open spec fn request_of(notice: NoticeView, action: Seq<char>) -> Option<Request> {
    match notice {
        NoticeView::Ready { .. } => if action == ACTION_APPLY@ {
            Some(Request::Apply)
        } else {
            None
        },
        NoticeView::Running { .. } => if action == ACTION_GO_BACK@ {
            Some(Request::GoBack)
        } else {
            None
        },
    }
}

impl Default for Notices {
    fn default() -> (n: Notices)
        ensures
            n.offered() == Set::<Seq<char>>::empty(),
            n.sent_map() == Map::<u32, Sent>::empty(),
    {
        Notices::new()
    }
}

impl Notices {
    /// The notifications this process answers for, by id.
    pub closed spec fn sent_map(&self) -> Map<u32, Sent> {
        self.sent@
    }

    /// What was offered since this process started.
    pub closed spec fn offered(&self) -> Set<Seq<char>> {
        string_views(self.offered@).to_set()
    }

    /// Nothing offered, nothing sent.
    pub fn new() -> (n: Notices)
        ensures
            n.offered() == Set::<Seq<char>>::empty(),
            n.sent_map() == Map::<u32, Sent>::empty(),
    {
        let n = Notices { offered: Vec::new(), sent: HashMap::new() };
        assert(n.offered() =~= Set::<Seq<char>>::empty());
        n
    }

    fn was_offered(&self, key: &String) -> (r: bool)
        ensures
            r == self.offered().contains(key@),
    {
        let ghost all = string_views(self.offered@);
        let mut i: usize = 0;
        while i < self.offered.len()
            invariant
                i <= self.offered@.len(),
                all == string_views(self.offered@),
                forall|j: int| 0 <= j < i ==> all[j] != key@,
            decreases self.offered.len() - i,
        {
            assert(all[i as int] == self.offered@[i as int]@);
            if self.offered[i].eq(key) {
                assert(all.contains(key@));
                return true;
            }
            i = i + 1;
        }
        assert(!all.contains(key@));
        false
    }

    fn offer(&mut self, key: String)
        ensures
            final(self).offered() == old(self).offered().insert(key@),
            final(self).sent_map() == old(self).sent_map(),
    {
        let ghost before = self.offered@;
        let ghost k = key@;
        self.offered.push(key);
        proof {
            assert(string_views(self.offered@) =~= string_views(before).push(k));
            let b = string_views(before);
            assert(b.push(k) =~= b + seq![k]);
            Seq::lemma_to_set_insert_commutes(b, k);
        }
    }

    /// The notice `state` calls for, if any, remembered so it is not offered twice in this
    /// session.
    pub fn due(&mut self, state: &Published, seen_booted: Option<&str>) -> (n: Option<Notice>)
        ensures
            ({
                let seen = match seen_booted {
                    Some(s) => Some(s@),
                    None => None,
                };
                &&& match n {
                    Some(x) => due_spec(old(self).offered(), *state, seen) == Some(x@),
                    None => due_spec(old(self).offered(), *state, seen) is None,
                }
                &&& final(self).offered() == offered_after(old(self).offered(), *state, seen)
                &&& final(self).sent_map() == old(self).sent_map()
            }),
    {
        let new_boot = match seen_booted {
            Some(seen) => !seen.to_owned().eq(&state.booted.digest),
            None => false,
        };
        if new_boot && state.previous.is_some() {
            let mut key = "running ".to_owned();
            push_str(&mut key, state.booted.digest.as_str());
            if !self.was_offered(&key) {
                self.offer(key);
                return Some(
                    Notice::Running {
                        digest: state.booted.digest.clone(),
                        version: state.booted.version.clone(),
                        build_time: state.booted.build_time,
                    },
                );
            }
        }
        match &state.downloaded {
            Some(d) => {
                if state.update == UpdateState::Downloaded && !self.was_offered(&d.digest) {
                    self.offer(d.digest.clone());
                    Some(Notice::Ready { digest: d.digest.clone() })
                } else {
                    None
                }
            },
            None => None,
        }
    }

    /// The request an `ActionInvoked(id, action)` from `sender` stands for. Any session
    /// process can emit that signal: only the server that took the notification, and only
    /// an id this process holds, are believed. A believed id is forgotten, whatever the
    /// action.
    pub fn invoked(&mut self, sender: &str, id: u32, action: &str) -> (r: Option<Request>)
        ensures
            final(self).offered() == old(self).offered(),
            !old(self).sent_map().contains_key(id) ==> r is None && final(self).sent_map() == old(
                self,
            ).sent_map(),
            old(self).sent_map().contains_key(id) && old(self).sent_map()[id].server@ != sender@ ==> r
                is None && final(self).sent_map() == old(self).sent_map(),
            old(self).sent_map().contains_key(id) && old(self).sent_map()[id].server@ == sender@ ==> r
                == request_of(old(self).sent_map()[id].notice@, action@) && final(self).sent_map()
                == old(self).sent_map().remove(id),
    {
        let from = sender.to_owned();
        match self.sent.get(&id) {
            Some(sent) => {
                if !sent.server.eq(&from) {
                    return None;
                }
            },
            None => return None,
        }
        let removed = self.sent.remove(&id);
        let sent = match removed {
            Some(sent) => sent,
            None => return None,
        };
        let act = action.to_owned();
        let apply = ACTION_APPLY.to_owned();
        let go_back = ACTION_GO_BACK.to_owned();
        match sent.notice {
            Notice::Ready { .. } => if act.eq(&apply) {
                Some(Request::Apply)
            } else {
                None
            },
            Notice::Running { .. } => if act.eq(&go_back) {
                Some(Request::GoBack)
            } else {
                None
            },
        }
    }
}

/// The words of the two notifications.
#[derive(Debug, Clone, Copy, PartialEq, Eq)]
pub struct Texts {
    pub ready_summary: &'static str,
    pub ready_body: &'static str,
    pub restart: &'static str,
    pub later: &'static str,
    pub running_summary: &'static str,
    /// `{version}` and `{date}` are replaced.
    pub running_body: &'static str,
    pub go_back: &'static str,
}

/// The English words.
pub open spec fn english_texts() -> Texts {
    Texts {
        ready_summary: "A system update is ready",
        ready_body: "It is installed when you restart. Nothing changes until then.",
        restart: "Restart to update",
        later: "Later",
        running_summary: "The system was updated",
        running_body: "Version {version} of {date} is now running.",
        go_back: "Go back to the previous version",
    }
}

/// The Italian words.
pub open spec fn italian_texts() -> Texts {
    Texts {
        ready_summary: "Un aggiornamento di sistema è pronto",
        ready_body: "Viene installato al riavvio. Fino ad allora non cambia nulla.",
        restart: "Riavvia per aggiornare",
        later: "Più tardi",
        running_summary: "Il sistema è stato aggiornato",
        running_body: "Ora è in esecuzione la versione {version} del {date}.",
        go_back: "Torna alla versione precedente",
    }
}

/// The English words.
pub fn english() -> (t: Texts)
    ensures
        t == english_texts(),
{
    Texts {
        ready_summary: "A system update is ready",
        ready_body: "It is installed when you restart. Nothing changes until then.",
        restart: "Restart to update",
        later: "Later",
        running_summary: "The system was updated",
        running_body: "Version {version} of {date} is now running.",
        go_back: "Go back to the previous version",
    }
}

/// The Italian words.
pub fn italian() -> (t: Texts)
    ensures
        t == italian_texts(),
{
    Texts {
        ready_summary: "Un aggiornamento di sistema è pronto",
        ready_body: "Viene installato al riavvio. Fino ad allora non cambia nulla.",
        restart: "Riavvia per aggiornare",
        later: "Più tardi",
        running_summary: "Il sistema è stato aggiornato",
        running_body: "Ora è in esecuzione la versione {version} del {date}.",
        go_back: "Torna alla versione precedente",
    }
}

/// Italian for a session whose locale starts with `it`, English otherwise.
pub fn texts(locale: Option<&str>) -> (t: Texts)
    ensures
        t == (if locale matches Some(l) && l@.len() >= 2 && l@.take(2) == seq!['i', 't'] {
            italian_texts()
        } else {
            english_texts()
        }),
{
    let italian_locale = match locale {
        Some(l) => {
            let v = chars_of(l);
            let it = ['i', 't'];
            assert(it@ =~= seq!['i', 't']);
            starts_with(v.as_slice(), &it)
        },
        None => false,
    };
    if italian_locale {
        italian()
    } else {
        english()
    }
}

/// A variable that is set and not empty.
pub open spec fn set_value(v: Option<&str>) -> Option<Seq<char>> {
    match v {
        Some(s) => if s@.len() > 0 {
            Some(s@)
        } else {
            None
        },
        None => None,
    }
}

/// The locale of the session among `LC_ALL`, `LC_MESSAGES` and `LANG`, in that order: the
/// first that is set and not empty.
pub fn session_locale(lc_all: Option<&str>, lc_messages: Option<&str>, lang: Option<&str>) -> (r: Option<String>)
    ensures
        match r {
            Some(l) => Some(l@) == (if set_value(lc_all) is Some {
                set_value(lc_all)
            } else if set_value(lc_messages) is Some {
                set_value(lc_messages)
            } else {
                set_value(lang)
            }),
            None => set_value(lc_all) is None && set_value(lc_messages) is None && set_value(lang) is None,
        },
{
    if let Some(a) = lc_all {
        if !a.is_empty() {
            return Some(a.to_owned());
        }
    }
    if let Some(m) = lc_messages {
        if !m.is_empty() {
            return Some(m.to_owned());
        }
    }
    if let Some(g) = lang {
        if !g.is_empty() {
            return Some(g.to_owned());
        }
    }
    None
}

/// One notice per digest and per session: once `due` has offered a state's notice, the same
/// state calls for none again.
pub proof fn a_notice_is_offered_once(offered: Set<Seq<char>>, state: Published, seen: Option<Seq<char>>)
    ensures
        due_spec(offered, state, seen) matches Some(NoticeView::Ready { .. }) ==> due_spec(
            offered_after(offered, state, seen),
            state,
            seen,
        ) is None,
        due_spec(offered, state, seen) matches Some(NoticeView::Running { .. }) ==> !(due_spec(
            offered_after(offered, state, seen),
            state,
            seen,
        ) matches Some(NoticeView::Running { .. })),
{
}

/// Nothing is announced on a first session, and a downloaded update only when the state
/// says it is downloaded.
pub proof fn only_what_is_due_is_announced(offered: Set<Seq<char>>, state: Published)
    ensures
        !(due_spec(offered, state, None) matches Some(NoticeView::Running { .. })),
        state.update != UpdateState::Downloaded ==> !(due_spec(offered, state, None) is Some),
{
}

/// The calendar date (`%Y-%m-%d`, UTC) of a time in seconds since the epoch, when chrono
/// can hold it.
pub uninterp spec fn calendar_date(secs: i64) -> Option<Seq<char>>;

/// `DateTime::from_timestamp`, then `format("%Y-%m-%d")`.
#[verifier::external_body]
fn date_of(secs: i64) -> (r: Option<String>)
    ensures
        match r {
            Some(d) => calendar_date(secs) == Some(d@),
            None => calendar_date(secs) is None,
        },
{
    match chrono::DateTime::from_timestamp(secs, 0) {
        Some(time) => Some(time.format("%Y-%m-%d").to_string()),
        None => None,
    }
}

/// What a notice is sent as.
#[derive(Debug, Clone, PartialEq, Eq)]
pub struct Message {
    pub summary: &'static str,
    pub body: String,
    /// Key and label, in turn.
    pub actions: Vec<String>,
}

/// The body of the notice of a new deployment: its version and build date in place of the
/// placeholders; a date chrono cannot hold is empty.
pub open spec fn running_body(t: Texts, version: Seq<char>, build_time: i64) -> Seq<char> {
    let date = match calendar_date(build_time) {
        Some(d) => d,
        None => Seq::empty(),
    };
    replace_spec(replace_spec(t.running_body@, "{version}"@, version), "{date}"@, date)
}

/// The words, body and actions a notice is sent with, in the language of `t`. `version` is
/// the version as the state file is shown.
pub fn message_of(notice: &Notice, t: Texts, version: &str) -> (m: Message)
    ensures
        match notice {
            Notice::Ready { .. } => m.summary == t.ready_summary && m.body@ == t.ready_body@
                && m.actions@.map_values(|a: String| a@) == seq![ACTION_APPLY@, t.restart@, ACTION_LATER@, t.later@],
            Notice::Running { build_time, .. } => m.summary == t.running_summary && m.body@
                == running_body(t, version@, *build_time) && m.actions@.map_values(|a: String| a@)
                == seq![ACTION_GO_BACK@, t.go_back@],
        },
{
    match notice {
        Notice::Ready { .. } => {
            let actions = vec![ACTION_APPLY.to_owned(), t.restart.to_owned(), ACTION_LATER.to_owned(), t.later.to_owned()];
            assert(actions@.map_values(|a: String| a@) =~= seq![ACTION_APPLY@, t.restart@, ACTION_LATER@, t.later@]);
            Message { summary: t.ready_summary, body: t.ready_body.to_owned(), actions }
        },
        Notice::Running { build_time, .. } => {
            let date = match date_of(*build_time) {
                Some(d) => d,
                None => String::new(),
            };
            proof {
                reveal_strlit("{version}");
                reveal_strlit("{date}");
            }
            let with_version = replace(t.running_body, "{version}", version);
            let body = replace(with_version.as_str(), "{date}", date.as_str());
            let actions = vec![ACTION_GO_BACK.to_owned(), t.go_back.to_owned()];
            assert(actions@.map_values(|a: String| a@) =~= seq![ACTION_GO_BACK@, t.go_back@]);
            Message { summary: t.running_summary, body, actions }
        },
    }
}

/// Only the apply action on a ready notice asks to apply, and only the go-back action on the
/// notice of a new deployment asks to go back; "later", the default action and anything else
/// ask for nothing.
pub proof fn only_the_named_action_makes_a_request(notice: NoticeView, action: Seq<char>)
    ensures
        request_of(notice, action) == Some(Request::Apply) <==> (notice is Ready && action
            == ACTION_APPLY@),
        request_of(notice, action) == Some(Request::GoBack) <==> (notice is Running && action
            == ACTION_GO_BACK@),
        action == ACTION_LATER@ ==> request_of(notice, action) is None,
        action == "default"@ ==> request_of(notice, action) is None,
{
    reveal_strlit("apply");
    reveal_strlit("later");
    reveal_strlit("go-back");
    reveal_strlit("default");
    assert(ACTION_LATER@[0] != ACTION_APPLY@[0] && ACTION_LATER@[0] != ACTION_GO_BACK@[0]);
    assert("default"@[0] != ACTION_APPLY@[0] && "default"@[0] != ACTION_GO_BACK@[0]);
}

} // verus!
