//! What the greeter decides: whom it greets, what it asks greetd to start, what the card
//! says, and each turn of the conversation with greetd. The socket, the environment and
//! /etc/passwd are read by the caller and handed in as values.

use vstd::prelude::*;

use crate::paths::{file_name, file_name_of, path_exists};
use crate::chars::{
    chars_of, contains, contains_spec, ends_with, lines, lines_spec, parse_u32, push_str, split,
    split_spec, string_of, trim, trim_spec, u32_text,
};

verus! {

/// The session type the greeter asks greetd for; the badge reads it from here.
pub const SESSION_TYPE: &'static str = "wayland";

/// What to ask greetd for when no session command is installed: the bare name, left to
/// greetd's own PATH.
pub const SESSION_COMMAND_FALLBACK: &'static str = "athanor-session";

/// Where the session command is looked for, most specific first.
pub const SESSION_COMMAND_PATHS: [&'static str; 3] = [
    "/usr/bin/athanor-session",
    "/etc/greetd/athanor-session",
    "/usr/local/bin/athanor-session",
];

/// Between the session type and the command's name on the badge.
pub const BADGE_SEPARATOR: &'static str = " • ";

/// The uid below which an account is a system account, not a person.
pub const FIRST_HUMAN_UID: u32 = 1000;

/// The uid from which an account is no person again (`nobody`).
pub const LAST_HUMAN_UID: u32 = 65534;

/// Whom the card greets when nobody else can be found.
pub const DEFAULT_USER: &'static str = "athanor";

/// The largest greetd reply the greeter allocates for.
pub const MAX_REPLY_BYTES: u32 = 1048576;

/// The largest request the greeter sends, a typed password included.
pub const REQUEST_BUFFER_BYTES: usize = 4096;

/// The replies greetd may give before the greeter gives up on the conversation.
pub const MAX_TURNS: u32 = 15;

/// What the card shows while the password is checked.
pub const CHECKING: &'static str = "Verifica credenziali in corso...";

/// The error when greetd answers a session start with a question.
pub const UNEXPECTED_START_REPLY: &'static str = "Risposta inattesa dal comando StartSession";

/// The error when greetd keeps asking.
pub const TOO_MANY_TURNS: &'static str = "Timeout conversazione PAM (troppi passaggi di autenticazione)";

/// The session environment's two entries.
pub const SESSION_TYPE_ENV: &'static str = "XDG_SESSION_TYPE=wayland";

pub const CURRENT_DESKTOP_ENV: &'static str = "XDG_CURRENT_DESKTOP=Athanor";

/// `/.face`, under the home directory.
pub const FACE_FILE: &'static str = "/.face";

/// The directory of AccountsService's pictures, ending in `/`.
pub const ACCOUNTS_ICONS: &'static str = "/var/lib/AccountsService/icons/";

/// `/home/`, where a home is when passwd does not say.
pub const HOME_ROOT: &'static str = "/home/";

/// What `str::to_uppercase` makes of a string (Unicode's full case mapping).
pub uninterp spec fn upper_of(s: Seq<char>) -> Seq<char>;

/// `str::to_uppercase`.
#[verifier::external_body]
fn to_upper(s: &str) -> (r: String)
    ensures
        r@ == upper_of(s@),
{
    s.to_uppercase()
}

/// What `char::to_uppercase` makes of one character: one to three characters.
pub uninterp spec fn char_upper_of(c: char) -> Seq<char>;

/// `char::to_uppercase`, collected.
#[verifier::external_body]
fn char_to_upper(c: char) -> (r: String)
    ensures
        r@ == char_upper_of(c),
{
    c.to_uppercase().collect()
}

/// What `str::to_lowercase` makes of a string.
pub uninterp spec fn lower_of(s: Seq<char>) -> Seq<char>;

/// `str::to_lowercase`.
#[verifier::external_body]
fn to_lower(s: &str) -> (r: String)
    ensures
        r@ == lower_of(s@),
{
    s.to_lowercase()
}

/// The first candidate whose flag is set, or `fallback`.
pub open spec fn first_marked(candidates: Seq<Seq<char>>, marks: Seq<bool>, fallback: Seq<char>) -> Seq<char>
    decreases candidates.len(),
{
    if candidates.len() == 0 || marks.len() == 0 {
        fallback
    } else if marks[0] {
        candidates[0]
    } else {
        first_marked(candidates.skip(1), marks.skip(1), fallback)
    }
}

/// The characters of each string.
pub open spec fn strs(s: Seq<&str>) -> Seq<Seq<char>> {
    s.map_values(|x: &str| x@)
}

proof fn lemma_first_marked_step(c: Seq<Seq<char>>, m: Seq<bool>, f: Seq<char>, i: int)
    requires
        0 <= i < c.len(),
        c.len() == m.len(),
        !m[i],
    ensures
        first_marked(c.skip(i), m.skip(i), f) == first_marked(c.skip(i + 1), m.skip(i + 1), f),
{
    assert(c.skip(i).skip(1) == c.skip(i + 1));
    assert(m.skip(i).skip(1) == m.skip(i + 1));
}

/// The first of `candidates` that `installed` marks, or `fallback`.
pub fn pick_installed<'a>(candidates: &[&'a str], installed: &[bool], fallback: &'a str) -> (r: &'a str)
    requires
        candidates@.len() == installed@.len(),
    ensures
        r@ == first_marked(strs(candidates@), installed@, fallback@),
{
    let ghost c = strs(candidates@);
    assert(c.skip(0) =~= c);
    assert(installed@.skip(0) =~= installed@);
    let mut i: usize = 0;
    while i < candidates.len()
        invariant
            c == strs(candidates@),
            candidates@.len() == installed@.len(),
            i <= candidates@.len(),
            first_marked(c, installed@, fallback@) == first_marked(
                c.skip(i as int),
                installed@.skip(i as int),
                fallback@,
            ),
        decreases candidates.len() - i,
    {
        if installed[i] {
            assert(c.skip(i as int)[0] == candidates@[i as int]@);
            return candidates[i];
        }
        proof {
            lemma_first_marked_step(c, installed@, fallback@, i as int);
        }
        i = i + 1;
    }
    fallback
}

/// The first of `candidates` that is installed now, or `fallback`. Which is installed is
/// the disk's affair: what is promised is that the choice follows some state of it.
pub fn first_installed<'a>(candidates: &[&'a str], fallback: &'a str) -> (r: &'a str)
    ensures
        exists|marks: Seq<bool>|
            marks.len() == candidates@.len() && r@ == first_marked(
                strs(candidates@),
                marks,
                fallback@,
            ),
{
    let mut installed: Vec<bool> = Vec::new();
    let mut i: usize = 0;
    while i < candidates.len()
        invariant
            i <= candidates@.len(),
            installed@.len() == i,
        decreases candidates.len() - i,
    {
        installed.push(path_exists(candidates[i]));
        i = i + 1;
    }
    let r = pick_installed(candidates, installed.as_slice(), fallback);
    assert(installed@.len() == candidates@.len());
    r
}

/// The command the greeter asks greetd to run once the password is accepted: the first of
/// `SESSION_COMMAND_PATHS` that is installed, or `SESSION_COMMAND_FALLBACK`.
pub fn session_command() -> (cmd: String)
    ensures
        exists|marks: Seq<bool>|
            marks.len() == 3 && cmd@ == first_marked(
                strs(SESSION_COMMAND_PATHS@),
                marks,
                SESSION_COMMAND_FALLBACK@,
            ),
{
    let paths = SESSION_COMMAND_PATHS;
    first_installed(&paths, SESSION_COMMAND_FALLBACK).to_owned()
}

/// The name the badge shows for a session command: its file name, or the command itself.
pub open spec fn command_name(cmd: Seq<char>) -> Seq<char> {
    match file_name_of(cmd) {
        Some(name) => name,
        None => cmd,
    }
}

/// The badge under the user name: the session type and the command's name, upper case.
pub fn session_badge(session_cmd: &str) -> (badge: String)
    ensures
        badge@ == upper_of(SESSION_TYPE@) + BADGE_SEPARATOR@ + upper_of(command_name(session_cmd@)),
{
    let name = match file_name(session_cmd) {
        Some(name) => name,
        None => session_cmd,
    };
    let mut badge = to_upper(SESSION_TYPE);
    push_str(&mut badge, BADGE_SEPARATOR);
    let upper = to_upper(name);
    push_str(&mut badge, upper.as_str());
    badge
}

/// `s` with its first character upper case.
pub open spec fn capitalized(s: Seq<char>) -> Seq<char> {
    if s.len() == 0 {
        Seq::empty()
    } else {
        char_upper_of(s[0]) + s.skip(1)
    }
}

pub fn capitalize_first(s: &str) -> (r: String)
    ensures
        r@ == capitalized(s@),
{
    let v = chars_of(s);
    if v.len() == 0 {
        return String::new();
    }
    let mut r = char_to_upper(v[0]);
    let (_, tail) = v.as_slice().split_at(1);
    let rest = string_of(tail);
    push_str(&mut r, rest.as_str());
    r
}

/// The first value present in `s`.
pub open spec fn first_some<A>(s: Seq<Option<A>>) -> Option<A>
    decreases s.len(),
{
    if s.len() == 0 {
        None
    } else if s[0] is Some {
        s[0]
    } else {
        first_some(s.skip(1))
    }
}

proof fn lemma_first_some_step<A>(s: Seq<Option<A>>, i: int)
    requires
        0 <= i < s.len(),
    ensures
        s[i] is None ==> first_some(s.skip(i)) == first_some(s.skip(i + 1)),
        s[i] is Some ==> first_some(s.skip(i)) == s[i],
{
    assert(s.skip(i)[0] == s[i]);
    assert(s.skip(i).skip(1) == s.skip(i + 1));
}

/// The uid of `name` on a line of passwd, when the line is its entry and the uid reads.
pub open spec fn uid_on_line(line: Seq<char>, name: Seq<char>) -> Option<u32> {
    let f = split_spec(line, ':');
    if f.len() >= 3 && f[0] == name {
        u32_text(f[2])
    } else {
        None
    }
}

/// The uid each line of passwd gives `name`.
pub open spec fn uids_of(passwd: Seq<char>, name: Seq<char>) -> Seq<Option<u32>> {
    lines_spec(passwd).map_values(|l: Seq<char>| uid_on_line(l, name))
}

/// Whether `name` is a system account in passwd: its first entry with a readable uid has a
/// uid below `FIRST_HUMAN_UID`. An unknown name, or passwd that cannot be read, counts as
/// a system account: there is no person to greet by that name.
pub open spec fn system_account_spec(passwd: Option<Seq<char>>, name: Seq<char>) -> bool {
    match passwd {
        None => true,
        Some(p) => match first_some(uids_of(p, name)) {
            None => true,
            Some(uid) => uid < FIRST_HUMAN_UID,
        },
    }
}

/// The pieces of a line between `:`, as strings of characters.
fn fields(line: &[char]) -> (f: Vec<Vec<char>>)
    ensures
        f@.len() == split_spec(line@, ':').len(),
        forall|i: int| 0 <= i < f@.len() ==> #[trigger] f@[i]@ == split_spec(line@, ':')[i],
{
    split(line, ':')
}

fn same(a: &[char], b: &[char]) -> (r: bool)
    ensures
        r == (a@ == b@),
{
    crate::chars::same_chars(a, b)
}

fn uid_on(line: &[char], name: &[char]) -> (r: Option<u32>)
    ensures
        r == uid_on_line(line@, name@),
{
    let f = fields(line);
    if f.len() >= 3 && same(f[0].as_slice(), name) {
        parse_u32(f[2].as_slice())
    } else {
        None
    }
}

/// Whether `name` is a system account in `passwd` (the file's text, `None` when it cannot
/// be read).
pub fn is_system_account(passwd: Option<&str>, name: &str) -> (r: bool)
    ensures
        r == system_account_spec(
            match passwd {
                Some(p) => Some(p@),
                None => None,
            },
            name@,
        ),
{
    let p = match passwd {
        Some(p) => p,
        None => return true,
    };
    let text = chars_of(p);
    let n = chars_of(name);
    let ls = lines(text.as_slice());
    let ghost all = uids_of(p@, name@);
    assert(all.skip(0) =~= all);
    let mut i: usize = 0;
    while i < ls.len()
        invariant
            passwd == Some(p),
            text@ == p@,
            n@ == name@,
            ls@.len() == lines_spec(p@).len(),
            forall|j: int| 0 <= j < ls@.len() ==> #[trigger] ls@[j]@ == lines_spec(p@)[j],
            all == uids_of(p@, name@),
            i <= ls@.len(),
            first_some(all) == first_some(all.skip(i as int)),
        decreases ls.len() - i,
    {
        let found = uid_on(ls[i].as_slice(), n.as_slice());
        proof {
            assert(all[i as int] == found);
            lemma_first_some_step(all, i as int);
        }
        if let Some(uid) = found {
            return uid < FIRST_HUMAN_UID;
        }
        i = i + 1;
    }
    assert(all.skip(i as int).len() == 0);
    true
}

/// A login shell of a person: one that ends in `bash`, `zsh` or `fish`.
pub open spec fn person_shell(shell: Seq<char>) -> bool {
    ||| shell.len() >= 4 && shell.skip(shell.len() - 4) == seq!['b', 'a', 's', 'h']
    ||| shell.len() >= 3 && shell.skip(shell.len() - 3) == seq!['z', 's', 'h']
    ||| shell.len() >= 4 && shell.skip(shell.len() - 4) == seq!['f', 'i', 's', 'h']
}

/// The account a line of passwd offers to greet: a full entry with a human uid and the
/// login shell of a person.
pub open spec fn person_on_line(line: Seq<char>) -> Option<Seq<char>> {
    let f = split_spec(line, ':');
    if f.len() >= 7 && (match u32_text(f[2]) {
        Some(uid) => FIRST_HUMAN_UID <= uid < LAST_HUMAN_UID,
        None => false,
    }) && person_shell(f[6]) {
        Some(f[0])
    } else {
        None
    }
}

fn person_on(line: &[char]) -> (r: Option<Vec<char>>)
    ensures
        match r {
            Some(v) => person_on_line(line@) == Some(v@),
            None => person_on_line(line@) is None,
        },
{
    let f = fields(line);
    if f.len() < 7 {
        return None;
    }
    let human = match parse_u32(f[2].as_slice()) {
        Some(uid) => FIRST_HUMAN_UID <= uid && uid < LAST_HUMAN_UID,
        None => false,
    };
    let shell = f[6].as_slice();
    let bash = ['b', 'a', 's', 'h'];
    let zsh = ['z', 's', 'h'];
    let fish = ['f', 'i', 's', 'h'];
    assert(bash@ =~= seq!['b', 'a', 's', 'h']);
    assert(zsh@ =~= seq!['z', 's', 'h']);
    assert(fish@ =~= seq!['f', 'i', 's', 'h']);
    if human && (ends_with(shell, &bash) || ends_with(shell, &zsh) || ends_with(shell, &fish)) {
        let mut name: Vec<char> = Vec::new();
        name.extend_from_slice(f[0].as_slice());
        Some(name)
    } else {
        None
    }
}

/// The person each line of passwd offers.
pub open spec fn persons_of(passwd: Seq<char>) -> Seq<Option<Seq<char>>> {
    lines_spec(passwd).map_values(|l: Seq<char>| person_on_line(l))
}

/// The first person passwd offers to greet.
pub open spec fn first_person(passwd: Seq<char>) -> Option<Seq<char>> {
    first_some(persons_of(passwd))
}

fn find_person(p: &str) -> (r: Option<Vec<char>>)
    ensures
        match r {
            Some(v) => first_person(p@) == Some(v@),
            None => first_person(p@) is None,
        },
{
    let text = chars_of(p);
    let ls = lines(text.as_slice());
    let ghost all = persons_of(p@);
    assert(all.skip(0) =~= all);
    let mut i: usize = 0;
    while i < ls.len()
        invariant
            ls@.len() == lines_spec(p@).len(),
            forall|j: int| 0 <= j < ls@.len() ==> #[trigger] ls@[j]@ == lines_spec(p@)[j],
            all == persons_of(p@),
            i <= ls@.len(),
            first_some(all) == first_some(all.skip(i as int)),
        decreases ls.len() - i,
    {
        let found = person_on(ls[i].as_slice());
        proof {
            lemma_first_some_step(all, i as int);
        }
        if found.is_some() {
            return found;
        }
        i = i + 1;
    }
    assert(all.skip(i as int).len() == 0);
    None
}

/// The view of an optional `&str`.
pub open spec fn opt_str(s: Option<&str>) -> Option<Seq<char>> {
    match s {
        Some(s) => Some(s@),
        None => None,
    }
}

/// Whom the card greets. `env_user` is `$USER`, `login_user` `$ATHANOR_LOGIN_USER`, and
/// `passwd` the text of /etc/passwd; each is `None` when it cannot be read. Running as the
/// greeter (a system account) or with no user at all, the person is looked for instead.
pub open spec fn target_user_spec(
    env_user: Option<Seq<char>>,
    login_user: Option<Seq<char>>,
    passwd: Option<Seq<char>>,
) -> Seq<char> {
    let e = match env_user {
        Some(u) => u,
        None => Seq::empty(),
    };
    if e.len() == 0 || system_account_spec(passwd, e) {
        match login_user {
            Some(u) => u,
            None => match passwd {
                Some(p) => match first_person(p) {
                    Some(u) => u,
                    None => DEFAULT_USER@,
                },
                None => DEFAULT_USER@,
            },
        }
    } else {
        e
    }
}

pub fn target_user(env_user: Option<&str>, login_user: Option<&str>, passwd: Option<&str>) -> (r: String)
    ensures
        r@ == target_user_spec(opt_str(env_user), opt_str(login_user), opt_str(passwd)),
{
    let e = match env_user {
        Some(u) => u,
        None => "",
    };
    proof {
        reveal_strlit("");
    }
    if e.is_empty() || is_system_account(passwd, e) {
        match login_user {
            Some(u) => u.to_owned(),
            None => match passwd {
                Some(p) => match find_person(p) {
                    Some(v) => string_of(v.as_slice()),
                    None => DEFAULT_USER.to_owned(),
                },
                None => DEFAULT_USER.to_owned(),
            },
        }
    } else {
        e.to_owned()
    }
}

/// What the entry of `user` on a line of passwd says: the name of the GECOS field (up to
/// its first comma, trimmed) and the home directory.
pub open spec fn entry_on_line(line: Seq<char>, user: Seq<char>) -> Option<(Seq<char>, Seq<char>)> {
    let f = split_spec(line, ':');
    if f.len() >= 6 && f[0] == user {
        Some((trim_spec(split_spec(f[4], ',')[0]), f[5]))
    } else {
        None
    }
}

/// What each line of passwd says of `user`.
pub open spec fn entries_of(passwd: Seq<char>, user: Seq<char>) -> Seq<Option<(Seq<char>, Seq<char>)>> {
    lines_spec(passwd).map_values(|l: Seq<char>| entry_on_line(l, user))
}

/// The first entry of `user` in passwd.
pub open spec fn entry_of(passwd: Option<Seq<char>>, user: Seq<char>) -> Option<(Seq<char>, Seq<char>)> {
    match passwd {
        Some(p) => first_some(entries_of(p, user)),
        None => None,
    }
}

/// The name the card shows for `user`: the GECOS name when it has one, else the account
/// name with a capital.
pub open spec fn real_name_spec(passwd: Option<Seq<char>>, user: Seq<char>) -> Seq<char> {
    match entry_of(passwd, user) {
        Some((name, _)) => if name.len() > 0 {
            name
        } else {
            capitalized(user)
        },
        None => capitalized(user),
    }
}

/// The home of `user`: passwd's, else `/home/` and the name.
pub open spec fn home_spec(passwd: Option<Seq<char>>, user: Seq<char>) -> Seq<char> {
    match entry_of(passwd, user) {
        Some((_, home)) => home,
        None => HOME_ROOT@ + user,
    }
}

fn entry_on(line: &[char], user: &[char]) -> (r: Option<(Vec<char>, Vec<char>)>)
    ensures
        match r {
            Some((name, home)) => entry_on_line(line@, user@) == Some((name@, home@)),
            None => entry_on_line(line@, user@) is None,
        },
{
    let f = fields(line);
    if f.len() >= 6 && same(f[0].as_slice(), user) {
        let gecos = split(f[4].as_slice(), ',');
        proof {
            crate::chars::lemma_split_nonempty(f@[4]@, ',');
        }
        let name = trim(gecos[0].as_slice());
        let mut home: Vec<char> = Vec::new();
        home.extend_from_slice(f[5].as_slice());
        Some((name, home))
    } else {
        None
    }
}

fn find_entry(p: &str, user: &[char]) -> (r: Option<(Vec<char>, Vec<char>)>)
    ensures
        match r {
            Some((name, home)) => entry_of(Some(p@), user@) == Some((name@, home@)),
            None => entry_of(Some(p@), user@) is None,
        },
{
    let text = chars_of(p);
    let ls = lines(text.as_slice());
    let ghost all = entries_of(p@, user@);
    assert(all.skip(0) =~= all);
    let mut i: usize = 0;
    while i < ls.len()
        invariant
            ls@.len() == lines_spec(p@).len(),
            forall|j: int| 0 <= j < ls@.len() ==> #[trigger] ls@[j]@ == lines_spec(p@)[j],
            all == entries_of(p@, user@),
            i <= ls@.len(),
            first_some(all) == first_some(all.skip(i as int)),
        decreases ls.len() - i,
    {
        let found = entry_on(ls[i].as_slice(), user);
        proof {
            lemma_first_some_step(all, i as int);
        }
        if found.is_some() {
            return found;
        }
        i = i + 1;
    }
    assert(all.skip(i as int).len() == 0);
    None
}

/// The person the greeter greets.
#[derive(Debug, Clone)]
pub struct UserInfo {
    pub username: String,
    pub real_name: String,
    pub avatar_path: Option<String>,
}

/// The picture of the card: `face` when it exists, else `accounts` when it does, else none.
pub fn avatar(face: String, accounts: String, face_exists: bool, accounts_exists: bool) -> (r: Option<String>)
    ensures
        r == (if face_exists {
            Some(face)
        } else if accounts_exists {
            Some(accounts)
        } else {
            None
        }),
{
    if face_exists {
        Some(face)
    } else if accounts_exists {
        Some(accounts)
    } else {
        None
    }
}

/// The person the greeter greets, with the name and picture of the card. The picture is the
/// home's `.face`, else AccountsService's, else none, as the disk has them when asked.
pub fn discover_target_user(env_user: Option<&str>, login_user: Option<&str>, passwd: Option<&str>) -> (info: UserInfo)
    ensures
        ({
            let user = target_user_spec(opt_str(env_user), opt_str(login_user), opt_str(passwd));
            let face = home_spec(opt_str(passwd), user) + FACE_FILE@;
            let accounts = ACCOUNTS_ICONS@ + user;
            &&& info.username@ == user
            &&& info.real_name@ == real_name_spec(opt_str(passwd), user)
            &&& match info.avatar_path {
                Some(path) => path@ == face || path@ == accounts,
                None => true,
            }
        }),
{
    let user = target_user(env_user, login_user, passwd);
    let u = chars_of(user.as_str());
    let entry = match passwd {
        Some(p) => find_entry(p, u.as_slice()),
        None => None,
    };
    let (real_name, home) = match entry {
        Some((name, home)) => {
            let shown = if name.len() > 0 {
                string_of(name.as_slice())
            } else {
                capitalize_first(user.as_str())
            };
            (shown, string_of(home.as_slice()))
        },
        None => {
            let mut home = HOME_ROOT.to_owned();
            push_str(&mut home, user.as_str());
            (capitalize_first(user.as_str()), home)
        },
    };
    let mut face = home;
    push_str(&mut face, FACE_FILE);
    let mut accounts = ACCOUNTS_ICONS.to_owned();
    push_str(&mut accounts, user.as_str());
    let face_exists = path_exists(face.as_str());
    let accounts_exists = path_exists(accounts.as_str());
    let avatar_path = avatar(face, accounts, face_exists, accounts_exists);
    UserInfo { username: user, real_name, avatar_path }
}

/// Whether a reply of `len` bytes may be read: the length comes from the peer and is
/// refused above `MAX_REPLY_BYTES` before anything is allocated for it.
pub fn reply_fits(len: u32) -> (r: bool)
    ensures
        r == (len <= MAX_REPLY_BYTES),
{
    len <= MAX_REPLY_BYTES
}

/// Whether `more` bytes still fit in a request buffer holding `used` of `capacity`: it is
/// never grown, so a request that does not fit is refused.
pub fn request_fits(used: usize, capacity: usize, more: usize) -> (r: bool)
    requires
        used <= capacity,
    ensures
        r == (more <= capacity - used),
{
    more <= capacity - used
}

/// The kinds of greetd's questions.
#[derive(Debug, Clone, Copy, PartialEq, Eq, Structural)]
pub enum AuthKind {
    Visible,
    Secret,
    Info,
    Error,
}

/// greetd's replies, as the conversation reads them.
#[derive(Debug, Clone, PartialEq, Eq)]
pub enum Reply {
    AuthMessage { kind: AuthKind, message: String },
    Success,
    Error { description: String },
}

/// What the greeter answers a question with.
#[derive(Debug, Clone, Copy, PartialEq, Eq, Structural)]
pub enum Answer {
    /// An empty response: the question is a fingerprint prompt or information.
    Nothing,
    /// The password the user typed.
    Password,
}

/// The greeter's next move.
#[derive(Debug, PartialEq, Eq)]
pub enum Step {
    /// Show `status`, then answer.
    Respond { status: String, answer: Answer },
    /// Ask greetd to start the session.
    Start,
    /// The conversation is over.
    Done(Result<(), String>),
}

/// A prompt that needs no password: a fingerprint reader's, or plain information.
pub open spec fn touch_prompt(kind: AuthKind, message: Seq<char>) -> bool {
    let m = lower_of(message);
    ||| contains_spec(m, seq!['f', 'i', 'n', 'g', 'e', 'r'])
    ||| contains_spec(m, seq!['i', 'm', 'p', 'r', 'o', 'n', 't', 'a'])
    ||| contains_spec(m, seq!['t', 'o', 'u', 'c', 'h'])
    ||| kind == AuthKind::Info
}

/// A step as values.
pub enum StepView {
    Respond { status: Seq<char>, answer: Answer },
    Start,
    Done(Result<(), Seq<char>>),
}

impl View for Step {
    type V = StepView;

    open spec fn view(&self) -> StepView {
        match self {
            Step::Respond { status, answer } => StepView::Respond { status: status@, answer: *answer },
            Step::Start => StepView::Start,
            Step::Done(Ok(())) => StepView::Done(Ok(())),
            Step::Done(Err(e)) => StepView::Done(Err(e@)),
        }
    }
}

/// What the greeter does with greetd's reply after `turns` earlier ones.
pub open spec fn step_spec(turns: u32, reply: Reply) -> StepView {
    if turns >= MAX_TURNS {
        StepView::Done(Err(TOO_MANY_TURNS@))
    } else {
        match reply {
            Reply::AuthMessage { kind, message } => if touch_prompt(kind, message@) {
                StepView::Respond { status: message@, answer: Answer::Nothing }
            } else {
                StepView::Respond { status: CHECKING@, answer: Answer::Password }
            },
            Reply::Success => StepView::Start,
            Reply::Error { description } => StepView::Done(Err(description@)),
        }
    }
}

/// The next move of the conversation: after `MAX_TURNS` replies the greeter gives up; a
/// fingerprint prompt or information is shown and answered with nothing; any other question
/// is answered with the password; success starts the session; an error ends it.
pub fn step(turns: u32, reply: &Reply) -> (s: Step)
    ensures
        s@ == step_spec(turns, *reply),
{
    if turns >= MAX_TURNS {
        return Step::Done(Err(TOO_MANY_TURNS.to_owned()));
    }
    match reply {
        Reply::AuthMessage { kind, message } => {
            let m = to_lower(message.as_str());
            let mv = chars_of(m.as_str());
            let finger = ['f', 'i', 'n', 'g', 'e', 'r'];
            let impronta = ['i', 'm', 'p', 'r', 'o', 'n', 't', 'a'];
            let touch = ['t', 'o', 'u', 'c', 'h'];
            assert(finger@ =~= seq!['f', 'i', 'n', 'g', 'e', 'r']);
            assert(impronta@ =~= seq!['i', 'm', 'p', 'r', 'o', 'n', 't', 'a']);
            assert(touch@ =~= seq!['t', 'o', 'u', 'c', 'h']);
            let info = match kind {
                AuthKind::Info => true,
                _ => false,
            };
            if contains(mv.as_slice(), &finger) || contains(mv.as_slice(), &impronta) || contains(
                mv.as_slice(),
                &touch,
            ) || info {
                Step::Respond { status: message.clone(), answer: Answer::Nothing }
            } else {
                Step::Respond { status: CHECKING.to_owned(), answer: Answer::Password }
            }
        },
        Reply::Success => Step::Start,
        Reply::Error { description } => Step::Done(Err(description.clone())),
    }
}

/// What greetd's answer to the session start means: done, its error, or an unexpected
/// question.
pub fn started(reply: &Reply) -> (r: Result<(), String>)
    ensures
        match *reply {
            Reply::Success => r is Ok,
            Reply::Error { description } => r matches Err(e) && e@ == description@,
            Reply::AuthMessage { .. } => r matches Err(e) && e@ == UNEXPECTED_START_REPLY@,
        },
{
    match reply {
        Reply::Success => Ok(()),
        Reply::Error { description } => Err(description.clone()),
        Reply::AuthMessage { .. } => Err(UNEXPECTED_START_REPLY.to_owned()),
    }
}

/// The environment of the session the greeter starts.
pub fn session_env() -> (env: Vec<String>)
    ensures
        env@.len() == 2,
        env@[0]@ == SESSION_TYPE_ENV@,
        env@[1]@ == CURRENT_DESKTOP_ENV@,
{
    let mut env: Vec<String> = Vec::new();
    env.push(SESSION_TYPE_ENV.to_owned());
    env.push(CURRENT_DESKTOP_ENV.to_owned());
    env
}

/// greetd's information is shown as it came and answered with an empty response: the
/// password is never the answer to it, whatever the message says. Any question is
/// answered: with nothing, showing the question, or with the password, showing that the
/// credentials are being checked.
pub proof fn information_is_shown_and_never_answered_with_the_password(turns: u32, kind: AuthKind, message: String)
    requires
        turns < MAX_TURNS,
    ensures
        step_spec(turns, Reply::AuthMessage { kind: AuthKind::Info, message }) == (StepView::Respond {
            status: message@,
            answer: Answer::Nothing,
        }),
        step_spec(turns, Reply::AuthMessage { kind, message }) matches StepView::Respond { status, answer }
            && (answer == Answer::Nothing ==> status == message@) && (answer == Answer::Password
            ==> status == CHECKING@ && kind != AuthKind::Info),
{
}

} // verus!
