//! `athanor-backup`: which snapshot names are snapshots, which snapshots survive a prune,
//! where a restore reads and writes, and what the command line asks for. The snapshots
//! themselves, the btrfs calls and the copy are the caller's.

use chrono::{Datelike, Timelike};
use vstd::prelude::*;

use crate::chars::{
    chars_of, decimal, owned_all, push_str, same_chars, split, split_spec, str_views, string_of, string_views,
    u64_decimal,
};

verus! {

pub const HOME_ROOT: &'static str = "/var/home";

pub const SNAPSHOT_DIR: &'static str = "/var/home/.snapshots";

/// The directory of a home that restored copies land in.
pub const RESTORE_DIR: &'static str = "Ripristinati";

/// Snapshot names: their UTC creation time, which sorts like the time itself.
pub const ID_FORMAT: &'static str = "%Y%m%dT%H%M%SZ";

/// The inode number of the root directory of every btrfs subvolume.
pub const BTRFS_SUBVOLUME_ROOT_INO: u64 = 256;

pub const USAGE: &'static str = "usage: athanor-backup create | prune | list | restore <snapshot> <path>";

/// How many distinct hours, days and ISO weeks keep their newest snapshot.
pub const HOURLY: usize = 24;

pub const DAILY: usize = 7;

pub const WEEKLY: usize = 4;

/// Why a path cannot be restored.
#[derive(Debug, Clone, Copy, PartialEq, Eq, Structural)]
pub enum PathError {
    /// It is under neither `/var/home` nor `/home`.
    NotUnderHome,
    /// It names no file inside a home, or it holds `.` or `..`.
    NotInsideHome,
}

pub open spec fn var_name() -> Seq<char> {
    seq!['v', 'a', 'r']
}

pub open spec fn home_name() -> Seq<char> {
    seq!['h', 'o', 'm', 'e']
}

/// A piece of a path that names nothing: empty (between two slashes) or `.`.
pub open spec fn idle_piece(p: Seq<char>) -> bool {
    p.len() == 0 || p == seq!['.']
}

/// What is left of the pieces of a path below the root once the directories `names` have
/// been read off its start, pieces that name nothing skipped on the way, as
/// `Path::strip_prefix` compares components.
pub open spec fn strip_names(pieces: Seq<Seq<char>>, names: Seq<Seq<char>>) -> Option<Seq<Seq<char>>>
    decreases pieces.len(),
{
    if names.len() == 0 {
        Some(pieces)
    } else if pieces.len() == 0 {
        None
    } else if idle_piece(pieces[0]) {
        strip_names(pieces.skip(1), names)
    } else if pieces[0] == names[0] {
        strip_names(pieces.skip(1), names.skip(1))
    } else {
        None
    }
}

/// The pieces of `path` below `/var/home`, else below `/home`.
pub open spec fn below_home_root(path: Seq<char>) -> Option<Seq<Seq<char>>> {
    if path.len() > 0 && path[0] == '/' {
        let pieces = split_spec(path.skip(1), '/');
        match strip_names(pieces, seq![var_name(), home_name()]) {
            Some(rest) => Some(rest),
            None => strip_names(pieces, seq![home_name()]),
        }
    } else {
        None
    }
}

/// A piece that is not empty.
pub open spec fn has_name() -> spec_fn(Seq<char>) -> bool {
    |p: Seq<char>| p.len() > 0
}

/// The pieces that name something.
pub open spec fn named_pieces(pieces: Seq<Seq<char>>) -> Seq<Seq<char>> {
    pieces.filter(has_name())
}

/// `.` or `..`.
pub open spec fn dot_piece(p: Seq<char>) -> bool {
    p == seq!['.'] || p == seq!['.', '.']
}

/// The components of `path` below the home root: only plain names are accepted, no `..`,
/// no `.`, and at least one.
pub open spec fn home_components_spec(path: Seq<char>) -> Result<Seq<Seq<char>>, PathError> {
    match below_home_root(path) {
        None => Err(PathError::NotUnderHome),
        Some(rest) => if named_pieces(rest).len() == 0 || exists|i: int|
            0 <= i < rest.len() && dot_piece(#[trigger] rest[i]) {
            Err(PathError::NotInsideHome)
        } else {
            Ok(named_pieces(rest))
        },
    }
}

/// The pieces joined with `/`.
pub open spec fn join_spec(parts: Seq<Seq<char>>) -> Seq<char>
    decreases parts.len(),
{
    if parts.len() == 0 {
        Seq::empty()
    } else if parts.len() == 1 {
        parts[0]
    } else {
        join_spec(parts.drop_last()) + seq!['/'] + parts.last()
    }
}

proof fn lemma_strings_view_push(v: Seq<String>, s: String)
    ensures
        string_views(v.push(s)) == string_views(v).push(s@),
{
    assert(string_views(v.push(s)) =~= string_views(v).push(s@));
}

fn is_word(piece: &[char], word: &[char]) -> (r: bool)
    ensures
        r == (piece@ == word@),
{
    same_chars(piece, word)
}

/// Reads the directories `names` off the start of `pieces`, from `from` on; the index of the
/// first piece left, when they are all there.
fn strip_from(pieces: &Vec<Vec<char>>, from: usize, names: &[&[char]]) -> (r: Option<usize>)
    requires
        from <= pieces@.len(),
    ensures
        ({
            let ps = pieces@.map_values(|p: Vec<char>| p@);
            let ns = names@.map_values(|n: &[char]| n@);
            match r {
                Some(k) => from <= k <= pieces@.len() && strip_names(ps.skip(from as int), ns)
                    == Some(ps.skip(k as int)),
                None => strip_names(ps.skip(from as int), ns) is None,
            }
        }),
{
    let ghost ps = pieces@.map_values(|p: Vec<char>| p@);
    let ghost ns = names@.map_values(|n: &[char]| n@);
    let mut i: usize = from;
    let mut j: usize = 0;
    let dot = ['.'];
    assert(dot@ =~= seq!['.']);
    assert(ns.skip(0) =~= ns);
    while j < names.len()
        invariant
            from <= i <= pieces@.len(),
            j <= names@.len(),
            ps == pieces@.map_values(|p: Vec<char>| p@),
            ns == names@.map_values(|n: &[char]| n@),
            dot@ == seq!['.'],
            strip_names(ps.skip(from as int), ns) == strip_names(ps.skip(i as int), ns.skip(j as int)),
        decreases pieces@.len() - i, names@.len() - j,
    {
        if i == pieces.len() {
            assert(ps.skip(i as int).len() == 0);
            return None;
        }
        let piece = pieces[i].as_slice();
        proof {
            assert(ps.skip(i as int)[0] == piece@);
            assert(ps.skip(i as int).skip(1) == ps.skip(i as int + 1));
            assert(ns.skip(j as int)[0] == names@[j as int]@);
            assert(ns.skip(j as int).skip(1) == ns.skip(j as int + 1));
        }
        if piece.len() == 0 || is_word(piece, &dot) {
            i = i + 1;
        } else if is_word(piece, names[j]) {
            i = i + 1;
            j = j + 1;
        } else {
            return None;
        }
    }
    assert(ns.skip(j as int).len() == 0);
    Some(i)
}

/// The components of `path` below `/var/home` or `/home`.
pub fn home_components(path: &str) -> (r: Result<Vec<String>, PathError>)
    ensures
        match r {
            Ok(parts) => home_components_spec(path@) == Ok::<Seq<Seq<char>>, PathError>(
                string_views(parts@),
            ),
            Err(e) => home_components_spec(path@) == Err::<Seq<Seq<char>>, PathError>(e),
        },
{
    let v = chars_of(path);
    if v.len() == 0 || v[0] != '/' {
        return Err(PathError::NotUnderHome);
    }
    let (_, tail) = v.as_slice().split_at(1);
    assert(tail@ == path@.skip(1));
    let pieces = split(tail, '/');
    let ghost ps = pieces@.map_values(|p: Vec<char>| p@);
    assert(ps =~= split_spec(path@.skip(1), '/'));
    let var = ['v', 'a', 'r'];
    let home = ['h', 'o', 'm', 'e'];
    let long: [&[char]; 2] = [&var, &home];
    let short: [&[char]; 1] = [&home];
    assert(long@.map_values(|n: &[char]| n@) =~= seq![var_name(), home_name()]);
    assert(short@.map_values(|n: &[char]| n@) =~= seq![home_name()]);
    assert(ps.skip(0) =~= ps);
    let start = match strip_from(&pieces, 0, &long) {
        Some(k) => k,
        None => match strip_from(&pieces, 0, &short) {
            Some(k) => k,
            None => return Err(PathError::NotUnderHome),
        },
    };
    let ghost rest = ps.skip(start as int);
    assert(below_home_root(path@) == Some(rest));
    let ghost keep = has_name();
    let dot = ['.'];
    let dotdot = ['.', '.'];
    assert(dot@ =~= seq!['.']);
    assert(dotdot@ =~= seq!['.', '.']);
    let mut parts: Vec<String> = Vec::new();
    let mut i: usize = start;
    while i < pieces.len()
        invariant
            start <= i <= pieces@.len(),
            ps == pieces@.map_values(|p: Vec<char>| p@),
            rest == ps.skip(start as int),
            below_home_root(path@) == Some(rest),
            keep == has_name(),
            dot@ == seq!['.'],
            dotdot@ == seq!['.', '.'],
            forall|k: int| 0 <= k < i - start ==> !dot_piece(#[trigger] rest[k]),
            string_views(parts@) == rest.take(i - start).filter(keep),
        decreases pieces@.len() - i,
    {
        let piece = pieces[i].as_slice();
        assert(rest[i - start] == piece@);
        if is_word(piece, &dot) || is_word(piece, &dotdot) {
            assert(dot_piece(rest[i - start]));
            return Err(PathError::NotInsideHome);
        }
        proof {
            assert(rest.take(i - start + 1) == rest.take(i - start).push(piece@));
            rest.take(i - start).lemma_filter_push(piece@, keep);
        }
        if piece.len() > 0 {
            let ghost before = parts@;
            let s = string_of(piece);
            parts.push(s);
            proof {
                lemma_strings_view_push(before, s);
            }
        }
        i = i + 1;
    }
    assert(rest.take(i - start) == rest);
    if parts.len() == 0 {
        return Err(PathError::NotInsideHome);
    }
    Ok(parts)
}

/// `parts` joined with `/`.
pub fn join(parts: &[String]) -> (r: String)
    ensures
        r@ == join_spec(string_views(parts@)),
{
    let mut r = String::new();
    let ghost all = string_views(parts@);
    let mut i: usize = 0;
    while i < parts.len()
        invariant
            i <= parts@.len(),
            all == string_views(parts@),
            r@ == join_spec(all.take(i as int)),
        decreases parts.len() - i,
    {
        proof {
            assert(all.take(i as int + 1).drop_last() == all.take(i as int));
        }
        if i > 0 {
            push_str(&mut r, "/");
            proof {
                reveal_strlit("/");
            }
        }
        push_str(&mut r, parts[i].as_str());
        i = i + 1;
    }
    assert(all.take(i as int) == all);
    r
}

/// `path`, given under `/var/home` or `/home` (a link to it), relative to `/var/home`. Only
/// plain names are accepted below the root: no `..`, no `.`.
pub fn relative_to_home_root(path: &str) -> (r: Result<String, PathError>)
    ensures
        match home_components_spec(path@) {
            Ok(parts) => r matches Ok(rel) && rel@ == join_spec(parts),
            Err(e) => r == Err::<String, PathError>(e),
        },
{
    match home_components(path) {
        Ok(parts) => Ok(join(parts.as_slice())),
        Err(e) => Err(e),
    }
}

/// Where a restore reads and writes.
#[derive(Debug, Clone, PartialEq, Eq)]
pub struct Plan {
    /// The home the path belongs to, `/var/home/<name>`.
    pub home: String,
    /// The directory of the path inside the snapshot, relative to its root; `.` for a whole
    /// home.
    pub parent: String,
    /// The last component: what is copied.
    pub name: String,
    /// Where the copy lands: `<home>/Ripristinati/<snapshot>/`, then the path's directories
    /// below the home, if it has any (the trailing `/` stays when it has none).
    pub destination: String,
}

/// The plan of a restore of the path whose components below the home root are `parts`.
pub open spec fn plan_spec(id: Seq<char>, parts: Seq<Seq<char>>) -> (Seq<char>, Seq<char>, Seq<char>, Seq<char>) {
    let home = HOME_ROOT@ + seq!['/'] + parts[0];
    let parent = if parts.len() == 1 {
        seq!['.']
    } else {
        join_spec(parts.drop_last())
    };
    let base = home + seq!['/'] + RESTORE_DIR@ + seq!['/'] + id;
    let destination = if parts.len() <= 2 {
        base + seq!['/']
    } else {
        base + seq!['/'] + join_spec(parts.drop_last().skip(1))
    };
    (home, parent, parts.last(), destination)
}

/// Why a restore is refused before anything is read.
#[derive(Debug, Clone, Copy, PartialEq, Eq, Structural)]
pub enum RestoreError {
    /// The snapshot name is no snapshot's.
    NotASnapshot,
    Path(PathError),
}

/// What a restore of `path` from snapshot `id` reads and writes, once `id` is known to be
/// a snapshot's name.
pub fn plan(id: &str, path: &str) -> (r: Result<Plan, PathError>)
    ensures
        match home_components_spec(path@) {
            Ok(parts) => r matches Ok(p) && (p.home@, p.parent@, p.name@, p.destination@)
                == plan_spec(id@, parts),
            Err(e) => r == Err::<Plan, PathError>(e),
        },
{
    let parts = match home_components(path) {
        Ok(parts) => parts,
        Err(e) => return Err(e),
    };
    let ghost ps = string_views(parts@);
    proof {
        reveal_strlit("/");
        reveal_strlit(".");
    }
    let n = parts.len();
    let mut home = HOME_ROOT.to_owned();
    push_str(&mut home, "/");
    push_str(&mut home, parts[0].as_str());
    let (dirs, last) = parts.as_slice().split_at(n - 1);
    assert(string_views(dirs@) =~= ps.drop_last());
    let parent = if n == 1 {
        ".".to_owned()
    } else {
        join(dirs)
    };
    let name = last[0].clone();
    assert(name@ == ps.last());
    assert(home@ == HOME_ROOT@ + seq!['/'] + ps[0]);
    let mut destination = home.clone();
    push_str(&mut destination, "/");
    push_str(&mut destination, RESTORE_DIR);
    push_str(&mut destination, "/");
    push_str(&mut destination, id);
    push_str(&mut destination, "/");
    if n > 2 {
        let (_, below) = dirs.split_at(1);
        assert(string_views(below@) =~= ps.drop_last().skip(1));
        push_str(&mut destination, join(below).as_str());
    }
    Ok(Plan { home, parent, name, destination })
}

/// Whether the directory a restore goes to is a user's home: a directory, not a link, and
/// not owned by root, since the copy runs as its owner.
pub fn is_user_home(is_dir: bool, uid: u32) -> (ok: bool)
    ensures
        ok == (is_dir && uid != 0),
{
    is_dir && uid != 0
}

/// `btrfs -q` and the arguments of one of its commands.
pub fn btrfs_args(args: &[&str]) -> (out: Vec<String>)
    ensures
        string_views(out@) == seq!["-q"@] + str_views(args@),
{
    let mut out: Vec<String> = Vec::new();
    out.push("-q".to_owned());
    let mut rest = owned_all(args);
    let ghost first = out@;
    let ghost tail = rest@;
    out.append(&mut rest);
    assert(string_views(out@) =~= string_views(first) + string_views(tail));
    out
}

/// The snapshot named `id` in the snapshot directory.
pub open spec fn snapshot_path(id: Seq<char>) -> Seq<char> {
    SNAPSHOT_DIR@ + seq!['/'] + id
}

fn snapshot_of(id: &str) -> (p: String)
    ensures
        p@ == snapshot_path(id@),
{
    let mut p = SNAPSHOT_DIR.to_owned();
    push_str(&mut p, "/");
    proof {
        reveal_strlit("/");
    }
    push_str(&mut p, id);
    p
}

/// What `btrfs` is given to take the read-only snapshot `id` of the home root.
pub fn create_args(id: &str) -> (out: Vec<String>)
    ensures
        string_views(out@) == seq![
            "-q"@,
            "subvolume"@,
            "snapshot"@,
            "-r"@,
            HOME_ROOT@,
            snapshot_path(id@),
        ],
{
    let target = snapshot_of(id);
    let args: [&str; 5] = ["subvolume", "snapshot", "-r", HOME_ROOT, target.as_str()];
    assert(seq!["-q"@] + str_views(args@) =~= seq![
        "-q"@,
        "subvolume"@,
        "snapshot"@,
        "-r"@,
        HOME_ROOT@,
        snapshot_path(id@),
    ]);
    btrfs_args(&args)
}

/// What `btrfs` is given to delete the snapshot `id`.
pub fn delete_args(id: &str) -> (out: Vec<String>)
    ensures
        string_views(out@) == seq!["-q"@, "subvolume"@, "delete"@, snapshot_path(id@)],
{
    let target = snapshot_of(id);
    let args: [&str; 3] = ["subvolume", "delete", target.as_str()];
    assert(seq!["-q"@] + str_views(args@) =~= seq!["-q"@, "subvolume"@, "delete"@, snapshot_path(id@)]);
    btrfs_args(&args)
}

/// What `setpriv` is given to run `command` as `uid`:`gid` with the user's groups, no
/// capabilities and no way to regain privileges. The caller clears the environment but
/// for `PATH=/usr/bin` and runs it from `/`.
pub fn as_user_args(uid: u32, gid: u32, command: &[&str]) -> (out: Vec<String>)
    ensures
        string_views(out@) == seq![
            "--reuid"@,
            decimal(uid as nat),
            "--regid"@,
            decimal(gid as nat),
            "--init-groups"@,
            "--no-new-privs"@,
            "--inh-caps=-all"@,
            "--bounding-set=-all"@,
            "--"@,
        ] + str_views(command@),
{
    let u = u64_decimal(uid as u64);
    let g = u64_decimal(gid as u64);
    let head: [&str; 9] = [
        "--reuid",
        u.as_str(),
        "--regid",
        g.as_str(),
        "--init-groups",
        "--no-new-privs",
        "--inh-caps=-all",
        "--bounding-set=-all",
        "--",
    ];
    let mut out = owned_all(&head);
    let mut rest = owned_all(command);
    let ghost first = out@;
    let ghost tail = rest@;
    out.append(&mut rest);
    assert(string_views(out@) =~= string_views(first) + string_views(tail));
    assert(str_views(head@) =~= seq![
        "--reuid"@,
        decimal(uid as nat),
        "--regid"@,
        decimal(gid as nat),
        "--init-groups"@,
        "--no-new-privs"@,
        "--inh-caps=-all"@,
        "--bounding-set=-all"@,
        "--"@,
    ]);
    out
}

/// The arguments joined with spaces, as a failure names the command.
pub fn display_args(args: &[&str]) -> (s: String)
    ensures
        s@ == spaced(str_views(args@)),
{
    let mut s = String::new();
    let mut i: usize = 0;
    while i < args.len()
        invariant
            i <= args@.len(),
            s@ == spaced(str_views(args@.take(i as int))),
        decreases args@.len() - i,
    {
        let ghost before = s@;
        if i > 0 {
            push_str(&mut s, " ");
            proof {
                reveal_strlit(" ");
            }
        }
        push_str(&mut s, args[i]);
        proof {
            let v = str_views(args@.take(i as int + 1));
            assert(str_views(args@.take(i as int)) =~= v.drop_last());
            assert(v.last() == args@[i as int]@);
            if i == 0 {
                assert(v.len() == 1);
                assert(s@ =~= v[0]);
            } else {
                assert(s@ =~= spaced(v.drop_last()) + seq![' '] + v.last());
            }
        }
        i = i + 1;
    }
    assert(args@.take(args@.len() as int) =~= args@);
    s
}

/// `/proc/self/fd/<fd>/<name>`: the path through which the copy, running as the user,
/// reaches the file in a snapshot it could not open by path.
pub open spec fn fd_source(parent_fd: i32, name: Seq<char>) -> Seq<char> {
    "/proc/self/fd/"@ + decimal(parent_fd as nat) + seq!['/'] + name
}

/// The two commands of a restore, each run as the home's owner: `mkdir -p` of the
/// destination, then a copy that keeps attributes, shares blocks where it can and refuses
/// to replace a file already there.
pub fn restore_commands(plan: &Plan, parent_fd: i32) -> (r: (Vec<String>, Vec<String>))
    requires
        parent_fd >= 0,
    ensures
        string_views(r.0@) == seq!["mkdir"@, "-p"@, "--"@, plan.destination@],
        string_views(r.1@) == seq![
            "cp"@,
            "-a"@,
            "--reflink=auto"@,
            "--update=none-fail"@,
            "--"@,
            fd_source(parent_fd, plan.name@),
            plan.destination@,
        ],
{
    let mkdir: [&str; 4] = ["mkdir", "-p", "--", plan.destination.as_str()];
    let mut source = "/proc/self/fd/".to_owned();
    push_str(&mut source, u64_decimal(parent_fd as u64).as_str());
    push_str(&mut source, "/");
    proof {
        reveal_strlit("/");
    }
    push_str(&mut source, plan.name.as_str());
    assert((parent_fd as u64) as nat == parent_fd as nat);
    assert(source@ =~= fd_source(parent_fd, plan.name@));
    let copy: [&str; 7] = [
        "cp",
        "-a",
        "--reflink=auto",
        "--update=none-fail",
        "--",
        source.as_str(),
        plan.destination.as_str(),
    ];
    assert(str_views(mkdir@) =~= seq!["mkdir"@, "-p"@, "--"@, plan.destination@]);
    assert(str_views(copy@) =~= seq![
        "cp"@,
        "-a"@,
        "--reflink=auto"@,
        "--update=none-fail"@,
        "--"@,
        fd_source(parent_fd, plan.name@),
        plan.destination@,
    ]);
    (owned_all(&mkdir), owned_all(&copy))
}

/// What the command line asks for.
#[derive(Debug, Clone, PartialEq, Eq)]
pub enum Command {
    Create,
    Prune,
    List,
    Restore { id: String, path: String },
}

/// Why the command line is refused.
#[derive(Debug, Clone, PartialEq, Eq)]
pub enum CommandError {
    /// Not one of the commands: the usage is the message.
    Usage,
    /// A caller that is not root; the message tells it the command to run with sudo.
    NotRoot(String),
}

impl CommandError {
    /// What the tool prints.
    pub fn message(&self) -> (m: String)
        ensures
            match self {
                CommandError::Usage => m@ == USAGE@,
                CommandError::NotRoot(args) => m@ == NOT_ROOT_START@ + args@ + NOT_ROOT_END@,
            },
    {
        match self {
            CommandError::Usage => USAGE.to_owned(),
            CommandError::NotRoot(args) => {
                let mut m = NOT_ROOT_START.to_owned();
                push_str(&mut m, args.as_str());
                push_str(&mut m, NOT_ROOT_END);
                m
            },
        }
    }
}

pub const NOT_ROOT_START: &'static str = "snapshots belong to root: run it as `sudo athanor-backup ";

pub const NOT_ROOT_END: &'static str = "`";

pub open spec fn create_word() -> Seq<char> {
    seq!['c', 'r', 'e', 'a', 't', 'e']
}

pub open spec fn prune_word() -> Seq<char> {
    seq!['p', 'r', 'u', 'n', 'e']
}

pub open spec fn list_word() -> Seq<char> {
    seq!['l', 'i', 's', 't']
}

pub open spec fn restore_word() -> Seq<char> {
    seq!['r', 'e', 's', 't', 'o', 'r', 'e']
}

/// The command `args` name, if any.
pub open spec fn command_spec(args: Seq<Seq<char>>) -> Option<(int, Seq<char>, Seq<char>)> {
    if args.len() == 1 && args[0] == create_word() {
        Some((0, Seq::empty(), Seq::empty()))
    } else if args.len() == 1 && args[0] == prune_word() {
        Some((1, Seq::empty(), Seq::empty()))
    } else if args.len() == 1 && args[0] == list_word() {
        Some((2, Seq::empty(), Seq::empty()))
    } else if args.len() == 3 && args[0] == restore_word() {
        Some((3, args[1], args[2]))
    } else {
        None
    }
}

/// A command as values: its number in `command_spec`, and a restore's two arguments.
pub open spec fn command_view(c: Command) -> (int, Seq<char>, Seq<char>) {
    match c {
        Command::Create => (0, Seq::empty(), Seq::empty()),
        Command::Prune => (1, Seq::empty(), Seq::empty()),
        Command::List => (2, Seq::empty(), Seq::empty()),
        Command::Restore { id, path } => (3, id@, path@),
    }
}

/// The arguments after the program's name joined with spaces, as the sudo hint shows them.
pub open spec fn spaced(args: Seq<Seq<char>>) -> Seq<char>
    decreases args.len(),
{
    if args.len() == 0 {
        Seq::empty()
    } else if args.len() == 1 {
        args[0]
    } else {
        spaced(args.drop_last()) + seq![' '] + args.last()
    }
}

/// The command of the arguments after the program's name: the usage when they name none,
/// and the sudo hint when the caller is not root, since snapshots belong to root.
pub fn command(args: &[String], is_root: bool) -> (r: Result<Command, CommandError>)
    ensures
        match command_spec(string_views(args@)) {
            None => r == Err::<Command, CommandError>(CommandError::Usage),
            Some(c) => if !is_root {
                r matches Err(CommandError::NotRoot(hint)) && hint@ == spaced(string_views(args@))
            } else {
                r matches Ok(cmd) && command_view(cmd) == c
            },
        },
{
    let create = ['c', 'r', 'e', 'a', 't', 'e'];
    let prune = ['p', 'r', 'u', 'n', 'e'];
    let list = ['l', 'i', 's', 't'];
    let restore = ['r', 'e', 's', 't', 'o', 'r', 'e'];
    assert(create@ =~= create_word());
    assert(prune@ =~= prune_word());
    assert(list@ =~= list_word());
    assert(restore@ =~= restore_word());
    let ghost a = string_views(args@);
    let first = if args.len() > 0 {
        chars_of(args[0].as_str())
    } else {
        Vec::new()
    };
    let which: u8 = if args.len() == 1 && same_chars(first.as_slice(), &create) {
        0
    } else if args.len() == 1 && same_chars(first.as_slice(), &prune) {
        1
    } else if args.len() == 1 && same_chars(first.as_slice(), &list) {
        2
    } else if args.len() == 3 && same_chars(first.as_slice(), &restore) {
        3
    } else {
        return Err(CommandError::Usage);
    };
    if !is_root {
        let mut hint = String::new();
        let mut i: usize = 0;
        while i < args.len()
            invariant
                i <= args@.len(),
                a == string_views(args@),
                hint@ == spaced(a.take(i as int)),
            decreases args.len() - i,
        {
            proof {
                assert(a.take(i as int + 1).drop_last() == a.take(i as int));
                reveal_strlit(" ");
            }
            if i > 0 {
                push_str(&mut hint, " ");
            }
            push_str(&mut hint, args[i].as_str());
            i = i + 1;
        }
        assert(a.take(i as int) == a);
        return Err(CommandError::NotRoot(hint));
    }
    match which {
        0 => Ok(Command::Create),
        1 => Ok(Command::Prune),
        2 => Ok(Command::List),
        _ => Ok(Command::Restore { id: args[1].clone(), path: args[2].clone() }),
    }
}

} // verus!

verus! {

/// A time as `NaiveDateTime` holds it: seconds since 1970-01-01 00:00:00, and the
/// nanoseconds within the second (from 1_000_000_000 on, a leap second).
pub type Stamp = (i64, u32);

/// Whether `a` is later than `b`.
pub open spec fn later(a: Stamp, b: Stamp) -> bool {
    a.0 > b.0 || (a.0 == b.0 && a.1 > b.1)
}

/// Whether `a` is later than `b`.
pub fn is_later(a: Stamp, b: Stamp) -> (r: bool)
    ensures
        r == later(a, b),
{
    a.0 > b.0 || (a.0 == b.0 && a.1 > b.1)
}

/// What `NaiveDateTime::parse_from_str` reads from `name` with `ID_FORMAT`.
pub uninterp spec fn parsed_id_time(name: Seq<char>) -> Option<Stamp>;

/// `NaiveDateTime::parse_from_str(name, ID_FORMAT)`, the time read as a `Stamp`.
#[verifier::external_body]
fn parse_id_time(name: &str) -> (r: Option<Stamp>)
    ensures
        r == parsed_id_time(name@),
{
    match chrono::NaiveDateTime::parse_from_str(name, ID_FORMAT) {
        Ok(t) => Some((t.and_utc().timestamp(), t.and_utc().timestamp_subsec_nanos())),
        Err(_) => None,
    }
}

/// What `NaiveDateTime::format` with `ID_FORMAT` writes for a time, when chrono can hold it.
pub uninterp spec fn formatted_id(time: Stamp) -> Option<Seq<char>>;

/// `DateTime::from_timestamp`, then `format(ID_FORMAT)` of its `NaiveDateTime`.
#[verifier::external_body]
fn format_id(time: Stamp) -> (r: Option<String>)
    ensures
        match r {
            Some(s) => formatted_id(time) == Some(s@),
            None => formatted_id(time) is None,
        },
{
    match chrono::DateTime::from_timestamp(time.0, time.1) {
        Some(t) => Some(t.naive_utc().format(ID_FORMAT).to_string()),
        None => None,
    }
}

/// A name is a snapshot's when it reads as a time that is written back as the same name.
pub open spec fn id_spec(name: Seq<char>) -> Option<Stamp> {
    match parsed_id_time(name) {
        Some(t) => if formatted_id(t) == Some(name) {
            Some(t)
        } else {
            None
        },
        None => None,
    }
}

/// The time `name` stands for, given what it reads as (`parsed`) and how that time is
/// written (`written`): a name is a snapshot's only when it is written back unchanged.
pub fn accept_id(name: &str, parsed: Option<Stamp>, written: Option<&str>) -> (r: Option<Stamp>)
    ensures
        r == (match parsed {
            Some(t) => if written matches Some(w) && w@ == name@ {
                Some(t)
            } else {
                None
            },
            None => None,
        }),
{
    match parsed {
        Some(t) => match written {
            Some(w) => {
                let a = chars_of(w);
                let b = chars_of(name);
                if same_chars(a.as_slice(), b.as_slice()) {
                    Some(t)
                } else {
                    None
                }
            },
            None => None,
        },
        None => None,
    }
}

/// The creation time a snapshot name stands for, if `name` is one.
pub fn parse_id(name: &str) -> (r: Option<Stamp>)
    ensures
        r == id_spec(name@),
{
    let parsed = parse_id_time(name);
    match parsed {
        Some(t) => {
            let written = format_id(t);
            match written {
                Some(w) => accept_id(name, parsed, Some(w.as_str())),
                None => None,
            }
        },
        None => None,
    }
}

/// The name of a snapshot taken at `now` (read from the clock by the caller): the time in
/// `ID_FORMAT`, when chrono can hold it.
pub fn snapshot_id(now: Stamp) -> (r: Option<String>)
    ensures
        match r {
            Some(s) => formatted_id(now) == Some(s@),
            None => formatted_id(now) is None,
        },
{
    format_id(now)
}

/// A bucket of the retention: (year, ordinal or ISO week, hour or 0).
pub type Bucket = (i32, u32, u32);

/// The hour of a time: (year, day of the year, hour).
pub uninterp spec fn hour_of(time: Stamp) -> Option<Bucket>;

/// The day of a time: (year, day of the year, 0).
pub uninterp spec fn day_of(time: Stamp) -> Option<Bucket>;

/// The ISO week of a time: (ISO year, ISO week, 0).
pub uninterp spec fn week_of(time: Stamp) -> Option<Bucket>;

/// `DateTime::from_timestamp`, then the year, ordinal and hour of its `NaiveDateTime`.
#[verifier::external_body]
fn hour_bucket(time: Stamp) -> (r: Option<Bucket>)
    ensures
        r == hour_of(time),
{
    match chrono::DateTime::from_timestamp(time.0, time.1) {
        Some(t) => Some((t.naive_utc().year(), t.naive_utc().ordinal(), t.naive_utc().hour())),
        None => None,
    }
}

/// `DateTime::from_timestamp`, then the year and ordinal of its `NaiveDateTime`.
#[verifier::external_body]
fn day_bucket(time: Stamp) -> (r: Option<Bucket>)
    ensures
        r == day_of(time),
{
    match chrono::DateTime::from_timestamp(time.0, time.1) {
        Some(t) => Some((t.naive_utc().year(), t.naive_utc().ordinal(), 0)),
        None => None,
    }
}

/// `DateTime::from_timestamp`, then the `iso_week` of its `NaiveDateTime`.
#[verifier::external_body]
fn week_bucket(time: Stamp) -> (r: Option<Bucket>)
    ensures
        r == week_of(time),
{
    match chrono::DateTime::from_timestamp(time.0, time.1) {
        Some(t) => Some((t.naive_utc().iso_week().year(), t.naive_utc().iso_week().week(), 0)),
        None => None,
    }
}

/// Whether the `i`-th key is the first of its bucket.
pub open spec fn first_of_bucket(keys: Seq<Bucket>, i: int) -> bool {
    !keys.take(i).contains(keys[i])
}

/// How many distinct buckets the keys before `i` fall in.
pub open spec fn buckets_before(keys: Seq<Bucket>, i: int) -> nat
    decreases i,
{
    if i <= 0 {
        0
    } else {
        buckets_before(keys, i - 1) + if first_of_bucket(keys, i - 1) {
            1nat
        } else {
            0nat
        }
    }
}

/// The first time of each new bucket, until `limit` buckets have been seen.
pub open spec fn marks(keys: Seq<Bucket>, limit: nat) -> Seq<bool> {
    Seq::new(keys.len(), |i: int| first_of_bucket(keys, i) && buckets_before(keys, i) < limit)
}

/// The snapshots to keep, given the hour, day and week of each, newest first: the newest of
/// each of the `HOURLY` most recent hours that hold a snapshot, likewise for `DAILY` days
/// and `WEEKLY` ISO weeks; the union survives.
pub open spec fn keep_spec(hours: Seq<Bucket>, days: Seq<Bucket>, weeks: Seq<Bucket>) -> Seq<bool> {
    Seq::new(
        hours.len(),
        |i: int|
            marks(hours, HOURLY as nat)[i] || marks(days, DAILY as nat)[i] || marks(
                weeks,
                WEEKLY as nat,
            )[i],
    )
}

proof fn lemma_buckets_grow(keys: Seq<Bucket>, i: int, j: int)
    requires
        0 <= i <= j,
    ensures
        buckets_before(keys, i) <= buckets_before(keys, j),
    decreases j - i,
{
    if i < j {
        lemma_buckets_grow(keys, i, j - 1);
    }
}

proof fn lemma_push_contains<A>(s: Seq<A>, a: A, x: A)
    ensures
        s.push(a).contains(x) <==> (s.contains(x) || x == a),
{
    if s.contains(x) {
        let m = choose|m: int| 0 <= m < s.len() && #[trigger] s[m] == x;
        assert(s.push(a)[m] == x);
    }
    if x == a {
        assert(s.push(a)[s.len() as int] == a);
    }
    if s.push(a).contains(x) {
        let m = choose|m: int| 0 <= m < s.len() + 1 && #[trigger] s.push(a)[m] == x;
        if m < s.len() {
            assert(s[m] == x);
        }
    }
}

fn same_bucket(a: Bucket, b: Bucket) -> (r: bool)
    ensures
        r == (a == b),
{
    a.0 == b.0 && a.1 == b.1 && a.2 == b.2
}

/// Marks in `kept` the first time of each new bucket until `limit` buckets have been seen.
fn mark(kept: &mut Vec<bool>, keys: &[Bucket], limit: usize)
    requires
        old(kept)@.len() == keys@.len(),
    ensures
        final(kept)@.len() == keys@.len(),
        forall|i: int|
            0 <= i < keys@.len() ==> #[trigger] final(kept)@[i] == (old(kept)@[i] || marks(
                keys@,
                limit as nat,
            )[i]),
{
    broadcast use vstd::seq_lib::group_seq_properties;

    let ghost before = kept@;
    let mut seen: Vec<Bucket> = Vec::new();
    let mut i: usize = 0;
    while i < keys.len() && seen.len() < limit
        invariant
            i <= keys@.len(),
            kept@.len() == keys@.len(),
            before == old(kept)@,
            seen@.len() == buckets_before(keys@, i as int),
            forall|k: Bucket| seen@.contains(k) <==> keys@.take(i as int).contains(k),
            forall|j: int|
                0 <= j < i ==> #[trigger] kept@[j] == (before[j] || marks(keys@, limit as nat)[j]),
            forall|j: int| i <= j < keys@.len() ==> #[trigger] kept@[j] == before[j],
        decreases keys.len() - i,
    {
        let key = keys[i];
        let mut known = false;
        let mut k: usize = 0;
        while k < seen.len()
            invariant
                k <= seen@.len(),
                known == exists|m: int| 0 <= m < k && seen@[m] == key,
            decreases seen.len() - k,
        {
            if same_bucket(seen[k], key) {
                known = true;
            }
            k = k + 1;
        }
        let ghost old_seen = seen@;
        proof {
            assert(keys@.take(i as int + 1) == keys@.take(i as int).push(key));
            assert(known == seen@.contains(key));
            assert(keys@[i as int] == key);
            assert(first_of_bucket(keys@, i as int) == !known);
        }
        if !known {
            seen.push(key);
            kept.set(i, true);
        }
        proof {
            assert forall|x: Bucket| seen@.contains(x) <==> keys@.take(i as int + 1).contains(x) by {
                lemma_push_contains(keys@.take(i as int), key, x);
                lemma_push_contains(old_seen, key, x);
            }
        }
        i = i + 1;
    }
    if i < keys.len() {
        assert forall|j: int| i <= j < keys@.len() implies !(#[trigger] marks(keys@, limit as nat)[j]) by {
            lemma_buckets_grow(keys@, i as int, j);
        }
    }
}

/// The snapshots to keep, given the hour, day and week of each, newest first.
pub fn keep_buckets(hours: &[Bucket], days: &[Bucket], weeks: &[Bucket]) -> (kept: Vec<bool>)
    requires
        hours@.len() == days@.len(),
        hours@.len() == weeks@.len(),
    ensures
        kept@ == keep_spec(hours@, days@, weeks@),
{
    let mut kept: Vec<bool> = Vec::new();
    let mut i: usize = 0;
    while i < hours.len()
        invariant
            i <= hours@.len(),
            kept@.len() == i,
            forall|j: int| 0 <= j < i ==> !(#[trigger] kept@[j]),
        decreases hours.len() - i,
    {
        kept.push(false);
        i = i + 1;
    }
    mark(&mut kept, hours, HOURLY);
    mark(&mut kept, days, DAILY);
    mark(&mut kept, weeks, WEEKLY);
    assert(kept@ =~= keep_spec(hours@, days@, weeks@));
    kept
}

/// The buckets of `times`, when chrono can hold every one of them.
pub open spec fn buckets_of(times: Seq<Stamp>) -> Option<(Seq<Bucket>, Seq<Bucket>, Seq<Bucket>)> {
    if forall|i: int|
        0 <= i < times.len() ==> hour_of(#[trigger] times[i]) is Some && day_of(times[i]) is Some
            && week_of(times[i]) is Some {
        Some(
            (
                times.map_values(|t: Stamp| hour_of(t)->0),
                times.map_values(|t: Stamp| day_of(t)->0),
                times.map_values(|t: Stamp| week_of(t)->0),
            ),
        )
    } else {
        None
    }
}

/// Marks the snapshots to keep, given their times sorted newest first; `None` when chrono
/// cannot hold one of the times.
pub fn keep(times_newest_first: &[Stamp]) -> (kept: Option<Vec<bool>>)
    ensures
        match buckets_of(times_newest_first@) {
            Some((h, d, w)) => kept matches Some(k) && k@ == keep_spec(h, d, w),
            None => kept is None,
        },
{
    let ghost times = times_newest_first@;
    let mut hours: Vec<Bucket> = Vec::new();
    let mut days: Vec<Bucket> = Vec::new();
    let mut weeks: Vec<Bucket> = Vec::new();
    let mut i: usize = 0;
    while i < times_newest_first.len()
        invariant
            times == times_newest_first@,
            i <= times.len(),
            hours@.len() == i,
            days@.len() == i,
            weeks@.len() == i,
            forall|j: int| 0 <= j < i ==> hour_of(#[trigger] times[j]) == Some(hours@[j]),
            forall|j: int| 0 <= j < i ==> day_of(#[trigger] times[j]) == Some(days@[j]),
            forall|j: int| 0 <= j < i ==> week_of(#[trigger] times[j]) == Some(weeks@[j]),
        decreases times.len() - i,
    {
        let t = times_newest_first[i];
        let h = hour_bucket(t);
        let d = day_bucket(t);
        let w = week_bucket(t);
        match (h, d, w) {
            (Some(h), Some(d), Some(w)) => {
                hours.push(h);
                days.push(d);
                weeks.push(w);
            },
            _ => {
                assert(buckets_of(times) is None);
                return None;
            },
        }
        i = i + 1;
    }
    let kept = keep_buckets(hours.as_slice(), days.as_slice(), weeks.as_slice());
    proof {
        let (h, d, w) = buckets_of(times)->0;
        assert(h =~= hours@);
        assert(d =~= days@);
        assert(w =~= weeks@);
    }
    Some(kept)
}

/// Whether `s` is sorted newest first.
pub open spec fn newest_first(s: Seq<(Stamp, String)>) -> bool {
    forall|i: int, j: int| 0 <= i < j < s.len() ==> !later(s[j].0, s[i].0)
}

/// The snapshots among `names`, newest first. Entries not named like a snapshot are left
/// alone.
pub fn snapshots_of(names: Vec<String>) -> (r: Vec<(Stamp, String)>)
    ensures
        newest_first(r@),
        r@.map_values(|e: (Stamp, String)| (e.0, e.1@)).to_multiset() == names@.filter(
            |n: String| id_spec(n@) is Some,
        ).map_values(|n: String| (id_spec(n@)->0, n@)).to_multiset(),
{
    let ghost pick = |n: String| id_spec(n@) is Some;
    let ghost entry = |n: String| (id_spec(n@)->0, n@);
    let ghost shown = |e: (Stamp, String)| (e.0, e.1@);
    let mut r: Vec<(Stamp, String)> = Vec::new();
    let mut i: usize = 0;
    let n = names.len();
    let mut rest = names;
    let ghost all = rest@;
    proof {
        assert(all.take(0).filter(pick) =~= Seq::<String>::empty()) by {
            assert(all.take(0) =~= Seq::<String>::empty());
            Seq::<String>::empty().lemma_filter_len(pick);
        }
        assert(r@.map_values(shown) =~= all.take(0).filter(pick).map_values(entry));
    }
    while i < n
        invariant
            n == all.len(),
            rest@ == all,
            i <= n,
            pick == (|n: String| id_spec(n@) is Some),
            entry == (|n: String| (id_spec(n@)->0, n@)),
            shown == (|e: (Stamp, String)| (e.0, e.1@)),
            newest_first(r@),
            r@.map_values(shown).to_multiset() == all.take(i as int).filter(pick).map_values(
                entry,
            ).to_multiset(),
        decreases n - i,
    {
        let name = rest[i].clone();
        proof {
            assert(all.take(i as int + 1) == all.take(i as int).push(all[i as int]));
            all.take(i as int).lemma_filter_push(all[i as int], pick);
        }
        match parse_id(name.as_str()) {
            Some(time) => {
                let mut at: usize = 0;
                while at < r.len() && !is_later(time, r[at].0)
                    invariant
                        at <= r@.len(),
                        forall|k: int| 0 <= k < at ==> !later(time, #[trigger] r@[k].0),
                    decreases r.len() - at,
                {
                    at = at + 1;
                }
                let ghost old_r = r@;
                r.insert(at, (time, name));
                proof {
                    assert forall|a: int, b: int| 0 <= a < b < r@.len() implies !later(
                        r@[b].0,
                        r@[a].0,
                    ) by {
                        if a < at && b == at {
                        } else if a == at && b > at {
                            assert(r@[b] == old_r[b - 1]);
                            if at < old_r.len() {
                                assert(later(time, old_r[at as int].0));
                                if b - 1 > at {
                                    assert(!later(old_r[b - 1].0, old_r[at as int].0));
                                }
                            }
                        } else if a < at && b > at {
                            assert(r@[b] == old_r[b - 1]);
                            assert(r@[a] == old_r[a]);
                        } else if b < at {
                            assert(r@[b] == old_r[b]);
                            assert(r@[a] == old_r[a]);
                        } else {
                            assert(r@[b] == old_r[b - 1]);
                            assert(r@[a] == old_r[a - 1]);
                        }
                    }
                    assert(r@.map_values(shown) =~= old_r.map_values(shown).insert(
                        at as int,
                        shown((time, name)),
                    ));
                    vstd::seq_lib::to_multiset_insert(
                        old_r.map_values(shown),
                        at as int,
                        shown((time, name)),
                    );
                    assert(name == all[i as int]);
                    assert(pick(all[i as int]));
                    assert(entry(all[i as int]) == shown((time, name)));
                    let pre = all.take(i as int).filter(pick).map_values(entry);
                    assert(all.take(i as int).filter(pick).push(all[i as int]).map_values(entry)
                        =~= pre.push(entry(all[i as int])));
                    assert(all.take(i as int + 1).filter(pick) == all.take(i as int).filter(pick).push(all[i as int]));
                    pre.to_multiset_ensures();
                    assert(pre.push(entry(all[i as int])).to_multiset() == pre.to_multiset().insert(entry(all[i as int])));
                    assert(r@.map_values(shown).to_multiset() == old_r.map_values(shown).to_multiset().insert(shown((time, name))));
                }
            },
            None => {
                assert(!pick(all[i as int]));
            },
        }
        i = i + 1;
    }
    assert(all.take(n as int) == all);
    r
}

} // verus!

verus! {

/// The number of `true` among the first `n` of `s`.
pub open spec fn count_true(s: Seq<bool>, n: int) -> nat
    decreases n,
{
    if n <= 0 {
        0
    } else {
        count_true(s, n - 1) + if s[n - 1] {
            1nat
        } else {
            0nat
        }
    }
}

proof fn lemma_marks_count(keys: Seq<Bucket>, limit: nat, n: int)
    requires
        0 <= n <= keys.len(),
    ensures
        count_true(marks(keys, limit), n) == (if buckets_before(keys, n) < limit {
            buckets_before(keys, n)
        } else {
            limit
        }),
    decreases n,
{
    if n > 0 {
        lemma_marks_count(keys, limit, n - 1);
    }
}

proof fn lemma_union_count(a: Seq<bool>, b: Seq<bool>, c: Seq<bool>, k: Seq<bool>, n: int)
    requires
        0 <= n <= k.len(),
        k.len() == a.len() && k.len() == b.len() && k.len() == c.len(),
        forall|i: int| 0 <= i < k.len() ==> #[trigger] k[i] == (a[i] || b[i] || c[i]),
    ensures
        count_true(k, n) <= count_true(a, n) + count_true(b, n) + count_true(c, n),
    decreases n,
{
    if n > 0 {
        lemma_union_count(a, b, c, k, n - 1);
    }
}

/// At most `HOURLY + DAILY + WEEKLY` snapshots survive a prune, and the newest always does.
pub proof fn a_prune_keeps_the_newest_and_no_more_than_the_limits(
    hours: Seq<Bucket>,
    days: Seq<Bucket>,
    weeks: Seq<Bucket>,
)
    requires
        hours.len() == days.len(),
        hours.len() == weeks.len(),
    ensures
        hours.len() > 0 ==> keep_spec(hours, days, weeks)[0],
        count_true(keep_spec(hours, days, weeks), hours.len() as int) <= HOURLY + DAILY + WEEKLY,
{
    let n = hours.len() as int;
    if n > 0 {
        assert(!hours.take(0).contains(hours[0]));
        assert(marks(hours, HOURLY as nat)[0]);
    }
    lemma_marks_count(hours, HOURLY as nat, n);
    lemma_marks_count(days, DAILY as nat, n);
    lemma_marks_count(weeks, WEEKLY as nat, n);
    lemma_union_count(
        marks(hours, HOURLY as nat),
        marks(days, DAILY as nat),
        marks(weeks, WEEKLY as nat),
        keep_spec(hours, days, weeks),
        n,
    );
}

proof fn lemma_distinct_buckets(keys: Seq<Bucket>, n: int)
    requires
        0 <= n <= keys.len(),
        keys.no_duplicates(),
    ensures
        buckets_before(keys, n) == n,
        forall|i: int| 0 <= i < n ==> first_of_bucket(keys, i),
    decreases n,
{
    if n > 0 {
        lemma_distinct_buckets(keys, n - 1);
        if keys.take(n - 1).contains(keys[n - 1]) {
            let k = choose|k: int| 0 <= k < n - 1 && #[trigger] keys.take(n - 1)[k] == keys[n - 1];
            assert(keys[k] == keys[n - 1]);
        }
    }
}

/// Nothing is pruned below the limits: snapshots in distinct hours, no more of them than
/// `HOURLY`, all survive.
pub proof fn nothing_is_pruned_below_the_limits(hours: Seq<Bucket>, days: Seq<Bucket>, weeks: Seq<Bucket>)
    requires
        hours.len() == days.len(),
        hours.len() == weeks.len(),
        hours.len() <= HOURLY,
        hours.no_duplicates(),
    ensures
        forall|i: int| 0 <= i < hours.len() ==> #[trigger] keep_spec(hours, days, weeks)[i],
{
    lemma_distinct_buckets(hours, hours.len() as int);
    assert forall|i: int| 0 <= i < hours.len() implies #[trigger] keep_spec(hours, days, weeks)[i] by {
        lemma_distinct_buckets(hours, i);
        assert(first_of_bucket(hours, i));
    }
}

/// A snapshot name is written back exactly as it reads: the name of a time is unique.
pub proof fn snapshot_names_round_trip(name: Seq<char>)
    ensures
        id_spec(name) matches Some(t) ==> formatted_id(t) == Some(name),
{
}

/// A path accepted for a restore names something inside a home, by plain names only.
pub proof fn restored_paths_are_plain_names_below_a_home(path: Seq<char>)
    ensures
        home_components_spec(path) matches Ok(parts) ==> parts.len() > 0 && forall|i: int|
            0 <= i < parts.len() ==> (#[trigger] parts[i]).len() > 0 && !dot_piece(parts[i]),
{
    if home_components_spec(path) is Ok {
        let rest = below_home_root(path)->0;
        let parts = named_pieces(rest);
        rest.filter_lemma(has_name());
        assert forall|i: int| 0 <= i < parts.len() implies !dot_piece(#[trigger] parts[i]) by {
            assert(parts.contains(parts[i]));
            rest.lemma_filter_contains_rev(has_name(), parts[i]);
            let j = choose|j: int| 0 <= j < rest.len() && rest[j] == parts[i];
            assert(!dot_piece(rest[j]));
        }
    }
}

/// A restore never writes into the live files: whatever the path, the copy lands under
/// `Ripristinati/<snapshot>` in the home the path belongs to, and what is copied is the
/// path's last component.
pub proof fn a_restore_lands_in_the_restore_directory(id: Seq<char>, path: Seq<char>)
    ensures
        home_components_spec(path) matches Ok(parts) ==> {
            let (home, _parent, name, destination) = plan_spec(id, parts);
            let base = home + seq!['/'] + RESTORE_DIR@ + seq!['/'] + id;
            &&& home == HOME_ROOT@ + seq!['/'] + parts[0]
            &&& destination.len() >= base.len()
            &&& destination.take(base.len() as int) == base
            &&& name == parts.last()
        },
{
    if home_components_spec(path) is Ok {
        let parts = home_components_spec(path)->Ok_0;
        restored_paths_are_plain_names_below_a_home(path);
        let (home, _parent, name, destination) = plan_spec(id, parts);
        let base = home + seq!['/'] + RESTORE_DIR@ + seq!['/'] + id;
        if parts.len() > 2 {
            assert(destination == base + (seq!['/'] + join_spec(parts.drop_last().skip(1))));
            assert(destination.take(base.len() as int) =~= base);
        } else {
            assert(destination == base + seq!['/']);
            assert(destination.take(base.len() as int) =~= base);
        }
    }
}

} // verus!
