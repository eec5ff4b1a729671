//! Who may call the bar's private notifications interface: a process in the cgroup of
//! athanor-bar.service, read from the caller's credentials on the bus. Informative, as the
//! shield is: a process running as the user can replace that unit.

use vstd::prelude::*;

use crate::chars::{
    chars_of, ends_with, lines, lines_spec, same_chars, split, split_spec, starts_with,
};

verus! {

pub const BAR_UNIT: &'static str = "athanor-bar.service";

/// The unit whose processes are admitted, and the `/proc` whose `<pid>/cgroup` files say
/// where a process runs. Reading that file is the caller's part.
#[derive(Debug, Clone)]
pub struct BarUnit {
    unit: String,
    proc_root: String,
}

impl BarUnit {
    pub closed spec fn unit_spec(&self) -> Seq<char> {
        self.unit@
    }

    pub closed spec fn proc_root_spec(&self) -> Seq<char> {
        self.proc_root@
    }

    pub fn from_proc() -> (bar: BarUnit)
        ensures
            bar.unit_spec() == BAR_UNIT@,
            bar.proc_root_spec() == "/proc"@,
    {
        BarUnit::with_proc_root(BAR_UNIT, "/proc")
    }

    /// Reads `<proc_root>/<pid>/cgroup`. Tests point it at a directory of their own.
    pub fn with_proc_root(unit: &str, proc_root: &str) -> (bar: BarUnit)
        ensures
            bar.unit_spec() == unit@,
            bar.proc_root_spec() == proc_root@,
    {
        BarUnit { unit: unit.to_owned(), proc_root: proc_root.to_owned() }
    }

    pub fn unit(&self) -> (unit: &str)
        ensures
            unit@ == self.unit_spec(),
    {
        self.unit.as_str()
    }

    pub fn proc_root(&self) -> (root: &str)
        ensures
            root@ == self.proc_root_spec(),
    {
        self.proc_root.as_str()
    }
}

/// `0::`, the prefix of the unified hierarchy's line.
pub open spec fn unified_prefix() -> Seq<char> {
    seq!['0', ':', ':']
}

/// The path of the first line of `ls`, from `i` on, that starts with `0::`.
pub open spec fn unified_path_from(ls: Seq<Seq<char>>, i: int) -> Option<Seq<char>>
    decreases ls.len() - i,
{
    if i < 0 || i >= ls.len() {
        None
    } else if ls[i].len() >= 3 && ls[i].take(3) == unified_prefix() {
        Some(ls[i].skip(3))
    } else {
        unified_path_from(ls, i + 1)
    }
}

/// A `.slice`, or the `user@<uid>.service` systemd gives the user manager itself.
pub open spec fn slice_or_user_manager(c: Seq<char>) -> bool {
    let slice = seq!['.', 's', 'l', 'i', 'c', 'e'];
    let user = seq!['u', 's', 'e', 'r', '@'];
    let service = seq!['.', 's', 'e', 'r', 'v', 'i', 'c', 'e'];
    ||| c.len() >= 6 && c.skip(c.len() - 6) == slice
    ||| {
        &&& c.len() > 13
        &&& c.take(5) == user
        &&& c.skip(c.len() - 8) == service
        &&& forall|i: int| 5 <= i < c.len() - 8 ==> '0' <= #[trigger] c[i] <= '9'
    }
}

/// Whether the cgroup text's unified hierarchy (`0::`) path names `unit` exactly: the path is
/// absolute, its last component is `unit` verbatim, and every component before it is a
/// `.slice` or the user manager's `user@<digits>.service`.
pub open spec fn admits_spec(cgroup: Seq<char>, unit: Seq<char>) -> bool {
    match unified_path_from(lines_spec(cgroup), 0) {
        None => false,
        Some(path) => {
            let parts = split_spec(path.skip(1), '/');
            &&& path.len() > 0
            &&& path[0] == '/'
            &&& parts.last() == unit
            &&& forall|j: int| 0 <= j < parts.len() - 1 ==> slice_or_user_manager(#[trigger] parts[j])
        },
    }
}

fn is_slice_or_user_manager(c: &[char]) -> (r: bool)
    ensures
        r == slice_or_user_manager(c@),
{
    let slice = ['.', 's', 'l', 'i', 'c', 'e'];
    let user = ['u', 's', 'e', 'r', '@'];
    let service = ['.', 's', 'e', 'r', 'v', 'i', 'c', 'e'];
    proof {
        assert(slice@ =~= seq!['.', 's', 'l', 'i', 'c', 'e']);
        assert(user@ =~= seq!['u', 's', 'e', 'r', '@']);
        assert(service@ =~= seq!['.', 's', 'e', 'r', 'v', 'i', 'c', 'e']);
    }
    if ends_with(c, &slice) {
        return true;
    }
    if c.len() <= 13 || !starts_with(c, &user) || !ends_with(c, &service) {
        return false;
    }
    let mut i: usize = 5;
    while i < c.len() - 8
        invariant
            c@.len() > 13,
            !(c@.len() >= 6 && c@.skip(c@.len() - 6) == seq!['.', 's', 'l', 'i', 'c', 'e']),
            5 <= i <= c@.len() - 8,
            forall|j: int| 5 <= j < i ==> '0' <= #[trigger] c@[j] <= '9',
        decreases c.len() - 8 - i,
    {
        if c[i] < '0' || c[i] > '9' {
            proof {
                assert(!('0' <= c@[i as int] <= '9'));
            }
            return false;
        }
        i = i + 1;
    }
    true
}

/// Whether the path of a `0::` line, `path`, names `unit` as `admits_spec` says.
fn path_admits(line: &Vec<char>, unit: &str) -> (r: bool)
    requires
        line@.len() >= 3,
    ensures
        ({
            let path = line@.skip(3);
            let parts = split_spec(path.skip(1), '/');
            r == (path.len() > 0 && path[0] == '/' && parts.last() == unit@ && forall|j: int|
                0 <= j < parts.len() - 1 ==> slice_or_user_manager(#[trigger] parts[j]))
        }),
{
    let ghost path = line@.skip(3);
    if line.len() < 4 || line[3] != '/' {
        return false;
    }
    let mut rest: Vec<char> = Vec::new();
    let mut k: usize = 4;
    while k < line.len()
        invariant
            4 <= k <= line@.len(),
            rest@ == line@.subrange(4, k as int),
        decreases line.len() - k,
    {
        rest.push(line[k]);
        assert(line@.subrange(4, k as int + 1) == line@.subrange(4, k as int).push(line@[k as int]));
        k = k + 1;
    }
    assert(rest@ =~= path.skip(1));
    let parts = split(rest.as_slice(), '/');
    proof {
        crate::chars::lemma_split_nonempty(path.skip(1), '/');
    }
    let unit_chars = chars_of(unit);
    if !same_chars(parts[parts.len() - 1].as_slice(), unit_chars.as_slice()) {
        return false;
    }
    let mut j: usize = 0;
    while j < parts.len() - 1
        invariant
            path == line@.skip(3),
            parts@.len() == split_spec(path.skip(1), '/').len(),
            parts@.len() >= 1,
            forall|m: int| 0 <= m < parts@.len() ==> #[trigger] parts@[m]@ == split_spec(path.skip(1), '/')[m],
            j <= parts@.len() - 1,
            forall|m: int| 0 <= m < j ==> slice_or_user_manager(#[trigger] split_spec(path.skip(1), '/')[m]),
        decreases parts.len() - 1 - j,
    {
        if !is_slice_or_user_manager(parts[j].as_slice()) {
            assert(!slice_or_user_manager(split_spec(path.skip(1), '/')[j as int]));
            return false;
        }
        j = j + 1;
    }
    true
}

/// Whether the cgroup text's unified hierarchy (`0::`) path names `unit` exactly: the path is
/// absolute, its last component is `unit` verbatim (no trimming, no descendant of it: a
/// delegated subtree or a scope under it is refused), and every component before it has the
/// shape systemd gives a unit of the user manager, a `.slice` or `user@<digits>.service`:
/// never another `.service` or a `.scope`, which would mean `unit` sits under something else.
pub fn admits_path(cgroup: &str, unit: &str) -> (r: bool)
    ensures
        r == admits_spec(cgroup@, unit@),
{
    let text = chars_of(cgroup);
    let ls = lines(text.as_slice());
    let ghost spec_ls = lines_spec(cgroup@);
    let prefix = ['0', ':', ':'];
    assert(prefix@ =~= unified_prefix());
    let mut i: usize = 0;
    while i < ls.len()
        invariant
            ls@.len() == spec_ls.len(),
            forall|j: int| 0 <= j < ls@.len() ==> #[trigger] ls@[j]@ == spec_ls[j],
            spec_ls == lines_spec(cgroup@),
            i <= ls@.len(),
            prefix@ == unified_prefix(),
            unified_path_from(spec_ls, 0) == unified_path_from(spec_ls, i as int),
        decreases ls.len() - i,
    {
        if starts_with(ls[i].as_slice(), &prefix) {
            assert(unified_path_from(spec_ls, 0) == Some(spec_ls[i as int].skip(3)));
            return path_admits(&ls[i], unit);
        }
        i = i + 1;
    }
    false
}

} // verus!
