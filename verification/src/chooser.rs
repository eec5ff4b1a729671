//! The layout chooser's write confinement: what its Landlock ruleset grants. The chooser
//! writes the user layout document (and a newer one's backup beside it); GTK and Mesa
//! write the cache and the runtime directory; GPU rendering opens the DRM nodes
//! read-write. Building and applying the ruleset is the caller's.

use vstd::prelude::*;

use crate::paths::{join, join_spec};

verus! {

pub const DRM_DEVICE_DIR: &'static str = "/dev/dri";

/// What a grant lets the chooser do beneath its path.
#[derive(Debug, Clone, Copy, PartialEq, Eq, Structural)]
pub enum Access {
    /// Every write access of the first Landlock ABI.
    Write,
    /// Writing to files that exist, and nothing else.
    WriteFile,
}

/// The view of an optional `&str`.
pub open spec fn opt_view(s: Option<&str>) -> Option<Seq<char>> {
    match s {
        Some(s) => Some(s@),
        None => None,
    }
}

/// An absolute path.
pub open spec fn absolute(p: Seq<char>) -> bool {
    p.len() > 0 && p[0] == '/'
}

/// The cache directory: `$XDG_CACHE_HOME` when it is absolute, else `.cache` under `$HOME`.
pub open spec fn cache_spec(cache_home: Option<Seq<char>>, home: Option<Seq<char>>) -> Option<Seq<char>> {
    match cache_home {
        Some(c) if absolute(c) => Some(c),
        _ => match home {
            Some(h) => Some(join_spec(h, ".cache"@)),
            None => None,
        },
    }
}

/// The paths granted the write set, before the relative ones are dropped.
pub open spec fn candidates_spec(
    document_dir: Seq<char>,
    cache_home: Option<Seq<char>>,
    home: Option<Seq<char>>,
    runtime: Option<Seq<char>>,
) -> Seq<Seq<char>> {
    let c = match cache_spec(cache_home, home) {
        Some(d) => seq![d],
        None => Seq::empty(),
    };
    let r = match runtime {
        Some(d) => seq![d],
        None => Seq::empty(),
    };
    seq![document_dir, "/tmp"@] + c + r
}

/// The view of a grant.
pub open spec fn grant_view(g: (String, Access)) -> (Seq<char>, Access) {
    (g.0@, g.1)
}

/// The views of the grants.
pub open spec fn grant_views(v: Seq<(String, Access)>) -> Seq<(Seq<char>, Access)> {
    v.map_values(|g: (String, Access)| grant_view(g))
}

/// The write set on each absolute candidate, in order.
pub open spec fn write_grants(paths: Seq<Seq<char>>) -> Seq<(Seq<char>, Access)>
    decreases paths.len(),
{
    if paths.len() == 0 {
        Seq::empty()
    } else if absolute(paths.last()) {
        write_grants(paths.drop_last()).push((paths.last(), Access::Write))
    } else {
        write_grants(paths.drop_last())
    }
}

fn cache_dir(cache_home: Option<&str>, home: Option<&str>) -> (r: Option<String>)
    ensures
        match cache_spec(opt_view(cache_home), opt_view(home)) {
            Some(d) => r matches Some(s) && s@ == d,
            None => r is None,
        },
{
    if let Some(c) = cache_home {
        let cv = crate::chars::chars_of(c);
        if cv.len() > 0 && cv[0] == '/' {
            return Some(c.to_owned());
        }
    }
    match home {
        Some(h) => Some(join(h, ".cache")),
        None => None,
    }
}

/// The grants for the document's directory `document_dir`, from `$XDG_CACHE_HOME`,
/// `$HOME` and `$XDG_RUNTIME_DIR`: the document's directory, `/tmp`, the cache and the
/// runtime directory with the write set, a relative one dropped; then the DRM nodes with
/// `WriteFile` alone.
pub fn grants(document_dir: &str, cache_home: Option<&str>, home: Option<&str>, runtime: Option<&str>) -> (g: Vec<(String, Access)>)
    ensures
        grant_views(g@) == write_grants(
            candidates_spec(document_dir@, opt_view(cache_home), opt_view(home), opt_view(runtime)),
        ).push((DRM_DEVICE_DIR@, Access::WriteFile)),
{
    let mut paths: Vec<String> = Vec::new();
    paths.push(document_dir.to_owned());
    paths.push("/tmp".to_owned());
    match cache_dir(cache_home, home) {
        Some(c) => paths.push(c),
        None => {},
    }
    match runtime {
        Some(r) => paths.push(r.to_owned()),
        None => {},
    }
    let ghost cands = candidates_spec(document_dir@, opt_view(cache_home), opt_view(home), opt_view(runtime));
    assert(crate::chars::string_views(paths@) =~= cands);
    let mut g: Vec<(String, Access)> = Vec::new();
    let mut i: usize = 0;
    while i < paths.len()
        invariant
            i <= paths@.len(),
            crate::chars::string_views(paths@) == cands,
            grant_views(g@) == write_grants(cands.take(i as int)),
        decreases paths@.len() - i,
    {
        let ghost before = g@;
        let p = paths[i].clone();
        let pv = crate::chars::chars_of(p.as_str());
        assert(cands.take(i as int + 1).drop_last() =~= cands.take(i as int));
        assert(cands[i as int] == paths@[i as int]@);
        if pv.len() > 0 && pv[0] == '/' {
            g.push((p, Access::Write));
            assert(grant_views(g@) =~= grant_views(before).push((cands[i as int], Access::Write)));
        }
        i = i + 1;
    }
    assert(cands.take(paths@.len() as int) =~= cands);
    let ghost before = g@;
    g.push((DRM_DEVICE_DIR.to_owned(), Access::WriteFile));
    assert(grant_views(g@) =~= grant_views(before).push((DRM_DEVICE_DIR@, Access::WriteFile)));
    g
}

} // verus!
