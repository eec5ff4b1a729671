//! The shell's write confinement: the directories its unit lets it write to. Applying the
//! Landlock ruleset is the caller's.

use vstd::prelude::*;

use crate::paths::{join, join_spec};

verus! {

/// The view of an optional `&str`.
pub open spec fn opt_view(s: Option<&str>) -> Option<Seq<char>> {
    match s {
        Some(s) => Some(s@),
        None => None,
    }
}

/// An XDG directory: the variable when it is set and not empty, else `fallback` under the
/// home, else none.
pub open spec fn xdg_dir_spec(var: Option<Seq<char>>, home: Option<Seq<char>>, fallback: Seq<char>) -> Option<Seq<char>> {
    match var {
        Some(v) if v.len() > 0 => Some(v),
        _ => match home {
            Some(h) => Some(join_spec(h, fallback)),
            None => None,
        },
    }
}

fn xdg_dir(var: Option<&str>, home: Option<&str>, fallback: &str) -> (r: Option<String>)
    ensures
        match xdg_dir_spec(opt_view(var), opt_view(home), fallback@) {
            Some(d) => r matches Some(s) && s@ == d,
            None => r is None,
        },
{
    match var {
        Some(v) if !v.is_empty() => Some(v.to_owned()),
        _ => match home {
            Some(h) => Some(join(h, fallback)),
            None => None,
        },
    }
}

/// An absolute path.
pub open spec fn absolute(p: Seq<char>) -> bool {
    p.len() > 0 && p[0] == '/'
}

/// The directories before the relative ones are dropped: `/tmp`, the configuration and
/// state directories' `athanor`, and the runtime directory.
pub open spec fn candidates_spec(
    home: Option<Seq<char>>,
    config: Option<Seq<char>>,
    state: Option<Seq<char>>,
    runtime: Option<Seq<char>>,
) -> Seq<Seq<char>> {
    let c = match xdg_dir_spec(config, home, ".config"@) {
        Some(d) => seq![join_spec(d, "athanor"@)],
        None => Seq::empty(),
    };
    let s = match xdg_dir_spec(state, home, ".local/state"@) {
        Some(d) => seq![join_spec(d, "athanor"@)],
        None => Seq::empty(),
    };
    let r = match runtime {
        Some(d) if d.len() > 0 => seq![d],
        _ => Seq::empty(),
    };
    seq!["/tmp"@] + c + s + r
}

/// The directories the unit lets the shell write to, from `$HOME`, `$XDG_CONFIG_HOME`,
/// `$XDG_STATE_HOME` and `$XDG_RUNTIME_DIR`; a relative one is dropped.
pub fn writable_paths(home: Option<&str>, config: Option<&str>, state: Option<&str>, runtime: Option<&str>) -> (paths: Vec<String>)
    ensures
        paths@.map_values(|p: String| p@) == candidates_spec(
            opt_view(home),
            opt_view(config),
            opt_view(state),
            opt_view(runtime),
        ).filter(|p: Seq<char>| absolute(p)),
{
    let mut all: Vec<String> = Vec::new();
    all.push("/tmp".to_owned());
    if let Some(dir) = xdg_dir(config, home, ".config") {
        all.push(join(dir.as_str(), "athanor"));
    }
    if let Some(dir) = xdg_dir(state, home, ".local/state") {
        all.push(join(dir.as_str(), "athanor"));
    }
    if let Some(dir) = runtime {
        if !dir.is_empty() {
            all.push(dir.to_owned());
        }
    }
    let ghost cands = candidates_spec(opt_view(home), opt_view(config), opt_view(state), opt_view(runtime));
    assert(all@.map_values(|p: String| p@) =~= cands);
    let ghost keep = |p: Seq<char>| absolute(p);
    let mut paths: Vec<String> = Vec::new();
    let mut i: usize = 0;
    while i < all.len()
        invariant
            i <= all@.len(),
            cands == all@.map_values(|p: String| p@),
            keep == (|p: Seq<char>| absolute(p)),
            paths@.map_values(|p: String| p@) == cands.take(i as int).filter(keep),
        decreases all.len() - i,
    {
        let p = &all[i];
        proof {
            assert(cands.take(i as int + 1) == cands.take(i as int).push(p@));
            cands.take(i as int).lemma_filter_push(p@, keep);
        }
        let v = crate::chars::chars_of(p.as_str());
        if v.len() > 0 && v[0] == '/' {
            let ghost before = paths@;
            paths.push(p.clone());
            assert(paths@.map_values(|q: String| q@) =~= before.map_values(|q: String| q@).push(p@));
        }
        i = i + 1;
    }
    assert(cands.take(i as int) == cands);
    paths
}

} // verus!
