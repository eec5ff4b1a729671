//! What `athanor-update` keeps on disk, as values: where each record lives, how a record
//! reads, and when the newest booted build time is written again.

use vstd::prelude::*;

use crate::chars::{
    chars_of, i64_decimal, i64_text, lemma_signed_decimal_reads_back, lemma_trim_line, parse_i64, push_str,
    signed_decimal, string_of, trim, trim_spec, white,
};
use crate::paths::{join, join_spec, path_exists};

verus! {

/// The two directories of the service.
#[derive(Debug, Clone, PartialEq, Eq)]
pub struct Store {
    /// `/run/athanor-update`: the lock and `state.json`.
    pub run: String,
    /// `/var/lib/athanor-update`: the records and the signature objects.
    pub var: String,
}

impl Store {
    /// The directories of an installed machine.
    pub fn system() -> (s: Store)
        ensures
            s.run@ == "/run/athanor-update"@,
            s.var@ == "/var/lib/athanor-update"@,
    {
        Store { run: "/run/athanor-update".to_owned(), var: "/var/lib/athanor-update".to_owned() }
    }

    /// A record that holds one line, from the text of its file: `None` when the file is
    /// missing or holds only blanks.
    pub fn held(text: Option<&str>) -> (r: Option<String>)
        ensures
            string_opt_view(r) == line_opt(text),
    {
        match text {
            Some(t) => line_of(t),
            None => None,
        }
    }

    /// The digest that the policy last refused, from the text of its record.
    pub fn refused(text: Option<&str>) -> (r: Option<String>)
        ensures
            string_opt_view(r) == line_opt(text),
    {
        Store::held(text)
    }

    /// When the registry last answered a check, from the text of its record.
    pub fn last_success(text: Option<&str>) -> (r: Option<i64>)
        ensures
            r == match line_opt(text) {
                Some(l) => i64_text(l),
                None => None,
            },
    {
        number_of(text)
    }

    /// Whether `athanor-update migrate` has run: its stamp exists. What the disk holds is
    /// not stated.
    pub fn migrated(&self) -> bool {
        path_exists(self.record("migrated").as_str())
    }

    /// The record `name` under `var`, written whole with one line of text.
    fn line_record(&self, name: &str, line: &str) -> (w: Replace)
        ensures
            w.dir@ == self.var@,
            w.name@ == name@,
            w.mode == RECORD_MODE,
            w.contents@ == line@.push('\n'),
    {
        let mut contents = line.to_owned();
        push_str(&mut contents, "\n");
        proof {
            reveal_strlit("\n");
        }
        Replace { dir: self.var.clone(), name: name.to_owned(), mode: RECORD_MODE, contents }
    }

    /// Holds `digest` back: the user went back from it, and nothing releases it.
    pub fn set_held(&self, digest: &str) -> (w: Replace)
        ensures
            w.dir@ == self.var@,
            w.name@ == "held"@,
            w.mode == RECORD_MODE,
            w.contents@ == digest@.push('\n'),
    {
        self.line_record("held", digest)
    }

    /// Records the digest the policy refused, or clears the record.
    pub fn set_refused(&self, digest: Option<&str>) -> (c: Change)
        ensures
            match digest {
                Some(d) => c matches Change::Replace(w) && w.dir@ == self.var@ && w.name@
                    == "refused"@ && w.mode == RECORD_MODE && w.contents@ == d@.push('\n'),
                None => c matches Change::Remove(p) && p@ == join_spec(self.var@, "refused"@),
            },
    {
        match digest {
            Some(d) => Change::Replace(self.line_record("refused", d)),
            None => Change::Remove(self.record("refused")),
        }
    }

    /// Records a build time, or any other count of seconds, in decimal.
    pub fn set_number(&self, name: &str, value: i64) -> (w: Replace)
        ensures
            w.dir@ == self.var@,
            w.name@ == name@,
            w.mode == RECORD_MODE,
            w.contents@ == signed_decimal(value as int).push('\n'),
    {
        let text = i64_decimal(value);
        self.line_record(name, text.as_str())
    }

    /// Records when the registry last answered a check.
    pub fn set_last_success(&self, now: i64) -> (w: Replace)
        ensures
            w.dir@ == self.var@,
            w.name@ == "last-success"@,
            w.mode == RECORD_MODE,
            w.contents@ == signed_decimal(now as int).push('\n'),
    {
        self.set_number("last-success", now)
    }

    /// Stamps the migration: an empty record.
    pub fn set_migrated(&self) -> (w: Replace)
        ensures
            w.dir@ == self.var@,
            w.name@ == "migrated"@,
            w.mode == RECORD_MODE,
            w.contents@.len() == 0,
    {
        Replace { dir: self.var.clone(), name: "migrated".to_owned(), mode: RECORD_MODE, contents: String::new() }
    }

    /// The path of the record `name` under `var`.
    pub fn record(&self, name: &str) -> (p: String)
        ensures
            p@ == join_spec(self.var@, name@),
    {
        join(self.var.as_str(), name)
    }

    /// The directory of the signature object of `digest`; `None` for anything but
    /// `sha256:` and 64 lowercase hexadecimal digits.
    pub fn signature_dir(&self, digest: &str) -> (r: Option<String>)
        ensures
            match signature_hex(digest@) {
                Some(hex) => r matches Some(p) && p@ == join_spec(
                    join_spec(self.var@, "signatures"@),
                    hex,
                ),
                None => r is None,
            },
    {
        let d = chars_of(digest);
        let prefix = chars_of("sha256:");
        proof {
            reveal_strlit("sha256:");
        }
        if d.len() != 71 || !crate::chars::starts_with(d.as_slice(), prefix.as_slice()) {
            return None;
        }
        let mut i: usize = 7;
        while i < 71
            invariant
                d@ == digest@,
                d@.len() == 71,
                7 <= i <= 71,
                forall|j: int| 7 <= j < i ==> lower_hex(#[trigger] d@[j]),
            decreases 71 - i,
        {
            let c = d[i];
            if !(('0' <= c && c <= '9') || ('a' <= c && c <= 'f')) {
                assert(!lower_hex(digest@[i as int]));
                return None;
            }
            i = i + 1;
        }
        let (_, hex) = d.as_slice().split_at(7);
        let dir = join(self.var.as_str(), "signatures");
        Some(join(dir.as_str(), string_of(hex).as_str()))
    }
}

/// The mode of the records and of the published state: readable by all.
pub const RECORD_MODE: u32 = 0o644;

/// A file to replace whole: written under a temporary name in `dir`, then renamed to `name`.
pub struct Replace {
    pub dir: String,
    pub name: String,
    pub mode: u32,
    pub contents: String,
}

/// A change to a record: replace it, or remove the file at a path (a missing file is fine).
pub enum Change {
    Replace(Replace),
    Remove(String),
}

/// The view of an optional `String`.
pub open spec fn string_opt_view(s: Option<String>) -> Option<Seq<char>> {
    match s {
        Some(s) => Some(s@),
        None => None,
    }
}

/// What a one-line record holds, from the text of its file when there is one.
pub open spec fn line_opt(text: Option<&str>) -> Option<Seq<char>> {
    match text {
        Some(t) => line_spec(t@),
        None => None,
    }
}

/// A lowercase hexadecimal digit.
pub open spec fn lower_hex(c: char) -> bool {
    ('0' <= c <= '9') || ('a' <= c <= 'f')
}

/// The hexadecimal part of a `sha256:` digest of 64 lowercase digits.
pub open spec fn signature_hex(digest: Seq<char>) -> Option<Seq<char>> {
    if digest.len() == 71 && digest.take(7) == "sha256:"@ && forall|i: int|
        7 <= i < 71 ==> lower_hex(#[trigger] digest[i]) {
        Some(digest.skip(7))
    } else {
        None
    }
}

/// What a record holds: its text trimmed, when something is left.
pub open spec fn line_spec(text: Seq<char>) -> Option<Seq<char>> {
    if trim_spec(text).len() > 0 {
        Some(trim_spec(text))
    } else {
        None
    }
}

pub fn line_of(text: &str) -> (r: Option<String>)
    ensures
        match line_spec(text@) {
            Some(l) => r matches Some(s) && s@ == l,
            None => r is None,
        },
{
    let v = chars_of(text);
    let t = trim(v.as_slice());
    if t.len() > 0 {
        Some(string_of(t.as_slice()))
    } else {
        None
    }
}

/// A record that holds a number: `None` when missing or not a number.
pub fn number_of(text: Option<&str>) -> (r: Option<i64>)
    ensures
        r == match text {
            Some(t) => match line_spec(t@) {
                Some(l) => i64_text(l),
                None => None,
            },
            None => None,
        },
{
    match text {
        Some(t) => match line_of(t) {
            Some(l) => {
                let v = chars_of(l.as_str());
                parse_i64(v.as_slice())
            },
            None => None,
        },
        None => None,
    }
}

/// The newest build time booted so far, from the text of its record: 0 when there is none.
pub fn newest_booted(text: Option<&str>) -> (n: i64)
    ensures
        n == match text {
            Some(t) => match line_spec(t@) {
                Some(l) => match i64_text(l) {
                    Some(v) => v,
                    None => 0,
                },
                None => 0,
            },
            None => 0,
        },
{
    match number_of(text) {
        Some(v) => v,
        None => 0,
    }
}

/// The record after booting an image built at `build_time`: it only grows. `Some` is the
/// value to write; `None` leaves the record as it is.
pub fn record_booted(build_time: i64, newest: i64) -> (write: Option<i64>)
    ensures
        write == (if build_time <= newest {
            None
        } else {
            Some(build_time)
        }),
{
    if build_time <= newest {
        None
    } else {
        Some(build_time)
    }
}

/// The newest build time once `record_booted` has been applied.
pub open spec fn newest_after(build_time: i64, newest: i64) -> i64 {
    if build_time <= newest {
        newest
    } else {
        build_time
    }
}

/// The record of the newest booted build time never decreases, and holds every build time
/// booted.
pub proof fn newest_booted_only_grows(build_time: i64, newest: i64)
    ensures
        newest_after(build_time, newest) >= newest,
        newest_after(build_time, newest) >= build_time,
        newest_after(newest_after(build_time, newest), newest) == newest_after(build_time, newest),
{
}

/// A one-line record written for a text that neither starts nor ends with white space (a
/// digest) reads back as that text.
pub proof fn a_written_line_reads_back(d: Seq<char>)
    requires
        d.len() > 0,
        !white(d[0]),
        !white(d.last()),
    ensures
        line_spec(d.push('\n')) == Some(d),
{
    lemma_trim_line(d);
}

/// A record written for a number (`set_number`, `set_last_success`) reads back as that
/// number.
pub proof fn a_written_number_reads_back(v: i64)
    ensures
        line_spec(signed_decimal(v as int).push('\n')) == Some(signed_decimal(v as int)),
        i64_text(signed_decimal(v as int)) == Some(v),
{
    lemma_signed_decimal_reads_back(v);
    let t = signed_decimal(v as int);
    assert(!white(t[0]));
    assert(!white(t[t.len() - 1]));
    lemma_trim_line(t);
}

/// The held digest and the refused digest are different records, so clearing the refusal
/// leaves what is held.
pub proof fn held_and_refused_are_apart(var: Seq<char>)
    ensures
        join_spec(var, "held"@) != join_spec(var, "refused"@),
{
    reveal_strlit("held");
    reveal_strlit("refused");
    assert(join_spec(var, "held"@).len() + 3 == join_spec(var, "refused"@).len());
}

} // verus!
