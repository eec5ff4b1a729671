//! The translations of the greeter and the layout chooser. The library reads no catalog:
//! every message is its own id, as it is when the catalog of the language is missing, and
//! placeholders are filled in the same way either way.

use vstd::prelude::*;

use crate::chars::{chars_of, occurs_at, push_char, push_str};

verus! {

pub const GREETER_DOMAIN: &'static str = "athanor-greeter-ui";

pub const CHOOSER_DOMAIN: &'static str = "athanor-layout-chooser";

/// `str::replace`: every occurrence of `pattern`, from the left and without overlapping,
/// replaced by `value`.
pub open spec fn replace_spec(text: Seq<char>, pattern: Seq<char>, value: Seq<char>) -> Seq<char>
    decreases text.len(),
{
    if pattern.len() == 0 || text.len() < pattern.len() {
        text
    } else if text.take(pattern.len() as int) == pattern {
        value + replace_spec(text.skip(pattern.len() as int), pattern, value)
    } else {
        seq![text[0]] + replace_spec(text.skip(1), pattern, value)
    }
}

/// `text` with every occurrence of `pattern` replaced by `value`.
pub fn replace(text: &str, pattern: &str, value: &str) -> (r: String)
    requires
        pattern@.len() > 0,
    ensures
        r@ == replace_spec(text@, pattern@, value@),
{
    let t = chars_of(text);
    let p = chars_of(pattern);
    let mut out = String::new();
    let mut i: usize = 0;
    assert(t@.skip(0) =~= t@);
    while i < t.len()
        invariant
            t@ == text@,
            p@ == pattern@,
            p@.len() > 0,
            i <= t@.len(),
            replace_spec(text@, pattern@, value@) == out@ + replace_spec(t@.skip(i as int), p@, value@),
        decreases t.len() - i,
    {
        let ghost rest = t@.skip(i as int);
        if p.len() <= t.len() - i && at(t.as_slice(), p.as_slice(), i) {
            proof {
                assert(rest.take(p@.len() as int) =~= t@.subrange(i as int, i + p@.len()));
                assert(rest.skip(p@.len() as int) =~= t@.skip(i + p@.len()));
                assert(out@ + (value@ + replace_spec(t@.skip(i + p@.len()), p@, value@)) =~= (out@ + value@)
                    + replace_spec(t@.skip(i + p@.len()), p@, value@));
            }
            push_str(&mut out, value);
            i = i + p.len();
        } else {
            proof {
                if rest.len() >= p@.len() {
                    assert(rest.take(p@.len() as int) =~= t@.subrange(i as int, i + p@.len()));
                }
                assert(rest.skip(1) =~= t@.skip(i + 1));
                assert(rest[0] == t@[i as int]);
                assert(out@ + (seq![t@[i as int]] + replace_spec(t@.skip(i + 1), p@, value@)) =~= out@.push(
                    t@[i as int],
                ) + replace_spec(t@.skip(i + 1), p@, value@));
            }
            push_char(&mut out, t[i]);
            i = i + 1;
        }
    }
    assert(t@.skip(i as int).len() == 0);
    assert(out@ + t@.skip(i as int) =~= out@);
    out
}

/// Whether `p` occurs in `t` at `i`.
fn at(t: &[char], p: &[char], i: usize) -> (r: bool)
    requires
        i + p.len() <= t.len(),
    ensures
        r == (t@.subrange(i as int, i + p@.len()) == p@),
{
    let mut j: usize = 0;
    while j < p.len()
        invariant
            i + p.len() <= t.len(),
            j <= p@.len(),
            forall|k: int| 0 <= k < j ==> t@[i + k] == p@[k],
        decreases p.len() - j,
    {
        if t[i + j] != p[j] {
            assert(t@.subrange(i as int, i + p@.len())[j as int] != p@[j as int]);
            return false;
        }
        j = j + 1;
    }
    assert(t@.subrange(i as int, i + p@.len()) =~= p@);
    true
}

/// The translation of `msgid`: the id itself, as no catalog is read.
pub fn tr(msgid: &str) -> (r: String)
    ensures
        r@ == msgid@,
{
    msgid.to_owned()
}

/// `{key}`: the placeholder a message holds for the value of `key`.
pub open spec fn placeholder(key: Seq<char>) -> Seq<char> {
    seq!['{'] + key + seq!['}']
}

/// The translation of `msgid` with `{key}` replaced by `value`. Translators move the
/// placeholder freely; a value is never part of a message id, and a placeholder the value
/// brings with it is left as it is.
pub fn tr_with(msgid: &str, key: &str, value: &str) -> (r: String)
    ensures
        r@ == replace_spec(msgid@, placeholder(key@), value@),
{
    let text = tr(msgid);
    let mut pattern = String::new();
    push_char(&mut pattern, '{');
    push_str(&mut pattern, key);
    push_char(&mut pattern, '}');
    assert(pattern@ =~= placeholder(key@));
    replace(text.as_str(), pattern.as_str(), value)
}

/// Whether the language in use is written right to left: English, the language of the ids,
/// is not.
pub fn is_rtl() -> (r: bool)
    ensures
        !r,
{
    false
}

} // verus!
