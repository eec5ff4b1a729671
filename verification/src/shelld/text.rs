//! Text from other processes made safe to show: control characters and bidirectional
//! formatting characters removed, then truncated to a number of characters. Markup is never
//! interpreted, so a tag stays as written.

use vstd::prelude::*;

use crate::chars::push_char;

verus! {

pub const NAME_CHARS: usize = 64;

pub const SUMMARY_CHARS: usize = 256;

pub const BODY_CHARS: usize = 2048;

/// A control character (C0, DEL and C1) or a bidirectional formatting character.
pub open spec fn hidden(c: char) -> bool {
    let u = c as u32;
    ||| u <= 0x1F
    ||| 0x7F <= u <= 0x9F
    ||| u == 0x061C
    ||| u == 0x200E
    ||| u == 0x200F
    ||| 0x202A <= u <= 0x202E
    ||| 0x2066 <= u <= 0x2069
}

/// At most `n` elements of `s`: all of them when it is no longer.
pub open spec fn cap<A>(s: Seq<A>, n: nat) -> Seq<A> {
    if s.len() <= n {
        s
    } else {
        s.take(n as int)
    }
}

/// What a single line keeps of `text`: every visible character, newlines gone.
pub open spec fn line_spec(text: Seq<char>, max_chars: nat) -> Seq<char> {
    cap(text.filter(|c: char| !hidden(c)), max_chars)
}

/// What several lines keep of `text`: `\n` stays, every other hidden character goes.
pub open spec fn lines_spec(text: Seq<char>, max_chars: nat) -> Seq<char> {
    cap(text.filter(|c: char| c == '\n' || !hidden(c)), max_chars)
}

/// A control character (C0 and C1) or a bidirectional formatting character.
pub fn is_hidden(c: char) -> (b: bool)
    ensures
        b == hidden(c),
{
    let u = c as u32;
    u <= 0x1F || (0x7F <= u && u <= 0x9F) || u == 0x061C || u == 0x200E || u == 0x200F || (
    0x202A <= u && u <= 0x202E) || (0x2066 <= u && u <= 0x2069)
}

/// Keeping one more element grows the capped sequence only while it is below the cap.
pub proof fn lemma_cap_step<A>(s: Seq<A>, kept: bool, c: A, n: nat)
    ensures
        kept ==> cap(s.push(c), n) == (if cap(s, n).len() < n {
            cap(s, n).push(c)
        } else {
            cap(s, n)
        }),
{
    if kept {
        if s.len() < n {
            assert(cap(s.push(c), n) == s.push(c));
        } else {
            assert(s.push(c).take(n as int) =~= s.take(n as int));
        }
    }
}

/// The characters of `text` that `keep` accepts, at most `max_chars` of them.
fn filtered(text: &str, max_chars: usize, multiline: bool) -> (out: String)
    ensures
        !multiline ==> out@ == line_spec(text@, max_chars as nat),
        multiline ==> out@ == lines_spec(text@, max_chars as nat),
{
    let ghost pred = if multiline {
        |c: char| c == '\n' || !hidden(c)
    } else {
        |c: char| !hidden(c)
    };
    let mut out = String::new();
    let mut count: usize = 0;
    for c in it: text.chars()
        invariant
            it.seq() == text@,
            pred == (if multiline {
                |c: char| c == '\n' || !hidden(c)
            } else {
                |c: char| !hidden(c)
            }),
            out@ == cap(text@.take(it.index() as int).filter(pred), max_chars as nat),
            count == out@.len(),
    {
        let ghost prefix = text@.take(it.index() as int);
        proof {
            assert(text@.take(it.index() as int + 1) == prefix.push(c));
            prefix.lemma_filter_push(c, pred);
        }
        let keep = if multiline {
            c == '\n' || !is_hidden(c)
        } else {
            !is_hidden(c)
        };
        assert(keep == pred(c));
        if keep {
            proof {
                lemma_cap_step(prefix.filter(pred), true, c, max_chars as nat);
            }
            if count < max_chars {
                push_char(&mut out, c);
                count = count + 1;
            }
        }
    }
    assert(text@.take(text@.len() as int) == text@);
    out
}

/// One line: every control character goes, newlines too.
pub fn line(text: &str, max_chars: usize) -> (out: String)
    ensures
        out@ == line_spec(text@, max_chars as nat),
{
    filtered(text, max_chars, false)
}

/// Several lines: `\n` stays, `\r` and every other control character go.
pub fn lines(text: &str, max_chars: usize) -> (out: String)
    ensures
        out@ == lines_spec(text@, max_chars as nat),
{
    filtered(text, max_chars, true)
}

} // verus!

verus! {

/// A line shows no hidden character, newlines included, and at most `max_chars`.
pub proof fn a_line_shows_no_hidden_character(text: Seq<char>, max_chars: nat)
    ensures
        line_spec(text, max_chars).len() <= max_chars,
        forall|i: int|
            0 <= i < line_spec(text, max_chars).len() ==> !hidden(#[trigger] line_spec(text, max_chars)[i]),
{
    let f = text.filter(|c: char| !hidden(c));
    text.filter_lemma(|c: char| !hidden(c));
    assert forall|i: int| 0 <= i < cap(f, max_chars).len() implies !hidden(#[trigger] cap(f, max_chars)[i]) by {
        assert(cap(f, max_chars)[i] == f[i]);
    }
}

/// Several lines keep `\n` and no other hidden character, at most `max_chars` of them.
pub proof fn lines_keep_only_newlines_of_the_hidden(text: Seq<char>, max_chars: nat)
    ensures
        lines_spec(text, max_chars).len() <= max_chars,
        forall|i: int|
            0 <= i < lines_spec(text, max_chars).len() ==> (#[trigger] lines_spec(text, max_chars)[i] == '\n'
                || !hidden(lines_spec(text, max_chars)[i])),
{
    let f = text.filter(|c: char| c == '\n' || !hidden(c));
    text.filter_lemma(|c: char| c == '\n' || !hidden(c));
    assert forall|i: int| 0 <= i < cap(f, max_chars).len() implies (#[trigger] cap(f, max_chars)[i] == '\n' || !hidden(cap(f, max_chars)[i])) by {
        assert(cap(f, max_chars)[i] == f[i]);
    }
}

} // verus!
