//! The four Secure Boot readings. They are published; they never move the badge. Reading
//! efivarfs and securityfs is the caller's.

use vstd::prelude::*;

use crate::chars::{chars_of, is_white, string_of, white};

verus! {

pub const EFI_GLOBAL: &'static str = "8be4df61-93ca-11d2-aa0d-00e098032b8c";

pub const SHIM_LOCK: &'static str = "605dab50-e046-4300-abb6-3dd810dd8b23";

/// The readings, each `None` when it cannot be read.
#[derive(Debug, Clone, PartialEq, Eq)]
pub struct SecureBoot {
    pub secure_boot: Option<u8>,
    pub setup_mode: Option<u8>,
    pub mok_sb_state: Option<u8>,
    pub lockdown: Option<String>,
}

/// The value of an efivarfs variable: four attribute bytes come first.
pub fn efi_value(content: Option<&[u8]>) -> (v: Option<u8>)
    ensures
        v == match content {
            Some(c) => if c@.len() > 4 {
                Some(c@[4])
            } else {
                None
            },
            None => None,
        },
{
    match content {
        Some(c) => if c.len() > 4 {
            Some(c[4])
        } else {
            None
        },
        None => None,
    }
}

/// The words of `s`, as `str::split_whitespace` gives them.
pub open spec fn words_spec(s: Seq<char>) -> Seq<Seq<char>>
    decreases s.len(),
{
    if s.len() == 0 {
        Seq::empty()
    } else {
        let before = words_spec(s.drop_last());
        let c = s.last();
        if white(c) {
            before
        } else if s.len() >= 2 && !white(s[s.len() - 2]) && before.len() > 0 {
            before.update(before.len() - 1, before.last().push(c))
        } else {
            before.push(seq![c])
        }
    }
}

/// A word in brackets: the mode in force.
pub open spec fn bracketed(w: Seq<char>) -> bool {
    w.len() >= 2 && w[0] == '[' && w.last() == ']'
}

/// The first bracketed word, without its brackets.
pub open spec fn first_bracketed(words: Seq<Seq<char>>) -> Option<Seq<char>>
    decreases words.len(),
{
    if words.len() == 0 {
        None
    } else if bracketed(words[0]) {
        Some(words[0].subrange(1, words[0].len() - 1))
    } else {
        first_bracketed(words.skip(1))
    }
}

proof fn lemma_words_last(s: Seq<char>)
    requires
        s.len() > 0,
        !white(s.last()),
    ensures
        words_spec(s).len() > 0,
{
}

/// The words of `text`.
fn words(text: &[char]) -> (w: Vec<Vec<char>>)
    ensures
        w@.len() == words_spec(text@).len(),
        forall|i: int| 0 <= i < w@.len() ==> #[trigger] w@[i]@ == words_spec(text@)[i],
{
    let mut w: Vec<Vec<char>> = Vec::new();
    let mut i: usize = 0;
    while i < text.len()
        invariant
            i <= text@.len(),
            w@.len() == words_spec(text@.take(i as int)).len(),
            forall|j: int| 0 <= j < w@.len() ==> #[trigger] w@[j]@ == words_spec(text@.take(i as int))[j],
        decreases text.len() - i,
    {
        let c = text[i];
        let ghost prefix = text@.take(i as int + 1);
        proof {
            assert(prefix.drop_last() == text@.take(i as int));
            assert(prefix.last() == c);
            if i >= 1 {
                assert(prefix[prefix.len() - 2] == text@[i - 1]);
                if !white(text@[i - 1]) {
                    assert(text@.take(i as int).last() == text@[i - 1]);
                    lemma_words_last(text@.take(i as int));
                }
            }
        }
        if !is_white(c) {
            if i >= 1 && !is_white(text[i - 1]) && w.len() > 0 {
                let last = w.len() - 1;
                let mut word: Vec<char> = Vec::new();
                std::mem::swap(&mut word, &mut w[last]);
                word.push(c);
                w.set(last, word);
            } else {
                let mut word: Vec<char> = Vec::new();
                word.push(c);
                assert(word@ =~= seq![c]);
                w.push(word);
            }
        }
        i = i + 1;
    }
    assert(text@.take(i as int) == text@);
    w
}

/// `none [integrity] confidentiality` reads `integrity`: the first word in brackets.
pub fn lockdown_mode(text: &str) -> (r: Option<String>)
    ensures
        match first_bracketed(words_spec(text@)) {
            Some(m) => r matches Some(s) && s@ == m,
            None => r is None,
        },
{
    let v = chars_of(text);
    let w = words(v.as_slice());
    let ghost all = words_spec(text@);
    assert(all.skip(0) =~= all);
    let mut i: usize = 0;
    while i < w.len()
        invariant
            i <= w@.len(),
            all == words_spec(text@),
            w@.len() == all.len(),
            forall|j: int| 0 <= j < w@.len() ==> #[trigger] w@[j]@ == all[j],
            first_bracketed(all) == first_bracketed(all.skip(i as int)),
        decreases w.len() - i,
    {
        let word = w[i].as_slice();
        proof {
            assert(all.skip(i as int)[0] == word@);
            assert(all.skip(i as int).skip(1) == all.skip(i as int + 1));
        }
        if word.len() >= 2 && word[0] == '[' && word[word.len() - 1] == ']' {
            let (_, tail) = word.split_at(1);
            let (inner, _) = tail.split_at(tail.len() - 1);
            assert(inner@ =~= word@.subrange(1, word@.len() - 1));
            return Some(string_of(inner));
        }
        i = i + 1;
    }
    assert(all.skip(i as int).len() == 0);
    None
}

/// The readings, from what the caller read: the three variables' files and the lockdown
/// file.
pub fn read(
    secure_boot: Option<&[u8]>,
    setup_mode: Option<&[u8]>,
    mok_sb_state: Option<&[u8]>,
    lockdown: Option<&str>,
) -> (r: SecureBoot)
    ensures
        r.secure_boot == match secure_boot {
            Some(c) => if c@.len() > 4 { Some(c@[4]) } else { None },
            None => None,
        },
        r.setup_mode == match setup_mode {
            Some(c) => if c@.len() > 4 { Some(c@[4]) } else { None },
            None => None,
        },
        r.mok_sb_state == match mok_sb_state {
            Some(c) => if c@.len() > 4 { Some(c@[4]) } else { None },
            None => None,
        },
        match lockdown {
            Some(t) => match first_bracketed(words_spec(t@)) {
                Some(m) => r.lockdown matches Some(s) && s@ == m,
                None => r.lockdown is None,
            },
            None => r.lockdown is None,
        },
{
    SecureBoot {
        secure_boot: efi_value(secure_boot),
        setup_mode: efi_value(setup_mode),
        mok_sb_state: efi_value(mok_sb_state),
        lockdown: match lockdown {
            Some(t) => lockdown_mode(t),
            None => None,
        },
    }
}

} // verus!
