//! Where a picture comes from when it is named rather than sent: an icon name of the theme
//! or a local file, never a remote URL.

use vstd::prelude::*;
use vstd::string::StrSliceExecFns;
use vstd::utf8::{decode_utf8, encode_utf8, valid_utf8};

use crate::chars::{chars_of, starts_with, string_from_utf8};

verus! {

#[derive(Debug, Clone, PartialEq, Eq)]
pub enum Icon {
    Name(String),
    File(String),
}

/// An icon as a value: the kind and its characters.
pub enum IconView {
    Name(Seq<char>),
    File(Seq<char>),
}

impl View for Icon {
    type V = IconView;

    open spec fn view(&self) -> IconView {
        match self {
            Icon::Name(name) => IconView::Name(name@),
            Icon::File(file) => IconView::File(file@),
        }
    }
}

impl Icon {
    /// A copy of this icon.
    pub fn duplicate(&self) -> (r: Icon)
        ensures
            r@ == self@,
    {
        match self {
            Icon::Name(name) => Icon::Name(name.clone()),
            Icon::File(file) => Icon::File(file.clone()),
        }
    }
}


pub const NAME_BYTES: usize = 128;

pub const PATH_BYTES: usize = 4096;

/// `file://`
pub open spec fn file_scheme() -> Seq<char> {
    seq!['f', 'i', 'l', 'e', ':', '/', '/']
}

/// A control character: C0, DEL or C1.
pub open spec fn control(c: char) -> bool {
    (c as u32) <= 0x1F || (0x7F <= (c as u32) && (c as u32) <= 0x9F)
}

/// A character an icon name may hold.
pub open spec fn name_char(c: char) -> bool {
    ||| 'a' <= c <= 'z'
    ||| 'A' <= c <= 'Z'
    ||| '0' <= c <= '9'
    ||| c == '-'
    ||| c == '_'
    ||| c == '.'
    ||| c == '+'
}

/// A name of the icon theme: ASCII letters, digits and `-_.+`, not starting with `.`, at
/// most `NAME_BYTES` bytes.
pub open spec fn name_ok(v: Seq<char>) -> bool {
    &&& v.len() > 0
    &&& encode_utf8(v).len() <= NAME_BYTES
    &&& v[0] != '.'
    &&& forall|i: int| 0 <= i < v.len() ==> name_char(#[trigger] v[i])
}

/// A `..` component: two dots between slashes or the ends of the path.
pub open spec fn dotdot_at(p: Seq<char>, i: int) -> bool {
    &&& 0 <= i
    &&& i + 2 <= p.len()
    &&& p[i] == '.'
    &&& p[i + 1] == '.'
    &&& (i == 0 || p[i - 1] == '/')
    &&& (i + 2 == p.len() || p[i + 2] == '/')
}

/// An absolute path with no `..` component and no control character, at most `PATH_BYTES`
/// bytes long.
pub open spec fn local_ok(p: Seq<char>) -> bool {
    &&& p.len() > 0
    &&& p[0] == '/'
    &&& encode_utf8(p).len() <= PATH_BYTES
    &&& forall|i: int| 0 <= i < p.len() ==> !control(#[trigger] p[i])
    &&& !exists|i: int| dotdot_at(p, i)
}

pub open spec fn is_hex_byte(b: u8) -> bool {
    (0x30 <= b <= 0x39) || (0x41 <= b <= 0x46) || (0x61 <= b <= 0x66)
}

pub open spec fn hex_value(b: u8) -> int {
    if 0x30 <= b <= 0x39 {
        b - 0x30
    } else if 0x41 <= b <= 0x46 {
        b - 0x41 + 10
    } else {
        b - 0x61 + 10
    }
}

/// The `%XX` escapes of a file URI decoded; `None` when an escape is malformed.
pub open spec fn percent_decoded(b: Seq<u8>) -> Option<Seq<u8>>
    decreases b.len(),
{
    if b.len() == 0 {
        Some(Seq::empty())
    } else if b[0] == 0x25 {
        if b.len() < 3 || !is_hex_byte(b[1]) || !is_hex_byte(b[2]) {
            None
        } else {
            match percent_decoded(b.skip(3)) {
                Some(rest) => Some(seq![(hex_value(b[1]) * 16 + hex_value(b[2])) as u8] + rest),
                None => None,
            }
        }
    } else {
        match percent_decoded(b.skip(1)) {
            Some(rest) => Some(seq![b[0]] + rest),
            None => None,
        }
    }
}

/// The text of a file URI with its `%XX` escapes decoded; `None` when an escape is malformed
/// or the decoded bytes are not UTF-8.
pub open spec fn percent_decoded_text(t: Seq<char>) -> Option<Seq<char>> {
    match percent_decoded(encode_utf8(t)) {
        Some(bytes) => if valid_utf8(bytes) {
            Some(decode_utf8(bytes))
        } else {
            None
        },
        None => None,
    }
}

/// What `parse` makes of `v`: a local file (given as a path or a `file://` URI), or a theme name.
pub open spec fn parse_spec(v: Seq<char>) -> Option<IconView> {
    if v.len() >= 7 && v.take(7) == file_scheme() {
        match percent_decoded_text(v.skip(7)) {
            Some(path) => if local_ok(path) {
                Some(IconView::File(path))
            } else {
                None
            },
            None => None,
        }
    } else if v.len() > 0 && v[0] == '/' {
        if local_ok(v) {
            Some(IconView::File(v))
        } else {
            None
        }
    } else if name_ok(v) {
        Some(IconView::Name(v))
    } else {
        None
    }
}

/// The view of an optional icon.
pub open spec fn opt_icon_view(icon: Option<Icon>) -> Option<IconView> {
    match icon {
        Some(icon) => Some(icon@),
        None => None,
    }
}

fn is_hex(b: u8) -> (r: bool)
    ensures
        r == is_hex_byte(b),
{
    (0x30 <= b && b <= 0x39) || (0x41 <= b && b <= 0x46) || (0x61 <= b && b <= 0x66)
}

fn hex_digit(b: u8) -> (v: u8)
    requires
        is_hex_byte(b),
    ensures
        v == hex_value(b),
        v < 16,
{
    if 0x30 <= b && b <= 0x39 {
        b - 0x30
    } else if 0x41 <= b && b <= 0x46 {
        b - 0x41 + 10
    } else {
        b - 0x61 + 10
    }
}

/// Prepends `prefix` to an optional sequence.
pub open spec fn prepend(prefix: Seq<u8>, rest: Option<Seq<u8>>) -> Option<Seq<u8>> {
    match rest {
        Some(r) => Some(prefix + r),
        None => None,
    }
}

/// The `%XX` escapes of a file URI. `None` when an escape is malformed or the result is not
/// UTF-8.
fn percent_decode(text: &str) -> (out: Option<String>)
    ensures
        match out {
            Some(s) => percent_decoded_text(text@) == Some(s@),
            None => percent_decoded_text(text@) is None,
        },
{
    let bytes = text.as_bytes();
    let mut out: Vec<u8> = Vec::with_capacity(bytes.len());
    let mut at: usize = 0;
    proof {
        assert(bytes@.skip(0) == bytes@);
        match percent_decoded(bytes@) {
            Some(r) => {
                assert(out@ + r =~= r);
            },
            None => {},
        }
    }
    while at < bytes.len()
        invariant
            bytes@ == encode_utf8(text@),
            at <= bytes.len(),
            percent_decoded(bytes@) == prepend(out@, percent_decoded(bytes@.skip(at as int))),
        decreases bytes.len() - at,
    {
        let ghost rest = bytes@.skip(at as int);
        if bytes[at] == 0x25 {
            if bytes.len() - at < 3 || !is_hex(bytes[at + 1]) || !is_hex(bytes[at + 2]) {
                return None;
            }
            let value = hex_digit(bytes[at + 1]) * 16 + hex_digit(bytes[at + 2]);
            proof {
                assert(rest.skip(3) == bytes@.skip(at + 3));
                assert(rest[1] == bytes@[at + 1]);
                assert(rest[2] == bytes@[at + 2]);
                match percent_decoded(rest.skip(3)) {
                    Some(r) => {
                        assert(out@.push(value) + r == out@ + (seq![value] + r));
                    },
                    None => {},
                }
            }
            out.push(value);
            at = at + 3;
        } else {
            let b = bytes[at];
            proof {
                assert(rest.skip(1) == bytes@.skip(at + 1));
                match percent_decoded(rest.skip(1)) {
                    Some(r) => {
                        assert(out@.push(b) + r == out@ + (seq![b] + r));
                    },
                    None => {},
                }
            }
            out.push(b);
            at = at + 1;
        }
    }
    proof {
        assert(bytes@.skip(at as int) =~= Seq::<u8>::empty());
        assert(out@ + Seq::<u8>::empty() == out@);
    }
    string_from_utf8(out)
}

/// Whether `p` holds a `..` component.
fn has_dotdot(p: &[char]) -> (r: bool)
    ensures
        r == exists|i: int| dotdot_at(p@, i),
{
    if p.len() < 2 {
        assert forall|j: int| !dotdot_at(p@, j) by {}
        return false;
    }
    let mut i: usize = 0;
    while i <= p.len() - 2
        invariant
            p.len() >= 2,
            forall|j: int| 0 <= j < i ==> !dotdot_at(p@, j),
        decreases p.len() - i,
    {
        if p[i] == '.' && p[i + 1] == '.' && (i == 0 || p[i - 1] == '/') && (i + 2 == p.len()
            || p[i + 2] == '/') {
            assert(dotdot_at(p@, i as int));
            return true;
        }
        i = i + 1;
    }
    assert forall|j: int| !dotdot_at(p@, j) by {
        if j >= i {
            assert(j + 2 > p@.len());
        }
    }
    false
}

/// An absolute path with no `..` and no control character. `file://host/…` arrives here
/// without its leading slash and is refused.
fn local_file(path: &str) -> (r: Option<Icon>)
    ensures
        opt_icon_view(r) == (if local_ok(path@) {
            Some(IconView::File(path@))
        } else {
            None
        }),
{
    let p = chars_of(path);
    if p.len() == 0 || p[0] != '/' || path.as_bytes().len() > PATH_BYTES {
        return None;
    }
    let mut i: usize = 0;
    while i < p.len()
        invariant
            p@ == path@,
            i <= p@.len(),
            forall|j: int| 0 <= j < i ==> !control(#[trigger] p@[j]),
        decreases p.len() - i,
    {
        let u = p[i] as u32;
        if u <= 0x1F || (0x7F <= u && u <= 0x9F) {
            assert(control(path@[i as int]));
            assert(!local_ok(path@));
            return None;
        }
        i = i + 1;
    }
    if has_dotdot(p.as_slice()) {
        return None;
    }
    Some(Icon::File(path.to_owned()))
}

/// Whether `v` is a name of the icon theme.
fn is_name(value: &str, v: &[char]) -> (r: bool)
    requires
        v@ == value@,
    ensures
        r == name_ok(value@),
{
    if v.len() == 0 || value.as_bytes().len() > NAME_BYTES || v[0] == '.' {
        return false;
    }
    let mut i: usize = 0;
    while i < v.len()
        invariant
            v@ == value@,
            i <= v@.len(),
            forall|j: int| 0 <= j < i ==> name_char(#[trigger] v@[j]),
        decreases v.len() - i,
    {
        let c = v[i];
        let ok = ('a' <= c && c <= 'z') || ('A' <= c && c <= 'Z') || ('0' <= c && c <= '9')
            || c == '-' || c == '_' || c == '.' || c == '+';
        if !ok {
            assert(!name_char(value@[i as int]));
            assert(!name_ok(value@));
            return false;
        }
        i = i + 1;
    }
    true
}

/// `app_icon`, or the `image-path` hint. `None` for anything else, empty included.
pub fn parse(value: &str) -> (r: Option<Icon>)
    ensures
        opt_icon_view(r) == parse_spec(value@),
{
    let v = chars_of(value);
    let scheme = ['f', 'i', 'l', 'e', ':', '/', '/'];
    if starts_with(v.as_slice(), &scheme) {
        assert(scheme@ =~= file_scheme());
        let rest = value.substring_char(7, v.len());
        assert(rest@ == value@.skip(7));
        let path = match percent_decode(rest) {
            Some(path) => path,
            None => return None,
        };
        return local_file(path.as_str());
    }
    assert(!(value@.len() >= 7 && value@.take(7) == file_scheme())) by {
        assert(scheme@ =~= file_scheme());
    }
    if v.len() > 0 && v[0] == '/' {
        return local_file(value);
    }
    if is_name(value, v.as_slice()) {
        Some(Icon::Name(value.to_owned()))
    } else {
        None
    }
}

} // verus!

verus! {

/// A picture named by the caller is never remote: a file is an absolute local path with no
/// `..` and no control character, and a name is a plain name of the icon theme.
pub proof fn a_named_picture_is_local(v: Seq<char>)
    ensures
        parse_spec(v) matches Some(IconView::File(p)) ==> local_ok(p),
        parse_spec(v) matches Some(IconView::Name(n)) ==> name_ok(n) && n == v,
{
}

} // verus!
