//! The hints of `Notify` the daemon honours. Decoding the bus's dictionary belongs to the
//! caller; this module decides what each hint it meets does to the result. A hint of the
//! wrong type arrives here as `None` and is ignored, as if it were absent.

use vstd::prelude::*;

use crate::chars::{chars_of, str_is};
use crate::shelld::icon::{opt_icon_view, parse, parse_spec, Icon, IconView};
use crate::shelld::image::{accept, acceptable, scaled, Image, ImageView, Raw};

verus! {

pub const DESKTOP_ID_BYTES: usize = 255;

#[derive(Debug, PartialEq)]
pub struct Hints {
    pub urgency: Option<u8>,
    pub transient: bool,
    pub resident: bool,
    pub desktop_entry: Option<String>,
    /// From `image-data`, else `image_data` (1.1), else `icon_data` (1.0).
    pub image: Option<Image>,
    /// From `image-path`, else `image_path` (1.1).
    pub image_path: Option<Icon>,
}

pub struct HintsView {
    pub urgency: Option<u8>,
    pub transient: bool,
    pub resident: bool,
    pub desktop_entry: Option<Seq<char>>,
    pub image: Option<ImageView>,
    pub image_path: Option<IconView>,
}

/// The characters of an optional string.
pub open spec fn opt_chars(s: Option<String>) -> Option<Seq<char>> {
    match s {
        Some(s) => Some(s@),
        None => None,
    }
}

/// The view of an optional image.
pub open spec fn opt_image_view(image: Option<Image>) -> Option<ImageView> {
    match image {
        Some(image) => Some(image@),
        None => None,
    }
}

impl View for Hints {
    type V = HintsView;

    open spec fn view(&self) -> HintsView {
        HintsView {
            urgency: self.urgency,
            transient: self.transient,
            resident: self.resident,
            desktop_entry: opt_chars(self.desktop_entry),
            image: opt_image_view(self.image),
            image_path: opt_icon_view(self.image_path),
        }
    }
}

/// No hint at all.
pub open spec fn no_hints() -> HintsView {
    HintsView {
        urgency: None,
        transient: false,
        resident: false,
        desktop_entry: None,
        image: None,
        image_path: None,
    }
}

impl Default for Hints {
    fn default() -> (hints: Hints)
        ensures
            hints@ == no_hints(),
    {
        Hints {
            urgency: None,
            transient: false,
            resident: false,
            desktop_entry: None,
            image: None,
            image_path: None,
        }
    }
}

/// A character a desktop file id may hold.
pub open spec fn desktop_id_char(c: char) -> bool {
    ||| 'a' <= c <= 'z'
    ||| 'A' <= c <= 'Z'
    ||| '0' <= c <= '9'
    ||| c == '-'
    ||| c == '_'
    ||| c == '.'
}

/// A desktop file id (`org.gnome.Nautilus`), without the `.desktop` suffix: ASCII letters,
/// digits and `-_.`, not starting with `.`, 1 to `DESKTOP_ID_BYTES` long.
pub open spec fn desktop_id_ok(id: Seq<char>) -> bool {
    &&& 0 < id.len() <= DESKTOP_ID_BYTES
    &&& id[0] != '.'
    &&& forall|i: int| 0 <= i < id.len() ==> desktop_id_char(#[trigger] id[i])
}

/// Whether `id` names a desktop file. Its characters are ASCII, so its length in bytes is its
/// number of characters.
pub fn is_desktop_id(id: &str) -> (r: bool)
    ensures
        r == desktop_id_ok(id@),
{
    let v = chars_of(id);
    if v.len() == 0 || v.len() > DESKTOP_ID_BYTES || v[0] == '.' {
        return false;
    }
    let mut i: usize = 0;
    while i < v.len()
        invariant
            v@ == id@,
            i <= v@.len(),
            forall|j: int| 0 <= j < i ==> desktop_id_char(#[trigger] v@[j]),
        decreases v.len() - i,
    {
        let c = v[i];
        let ok = ('a' <= c && c <= 'z') || ('A' <= c && c <= 'Z') || ('0' <= c && c <= '9')
            || c == '-' || c == '_' || c == '.';
        if !ok {
            assert(!desktop_id_char(id@[i as int]));
            return false;
        }
        i = i + 1;
    }
    true
}

/// What a key of the hints dictionary asks for. The two picture hints carry a rank: the name
/// of the newest specification is 0, and a lower rank wins.
#[derive(Debug, Clone, Copy, PartialEq, Eq, Structural)]
pub enum HintKey {
    Urgency,
    Transient,
    Resident,
    DesktopEntry,
    Image(u8),
    ImagePath(u8),
    Other,
}

pub open spec fn urgency_key() -> Seq<char> {
    seq!['u', 'r', 'g', 'e', 'n', 'c', 'y']
}

pub open spec fn transient_key() -> Seq<char> {
    seq!['t', 'r', 'a', 'n', 's', 'i', 'e', 'n', 't']
}

pub open spec fn resident_key() -> Seq<char> {
    seq!['r', 'e', 's', 'i', 'd', 'e', 'n', 't']
}

pub open spec fn desktop_entry_key() -> Seq<char> {
    seq!['d', 'e', 's', 'k', 't', 'o', 'p', '-', 'e', 'n', 't', 'r', 'y']
}

/// `image-data`
pub open spec fn image_data_key() -> Seq<char> {
    seq!['i', 'm', 'a', 'g', 'e', '-', 'd', 'a', 't', 'a']
}

/// `image_data`
pub open spec fn image_data_old_key() -> Seq<char> {
    seq!['i', 'm', 'a', 'g', 'e', '_', 'd', 'a', 't', 'a']
}

/// `icon_data`
pub open spec fn icon_data_key() -> Seq<char> {
    seq!['i', 'c', 'o', 'n', '_', 'd', 'a', 't', 'a']
}

/// `image-path`
pub open spec fn image_path_key() -> Seq<char> {
    seq!['i', 'm', 'a', 'g', 'e', '-', 'p', 'a', 't', 'h']
}

/// `image_path`
pub open spec fn image_path_old_key() -> Seq<char> {
    seq!['i', 'm', 'a', 'g', 'e', '_', 'p', 'a', 't', 'h']
}

pub open spec fn hint_key_spec(key: Seq<char>) -> HintKey {
    if key == urgency_key() {
        HintKey::Urgency
    } else if key == transient_key() {
        HintKey::Transient
    } else if key == resident_key() {
        HintKey::Resident
    } else if key == desktop_entry_key() {
        HintKey::DesktopEntry
    } else if key == image_data_key() {
        HintKey::Image(0)
    } else if key == image_data_old_key() {
        HintKey::Image(1)
    } else if key == icon_data_key() {
        HintKey::Image(2)
    } else if key == image_path_key() {
        HintKey::ImagePath(0)
    } else if key == image_path_old_key() {
        HintKey::ImagePath(1)
    } else {
        HintKey::Other
    }
}

/// What the hint named `key` is.
pub fn hint_key(key: &str) -> (k: HintKey)
    ensures
        k == hint_key_spec(key@),
{
    let urgency = ['u', 'r', 'g', 'e', 'n', 'c', 'y'];
    let transient = ['t', 'r', 'a', 'n', 's', 'i', 'e', 'n', 't'];
    let resident = ['r', 'e', 's', 'i', 'd', 'e', 'n', 't'];
    let desktop_entry = ['d', 'e', 's', 'k', 't', 'o', 'p', '-', 'e', 'n', 't', 'r', 'y'];
    let image_data = ['i', 'm', 'a', 'g', 'e', '-', 'd', 'a', 't', 'a'];
    let image_data_old = ['i', 'm', 'a', 'g', 'e', '_', 'd', 'a', 't', 'a'];
    let icon_data = ['i', 'c', 'o', 'n', '_', 'd', 'a', 't', 'a'];
    let image_path = ['i', 'm', 'a', 'g', 'e', '-', 'p', 'a', 't', 'h'];
    let image_path_old = ['i', 'm', 'a', 'g', 'e', '_', 'p', 'a', 't', 'h'];
    proof {
        assert(urgency@ =~= urgency_key());
        assert(transient@ =~= transient_key());
        assert(resident@ =~= resident_key());
        assert(desktop_entry@ =~= desktop_entry_key());
        assert(image_data@ =~= image_data_key());
        assert(image_data_old@ =~= image_data_old_key());
        assert(icon_data@ =~= icon_data_key());
        assert(image_path@ =~= image_path_key());
        assert(image_path_old@ =~= image_path_old_key());
    }
    if str_is(key, &urgency) {
        HintKey::Urgency
    } else if str_is(key, &transient) {
        HintKey::Transient
    } else if str_is(key, &resident) {
        HintKey::Resident
    } else if str_is(key, &desktop_entry) {
        HintKey::DesktopEntry
    } else if str_is(key, &image_data) {
        HintKey::Image(0)
    } else if str_is(key, &image_data_old) {
        HintKey::Image(1)
    } else if str_is(key, &icon_data) {
        HintKey::Image(2)
    } else if str_is(key, &image_path) {
        HintKey::ImagePath(0)
    } else if str_is(key, &image_path_old) {
        HintKey::ImagePath(1)
    } else {
        HintKey::Other
    }
}

/// The hints read so far, with the rank of the picture each picture field came from.
pub struct HintsReader {
    hints: Hints,
    image_rank: Option<u8>,
    path_rank: Option<u8>,
}

impl HintsReader {
    /// The hints read so far.
    pub closed spec fn hints(&self) -> HintsView {
        self.hints@
    }

    /// The rank of the image kept, if one is.
    pub closed spec fn image_rank(&self) -> Option<u8> {
        self.image_rank
    }

    /// The rank of the image path kept, if one is.
    pub closed spec fn path_rank(&self) -> Option<u8> {
        self.path_rank
    }

    /// A rank is kept exactly when its picture is.
    pub closed spec fn wf(&self) -> bool {
        &&& (self.image_rank is Some <==> self.hints.image is Some)
        &&& (self.path_rank is Some <==> self.hints.image_path is Some)
    }

    /// Nothing read yet.
    pub fn new() -> (r: HintsReader)
        ensures
            r.wf(),
            r.hints() == no_hints(),
            r.image_rank() is None,
            r.path_rank() is None,
    {
        HintsReader { hints: Hints::default(), image_rank: None, path_rank: None }
    }

    /// `urgency`: its byte, or nothing when it is not a byte.
    pub fn urgency(&mut self, value: Option<u8>)
        requires
            old(self).wf(),
        ensures
            final(self).wf(),
            final(self).hints() == (HintsView { urgency: value, ..old(self).hints() }),
            final(self).image_rank() == old(self).image_rank(),
            final(self).path_rank() == old(self).path_rank(),
    {
        self.hints.urgency = value;
    }

    /// `transient`: false unless it is the boolean true.
    pub fn transient(&mut self, value: Option<bool>)
        requires
            old(self).wf(),
        ensures
            final(self).wf(),
            final(self).hints() == (HintsView {
                transient: value == Some(true),
                ..old(self).hints()
            }),
            final(self).image_rank() == old(self).image_rank(),
            final(self).path_rank() == old(self).path_rank(),
    {
        self.hints.transient = match value {
            Some(b) => b,
            None => false,
        };
    }

    /// `resident`: false unless it is the boolean true.
    pub fn resident(&mut self, value: Option<bool>)
        requires
            old(self).wf(),
        ensures
            final(self).wf(),
            final(self).hints() == (HintsView {
                resident: value == Some(true),
                ..old(self).hints()
            }),
            final(self).image_rank() == old(self).image_rank(),
            final(self).path_rank() == old(self).path_rank(),
    {
        self.hints.resident = match value {
            Some(b) => b,
            None => false,
        };
    }

    /// `desktop-entry`: kept when it is a string that names a desktop file, dropped otherwise.
    pub fn desktop_entry(&mut self, value: Option<&str>)
        requires
            old(self).wf(),
        ensures
            final(self).wf(),
            final(self).hints() == (HintsView {
                desktop_entry: match value {
                    Some(id) => if desktop_id_ok(id@) {
                        Some(id@)
                    } else {
                        None
                    },
                    None => None,
                },
                ..old(self).hints()
            }),
            final(self).image_rank() == old(self).image_rank(),
            final(self).path_rank() == old(self).path_rank(),
    {
        self.hints.desktop_entry = match value {
            Some(id) => if is_desktop_id(id) {
                Some(id.to_owned())
            } else {
                None
            },
            None => None,
        };
    }

    /// An image hint of `rank`: kept when it is acceptable and no image of a lower or equal
    /// rank was kept before it.
    pub fn image(&mut self, rank: u8, raw: Option<&Raw<'_>>)
        requires
            old(self).wf(),
        ensures
            final(self).wf(),
            ({
                let wins = match raw {
                    Some(raw) => acceptable(*raw) && match old(self).image_rank() {
                        Some(best) => rank < best,
                        None => true,
                    },
                    None => false,
                };
                &&& wins ==> final(self).hints() == (HintsView {
                    image: Some(scaled(*raw.unwrap())),
                    ..old(self).hints()
                }) && final(self).image_rank() == Some(rank)
                &&& !wins ==> final(self).hints() == old(self).hints() && final(self).image_rank()
                    == old(self).image_rank()
            }),
            final(self).path_rank() == old(self).path_rank(),
    {
        let found = match raw {
            Some(raw) => accept(raw),
            None => None,
        };
        if let Some(found) = found {
            let better = match self.image_rank {
                Some(best) => rank < best,
                None => true,
            };
            if better {
                self.hints.image = Some(found);
                self.image_rank = Some(rank);
            }
        }
    }

    /// An image path hint of `rank`: kept when it parses and no path of a lower or equal rank
    /// was kept before it.
    pub fn image_path(&mut self, rank: u8, value: Option<&str>)
        requires
            old(self).wf(),
        ensures
            final(self).wf(),
            ({
                let wins = match value {
                    Some(v) => parse_spec(v@) is Some && match old(self).path_rank() {
                        Some(best) => rank < best,
                        None => true,
                    },
                    None => false,
                };
                &&& wins ==> final(self).hints() == (HintsView {
                    image_path: parse_spec(value.unwrap()@),
                    ..old(self).hints()
                }) && final(self).path_rank() == Some(rank)
                &&& !wins ==> final(self).hints() == old(self).hints() && final(self).path_rank()
                    == old(self).path_rank()
            }),
            final(self).image_rank() == old(self).image_rank(),
    {
        let found = match value {
            Some(v) => parse(v),
            None => None,
        };
        if let Some(found) = found {
            let better = match self.path_rank {
                Some(best) => rank < best,
                None => true,
            };
            if better {
                self.hints.image_path = Some(found);
                self.path_rank = Some(rank);
            }
        }
    }

    /// The hints read.
    pub fn finish(self) -> (hints: Hints)
        ensures
            hints@ == self.hints(),
    {
        self.hints
    }
}

} // verus!
