//! What the bar reads from the private interface: one notification, flat, with no optional
//! field. An empty string, an empty array or a zero size means absent.

use vstd::prelude::*;

use crate::shelld::icon::{Icon, IconView};
use crate::shelld::image::copy_bytes;
use crate::shelld::store::{
    actions_view, copy_actions, popup_end_fits, popup_ms_left, popup_spec, Notification, Visual, VisualView,
};

verus! {

#[derive(Debug, Clone, PartialEq, Eq)]
pub struct WireNotification {
    pub id: u32,
    pub app_name: String,
    pub summary: String,
    pub body: String,
    pub actions: Vec<(String, String)>,
    pub urgency: u8,
    pub transient: bool,
    pub resident: bool,
    pub desktop_entry: String,
    pub icon_name: String,
    pub icon_file: String,
    pub image_width: u32,
    pub image_height: u32,
    /// Straight RGBA, `image_width * 4` bytes a row.
    pub image_rgba: Vec<u8>,
    /// 0 when the popup waits for the user.
    pub timeout_ms: u32,
    /// See `popup_ms_left`.
    pub popup_ms_left: u32,
}

/// The icon name of a picture, empty unless it is a named icon.
pub open spec fn icon_name_of(visual: VisualView) -> Seq<char> {
    match visual {
        VisualView::Icon(IconView::Name(name)) => name,
        _ => Seq::empty(),
    }
}

/// The icon file of a picture, empty unless it is a local file.
pub open spec fn icon_file_of(visual: VisualView) -> Seq<char> {
    match visual {
        VisualView::Icon(IconView::File(file)) => file,
        _ => Seq::empty(),
    }
}

impl WireNotification {
    pub fn new(notification: &Notification, now_ms: u64, dnd: bool) -> (w: WireNotification)
        requires
            popup_end_fits(notification@, dnd),
        ensures
            ({
                let n = notification@;
                let c = n.content;
                &&& w.id == n.id
                &&& w.app_name@ == c.app_name
                &&& w.summary@ == c.summary
                &&& w.body@ == c.body
                &&& actions_view(w.actions@) == c.actions
                &&& w.urgency == c.urgency.byte_spec()
                &&& w.transient == c.transient
                &&& w.resident == c.resident
                &&& w.desktop_entry@ == match c.desktop_entry {
                    Some(entry) => entry,
                    None => Seq::empty(),
                }
                &&& w.icon_name@ == icon_name_of(c.visual)
                &&& w.icon_file@ == icon_file_of(c.visual)
                &&& (match c.visual {
                    VisualView::Pixels(image) => w.image_width == image.width && w.image_height
                        == image.height && w.image_rgba@ == image.rgba,
                    _ => w.image_width == 0 && w.image_height == 0 && w.image_rgba@.len() == 0,
                })
                &&& w.timeout_ms == c.timeout_ms
                &&& w.popup_ms_left == popup_spec(n, now_ms, dnd)
            }),
    {
        let content = &notification.content;
        let (icon_name, icon_file) = match &content.visual {
            Visual::Icon(Icon::Name(name)) => (name.clone(), String::new()),
            Visual::Icon(Icon::File(file)) => (String::new(), file.clone()),
            _ => (String::new(), String::new()),
        };
        let (image_width, image_height, image_rgba) = match &content.visual {
            Visual::Pixels(image) => (image.width, image.height, copy_bytes(image.rgba.as_slice())),
            _ => (0, 0, Vec::new()),
        };
        WireNotification {
            id: notification.id,
            app_name: content.app_name.clone(),
            summary: content.summary.clone(),
            body: content.body.clone(),
            actions: copy_actions(&content.actions),
            urgency: content.urgency.byte(),
            transient: content.transient,
            resident: content.resident,
            desktop_entry: match &content.desktop_entry {
                Some(entry) => entry.clone(),
                None => String::new(),
            },
            icon_name,
            icon_file,
            image_width,
            image_height,
            image_rgba,
            timeout_ms: content.timeout_ms,
            popup_ms_left: popup_ms_left(notification, now_ms, dnd),
        }
    }
}

} // verus!
