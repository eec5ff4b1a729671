//! The notifications the daemon holds. No bus and no clock: the caller passes the time in
//! milliseconds since the daemon started.

use vstd::prelude::*;

use crate::shelld::icon::{Icon, IconView};
use crate::shelld::image::{Image, ImageView};

verus! {

pub const CAPACITY: usize = 100;

pub const DEFAULT_TIMEOUT_MS: u32 = 5_000;

#[derive(Debug, Clone, Copy, PartialEq, Eq, Structural)]
pub enum Urgency {
    Low,
    Normal,
    Critical,
}

impl Urgency {
    /// The byte of the `urgency` hint; absent or unknown means normal.
    pub fn from_hint(byte: Option<u8>) -> (u: Urgency)
        ensures
            u == (match byte {
                Some(0u8) => Urgency::Low,
                Some(2u8) => Urgency::Critical,
                _ => Urgency::Normal,
            }),
    {
        match byte {
            Some(0) => Urgency::Low,
            Some(2) => Urgency::Critical,
            _ => Urgency::Normal,
        }
    }

    /// The byte the specification gives this urgency: 0, 1 or 2.
    pub open spec fn byte_spec(self) -> u8 {
        match self {
            Urgency::Low => 0u8,
            Urgency::Normal => 1u8,
            Urgency::Critical => 2u8,
        }
    }

    /// The byte the specification gives this urgency: 0, 1 or 2.
    pub fn byte(self) -> (b: u8)
        ensures
            b == self.byte_spec(),
    {
        match self {
            Urgency::Low => 0,
            Urgency::Normal => 1,
            Urgency::Critical => 2,
        }
    }
}

/// Why a notification closed, numbered as the specification numbers it.
#[derive(Debug, Clone, Copy, PartialEq, Eq, Structural)]
pub enum Reason {
    Expired,
    Dismissed,
    Closed,
}

impl Reason {
    /// The number of the reason in the specification: 1, 2 or 3.
    pub fn number(self) -> (n: u32)
        ensures
            n == (match self {
                Reason::Expired => 1u32,
                Reason::Dismissed => 2u32,
                Reason::Closed => 3u32,
            }),
    {
        match self {
            Reason::Expired => 1,
            Reason::Dismissed => 2,
            Reason::Closed => 3,
        }
    }
}

#[derive(Debug, Clone, PartialEq, Eq)]
pub enum Visual {
    Blank,
    Pixels(Image),
    Icon(Icon),
}

pub enum VisualView {
    Blank,
    Pixels(ImageView),
    Icon(IconView),
}

impl View for Visual {
    type V = VisualView;

    open spec fn view(&self) -> VisualView {
        match self {
            Visual::Blank => VisualView::Blank,
            Visual::Pixels(image) => VisualView::Pixels(image@),
            Visual::Icon(icon) => VisualView::Icon(icon@),
        }
    }
}

impl Visual {
    pub fn duplicate(&self) -> (r: Visual)
        ensures
            r@ == self@,
    {
        match self {
            Visual::Blank => Visual::Blank,
            Visual::Pixels(image) => Visual::Pixels(image.duplicate()),
            Visual::Icon(icon) => Visual::Icon(icon.duplicate()),
        }
    }
}

#[derive(Debug, Clone, PartialEq, Eq)]
pub struct Content {
    pub app_name: String,
    pub summary: String,
    pub body: String,
    /// (key, label). The key goes back to the application exactly as it sent it.
    pub actions: Vec<(String, String)>,
    pub urgency: Urgency,
    pub transient: bool,
    pub resident: bool,
    pub desktop_entry: Option<String>,
    pub visual: Visual,
    /// How long the popup shows; 0 until the user closes it.
    pub timeout_ms: u32,
}

pub struct ContentView {
    pub app_name: Seq<char>,
    pub summary: Seq<char>,
    pub body: Seq<char>,
    pub actions: Seq<(Seq<char>, Seq<char>)>,
    pub urgency: Urgency,
    pub transient: bool,
    pub resident: bool,
    pub desktop_entry: Option<Seq<char>>,
    pub visual: VisualView,
    pub timeout_ms: u32,
}

/// The characters of the pairs of `actions`.
pub open spec fn actions_view(actions: Seq<(String, String)>) -> Seq<(Seq<char>, Seq<char>)> {
    actions.map_values(|pair: (String, String)| (pair.0@, pair.1@))
}

impl View for Content {
    type V = ContentView;

    open spec fn view(&self) -> ContentView {
        ContentView {
            app_name: self.app_name@,
            summary: self.summary@,
            body: self.body@,
            actions: actions_view(self.actions@),
            urgency: self.urgency,
            transient: self.transient,
            resident: self.resident,
            desktop_entry: match self.desktop_entry {
                Some(entry) => Some(entry@),
                None => None,
            },
            visual: self.visual@,
            timeout_ms: self.timeout_ms,
        }
    }
}

/// A copy of `actions`.
pub fn copy_actions(actions: &Vec<(String, String)>) -> (r: Vec<(String, String)>)
    ensures
        actions_view(r@) == actions_view(actions@),
{
    let mut r: Vec<(String, String)> = Vec::new();
    let mut i: usize = 0;
    while i < actions.len()
        invariant
            i <= actions.len(),
            r@.len() == i,
            actions_view(r@) == actions_view(actions@.take(i as int)),
        decreases actions.len() - i,
    {
        let (key, label) = (&actions[i].0, &actions[i].1);
        let pair = (key.clone(), label.clone());
        assert(pair.0@ == actions@[i as int].0@ && pair.1@ == actions@[i as int].1@);
        let ghost before = r@;
        r.push(pair);
        let ghost goal = actions@.take(i as int + 1);
        assert(goal == actions@.take(i as int).push(actions@[i as int]));
        assert forall|j: int| 0 <= j < i + 1 implies #[trigger] actions_view(r@)[j] == actions_view(
            goal,
        )[j] by {
            if j < i {
                assert(actions_view(before)[j] == actions_view(actions@.take(i as int))[j]);
                assert(r@[j] == before[j]);
            } else {
                assert(r@[j] == pair);
            }
        }
        assert(actions_view(r@) =~= actions_view(goal));
        i = i + 1;
    }
    assert(actions@.take(actions.len() as int) == actions@);
    r
}

impl Content {
    pub fn duplicate(&self) -> (r: Content)
        ensures
            r@ == self@,
    {
        Content {
            app_name: self.app_name.clone(),
            summary: self.summary.clone(),
            body: self.body.clone(),
            actions: copy_actions(&self.actions),
            urgency: self.urgency,
            transient: self.transient,
            resident: self.resident,
            desktop_entry: match &self.desktop_entry {
                Some(entry) => Some(entry.clone()),
                None => None,
            },
            visual: self.visual.duplicate(),
            timeout_ms: self.timeout_ms,
        }
    }
}

#[derive(Debug, Clone, PartialEq, Eq)]
pub struct Notification {
    pub id: u32,
    pub arrived_ms: u64,
    pub content: Content,
}

pub struct NotificationView {
    pub id: u32,
    pub arrived_ms: u64,
    pub content: ContentView,
}

impl View for Notification {
    type V = NotificationView;

    open spec fn view(&self) -> NotificationView {
        NotificationView { id: self.id, arrived_ms: self.arrived_ms, content: self.content@ }
    }
}

impl Notification {
    pub fn duplicate(&self) -> (r: Notification)
        ensures
            r@ == self@,
    {
        Notification { id: self.id, arrived_ms: self.arrived_ms, content: self.content.duplicate() }
    }
}

#[derive(Debug)]
pub struct Outcome {
    pub notification: Notification,
    /// True when `replaces_id` named a notification still held.
    pub replaced: bool,
    /// Ids pushed out by the capacity, oldest first.
    pub evicted: Vec<u32>,
}

/// The notifications held, oldest first, with the last id given and the do-not-disturb switch.
#[derive(Debug)]
pub struct Store {
    held: Vec<Notification>,
    /// The id given last; the next one is looked for after it.
    pub last_id: u32,
    dnd: bool,
}

/// The held notifications as values, oldest first.
pub open spec fn held_view(held: Seq<Notification>) -> Seq<NotificationView> {
    held.map_values(|n: Notification| n@)
}

/// The ids of `held`, oldest first.
pub open spec fn ids_of(held: Seq<NotificationView>) -> Seq<u32> {
    held.map_values(|n: NotificationView| n.id)
}

/// The id `steps` after `last`, wrapping past `u32::MAX` to 0.
pub open spec fn after(last: u32, steps: int) -> u32 {
    if last + steps <= u32::MAX {
        (last + steps) as u32
    } else {
        (last + steps - 0x1_0000_0000) as u32
    }
}

/// An id that cannot be given: 0, or one still held.
pub open spec fn taken(ids: Seq<u32>, id: u32) -> bool {
    id == 0 || ids.contains(id)
}

/// The first id after `last`, from `steps` on, that is not taken.
pub open spec fn free_from(last: u32, ids: Seq<u32>, steps: nat) -> u32
    decreases (CAPACITY + 2) - steps,
{
    if !taken(ids, after(last, steps as int)) {
        after(last, steps as int)
    } else if steps >= CAPACITY + 2 {
        0
    } else {
        free_from(last, ids, steps + 1)
    }
}

/// The id the next new notification gets: the first after `last` that is neither 0 nor held.
pub open spec fn next_free(last: u32, ids: Seq<u32>) -> u32 {
    free_from(last, ids, 1)
}

/// Where the notification `id` stands in `held`, if it is there.
pub open spec fn position_of(held: Seq<NotificationView>, id: u32) -> Option<int> {
    if exists|i: int| 0 <= i < held.len() && held[i].id == id {
        Some(choose|i: int| 0 <= i < held.len() && held[i].id == id)
    } else {
        None
    }
}


/// `held` without the notification `id`, when it holds one.
pub open spec fn remove_id(held: Seq<NotificationView>, id: u32) -> Seq<NotificationView> {
    match position_of(held, id) {
        Some(i) => held.remove(i),
        None => held,
    }
}

/// Each notification of `held` has an id of its own, and none has 0.
pub open spec fn ids_ok(held: Seq<Notification>) -> bool {
    &&& ids_of(held_view(held)).no_duplicates()
    &&& forall|i: int| 0 <= i < held.len() ==> held[i].id != 0
}

/// Removing a notification keeps the ids apart.
proof fn lemma_ids_ok_remove(held: Seq<Notification>, at: int)
    requires
        ids_ok(held),
        0 <= at < held.len(),
    ensures
        ids_ok(held.remove(at)),
        ids_of(held_view(held.remove(at))) == ids_of(held_view(held)).remove(at),
{
    let old_ids = ids_of(held_view(held));
    let new_ids = ids_of(held_view(held.remove(at)));
    assert(new_ids =~= old_ids.remove(at));
    assert forall|i: int, j: int|
        0 <= i < new_ids.len() && 0 <= j < new_ids.len() && i != j implies new_ids[i]
        != new_ids[j] by {
        let oi = if i < at { i } else { i + 1 };
        let oj = if j < at { j } else { j + 1 };
        assert(new_ids[i] == old_ids[oi]);
        assert(new_ids[j] == old_ids[oj]);
    }
    assert forall|i: int| 0 <= i < held.remove(at).len() implies held.remove(at)[i].id != 0 by {
        let oi = if i < at { i } else { i + 1 };
        assert(held.remove(at)[i] == held[oi]);
    }
}

/// Appending a notification with a fresh, non-zero id keeps the ids apart.
proof fn lemma_ids_ok_push(held: Seq<Notification>, n: Notification)
    requires
        ids_ok(held),
        n.id != 0,
        !ids_of(held_view(held)).contains(n.id),
    ensures
        ids_ok(held.push(n)),
        ids_of(held_view(held.push(n))) == ids_of(held_view(held)).push(n.id),
{
    let old_ids = ids_of(held_view(held));
    let new_ids = ids_of(held_view(held.push(n)));
    assert(new_ids =~= old_ids.push(n.id));
    assert forall|i: int, j: int|
        0 <= i < new_ids.len() && 0 <= j < new_ids.len() && i != j implies new_ids[i]
        != new_ids[j] by {
        if i < old_ids.len() && j < old_ids.len() {
            assert(new_ids[i] == old_ids[i]);
            assert(new_ids[j] == old_ids[j]);
        } else if i < old_ids.len() {
            assert(new_ids[i] == old_ids[i]);
        } else if j < old_ids.len() {
            assert(new_ids[j] == old_ids[j]);
        }
    }
    assert forall|i: int| 0 <= i < held.push(n).len() implies held.push(n)[i].id != 0 by {
        if i < held.len() {
            assert(held.push(n)[i] == held[i]);
        }
    }
}

/// How many of `all` the capacity pushes out, oldest first.
pub open spec fn excess(all: Seq<NotificationView>) -> int {
    if all.len() > CAPACITY {
        all.len() - CAPACITY
    } else {
        0
    }
}

/// The steps after `last` give distinct ids while they are fewer than 2^32.
proof fn lemma_after_injective(last: u32, i: int, j: int)
    requires
        1 <= i < j <= 0xFFFF_FFFF,
    ensures
        after(last, i) != after(last, j),
{
}

/// The id after `after(last, k)` is `after(last, k + 1)`.
proof fn lemma_after_step(last: u32, k: int)
    requires
        0 <= k < 0xFFFF_FFFF,
    ensures
        after(last, k + 1) == (if after(last, k) == u32::MAX {
            0u32
        } else {
            (after(last, k) + 1) as u32
        }),
{
}

/// Pigeonhole: with at most `CAPACITY` ids held, `CAPACITY + 2` consecutive candidates
/// cannot all be taken, since only one of them can be 0.
proof fn lemma_some_candidate_free(last: u32, ids: Seq<u32>, k: nat)
    requires
        ids.no_duplicates(),
        ids.len() <= CAPACITY,
        !ids.contains(0u32),
        k <= CAPACITY + 2,
        forall|j: int| 1 <= j <= k ==> #[trigger] taken(ids, after(last, j)),
    ensures
        k <= CAPACITY + 1,
{
    broadcast use vstd::set::group_set_axioms;

    let cs = Seq::new(k, |i: int| after(last, i + 1));
    let ext = ids.push(0u32);
    assert forall|i: int, j: int| 0 <= i < cs.len() && 0 <= j < cs.len() && i != j implies cs[i]
        != cs[j] by {
        if i < j {
            lemma_after_injective(last, i + 1, j + 1);
        } else {
            lemma_after_injective(last, j + 1, i + 1);
        }
    }
    assert(cs.no_duplicates());
    cs.unique_seq_to_set();
    ext.lemma_cardinality_of_set();
    assert forall|x: u32| cs.to_set().contains(x) implies ext.to_set().contains(x) by {
        let i = choose|i: int| 0 <= i < cs.len() && cs[i] == x;
        assert(taken(ids, after(last, i + 1)));
        if x == 0 {
            assert(ext[ids.len() as int] == 0u32);
        } else {
            let m = choose|m: int| 0 <= m < ids.len() && ids[m] == x;
            assert(ext[m] == x);
        }
    }
    vstd::set_lib::lemma_len_subset(cs.to_set(), ext.to_set());
}

impl Default for Store {
    /// An empty store, with do not disturb off.
    fn default() -> (store: Store)
        ensures
            store.wf(),
            store.notifications() == Seq::<NotificationView>::empty(),
            store.last() == 0,
            !store.dnd_on(),
    {
        Store::new(false)
    }
}

impl Store {
    /// What the store holds, oldest first.
    pub closed spec fn notifications(&self) -> Seq<NotificationView> {
        held_view(self.held@)
    }

    /// The id given last.
    pub closed spec fn last(&self) -> u32 {
        self.last_id
    }

    /// The do-not-disturb switch.
    pub closed spec fn dnd_on(&self) -> bool {
        self.dnd
    }

    /// At most `CAPACITY` notifications, each with an id of its own that is not 0.
    pub closed spec fn wf(&self) -> bool {
        &&& self.held@.len() <= CAPACITY
        &&& ids_ok(self.held@)
    }

    /// What every store a caller can hold keeps: at most `CAPACITY` notifications, with ids
    /// that are all different and none 0.
    pub proof fn lemma_wf(&self)
        requires
            self.wf(),
        ensures
            self.notifications().len() <= CAPACITY,
            ids_of(self.notifications()).no_duplicates(),
            !ids_of(self.notifications()).contains(0u32),
    {
        let ids = ids_of(self.notifications());
        if ids.contains(0u32) {
            let i = choose|i: int| 0 <= i < ids.len() && ids[i] == 0u32;
            assert(ids[i] == self.held@[i].id);
        }
    }

    /// A notification closed is gone: a second close of its id finds nothing.
    pub proof fn a_second_close_finds_nothing(&self, id: u32)
        requires
            self.wf(),
        ensures
            !ids_of(remove_id(self.notifications(), id)).contains(id),
    {
        self.lemma_wf();
        closed_is_gone(self.notifications(), id);
    }

    pub fn new(dnd: bool) -> (store: Store)
        ensures
            store.wf(),
            store.notifications() == Seq::<NotificationView>::empty(),
            store.last() == 0,
            store.dnd_on() == dnd,
    {
        let store = Store { held: Vec::new(), last_id: 0, dnd };
        assert(store.notifications() =~= Seq::<NotificationView>::empty());
        store
    }

    /// The do-not-disturb switch.
    pub fn dnd(&self) -> (on: bool)
        ensures
            on == self.dnd_on(),
    {
        self.dnd
    }


    /// Where the notification `id` stands, if it is held.
    fn find(&self, id: u32) -> (at: Option<usize>)
        requires
            self.wf(),
        ensures
            at == (match position_of(self.notifications(), id) {
                Some(i) => Some(i as usize),
                None => None::<usize>,
            }),
            at matches Some(i) ==> i < self.notifications().len() && self.notifications()[i as int].id
                == id && ids_of(self.notifications())[i as int] == id,
            at is Some <==> ids_of(self.notifications()).contains(id),
    {
        let mut i: usize = 0;
        while i < self.held.len()
            invariant
                self.wf(),
                i <= self.held.len(),
                forall|j: int| 0 <= j < i ==> self.held@[j].id != id,
            decreases self.held.len() - i,
        {
            if self.held[i].id == id {
                proof {
                    let held = self.notifications();
                    assert(held[i as int].id == id);
                    let c = choose|c: int| 0 <= c < held.len() && held[c].id == id;
                    assert(ids_of(held)[c] == ids_of(held)[i as int]);
                    assert(ids_of(held).no_duplicates());
                    assert(ids_of(held).len() == held.len());
                    assert(c == i);
                    assert(position_of(held, id) == Some(i as int));
                    assert(ids_of(held)[i as int] == id);
                }
                return Some(i);
            }
            i = i + 1;
        }
        proof {
            let held = self.notifications();
            assert forall|j: int| 0 <= j < held.len() implies held[j].id != id by {
                assert(held[j].id == self.held@[j].id);
            }
            if ids_of(held).contains(id) {
                let j = choose|j: int| 0 <= j < ids_of(held).len() && ids_of(held)[j] == id;
                assert(held[j].id == id);
            }
        }
        None
    }

    /// The notification `id`, if it is held.
    pub fn get(&self, id: u32) -> (n: Option<&Notification>)
        requires
            self.wf(),
        ensures
            n is Some <==> ids_of(self.notifications()).contains(id),
            n matches Some(found) ==> found.id == id && (position_of(self.notifications(), id)
                matches Some(i) && found@ == self.notifications()[i]),
    {
        match self.find(id) {
            Some(at) => Some(&self.held[at]),
            None => None,
        }
    }

    /// Every notification held, oldest first.
    pub fn iter(&self) -> (it: std::slice::Iter<'_, Notification>)
        ensures
            held_view(vstd::std_specs::slice::into_iter_elts(it)) == self.notifications(),
    {
        self.held.as_slice().iter()
    }

    /// Removes the notification `id`, if it is held.
    pub fn close(&mut self, id: u32) -> (closed: Option<Notification>)
        requires
            old(self).wf(),
        ensures
            final(self).wf(),
            closed is Some <==> ids_of(old(self).notifications()).contains(id),
            closed matches Some(n) ==> n.id == id && (position_of(old(self).notifications(), id)
                matches Some(i) && n@ == old(self).notifications()[i]),
            final(self).notifications() == remove_id(old(self).notifications(), id),
            final(self).last() == old(self).last(),
            final(self).dnd_on() == old(self).dnd_on(),
    {
        match self.find(id) {
            Some(at) => {
                let ghost before = self.held@;
                let n = self.held.remove(at);
                proof {
                    assert(held_view(self.held@) =~= held_view(before).remove(at as int));
                    lemma_ids_ok_remove(before, at as int);
                }
                Some(n)
            },
            None => None,
        }
    }

    /// The id after the last one given, skipping 0 and ids still held. At most `CAPACITY`
    /// ids are held, so one of the next `CAPACITY + 2` candidates is free.
    fn next_id(&mut self) -> (id: u32)
        requires
            old(self).wf(),
        ensures
            final(self).wf(),
            id == next_free(old(self).last(), ids_of(old(self).notifications())),
            id != 0,
            !ids_of(old(self).notifications()).contains(id),
            final(self).last() == id,
            final(self).notifications() == old(self).notifications(),
            final(self).held@ == old(self).held@,
            final(self).dnd_on() == old(self).dnd_on(),
    {
        let ghost last0 = self.last_id;
        let ghost ids = ids_of(self.notifications());
        proof {
            assert forall|i: int| 0 <= i < ids.len() implies ids[i] != 0 by {
                assert(ids[i] == self.held@[i].id);
            }
            if ids.contains(0u32) {
                let i = choose|i: int| 0 <= i < ids.len() && ids[i] == 0u32;
                assert(ids[i] != 0);
            }
        }
        let mut k: u32 = 0;
        loop
            invariant
                self.wf(),
                ids == ids_of(self.notifications()),
                last0 == old(self).last(),
                !ids.contains(0u32),
                k <= CAPACITY + 1,
                self.last_id == after(last0, k as int),
                forall|j: int| 1 <= j <= k ==> #[trigger] taken(ids, after(last0, j)),
                next_free(last0, ids) == free_from(last0, ids, (k + 1) as nat),
                self.held@ == old(self).held@,
                self.dnd == old(self).dnd,
            decreases CAPACITY + 1 - k,
        {
            proof {
                lemma_after_step(last0, k as int);
            }
            self.last_id = if self.last_id == u32::MAX {
                0
            } else {
                self.last_id + 1
            };
            let free = self.last_id != 0 && self.find(self.last_id).is_none();
            if free {
                proof {
                    assert(!ids.contains(self.last_id));
                    assert(!taken(ids, after(last0, k + 1)));
                    assert(free_from(last0, ids, (k + 1) as nat) == after(last0, k + 1));
                    assert(self.last_id == next_free(last0, ids));
                    assert(last0 == old(self).last());
                    assert(ids == ids_of(old(self).notifications()));
                }
                return self.last_id;
            }
            proof {
                assert(taken(ids, after(last0, k + 1)));
                lemma_some_candidate_free(last0, ids, (k + 1) as nat);
                assert(free_from(last0, ids, (k + 1) as nat) == free_from(last0, ids, (k + 2) as nat));
            }
            k = k + 1;
        }
    }


    /// A replaced notification keeps its id, arrives again (its popup restarts) and becomes
    /// the newest. An unknown `replaces_id` gets a new id, as the specification says. Beyond
    /// `CAPACITY`, the oldest notifications are pushed out.
    pub fn notify(&mut self, content: Content, replaces_id: u32, now_ms: u64) -> (out: Outcome)
        requires
            old(self).wf(),
        ensures
            final(self).wf(),
            out.replaced == (replaces_id != 0 && ids_of(old(self).notifications()).contains(
                replaces_id,
            )),
            out.notification@.arrived_ms == now_ms,
            out.notification@.content == content@,
            out.notification.id == (if out.replaced {
                replaces_id
            } else {
                next_free(old(self).last(), ids_of(old(self).notifications()))
            }),
            final(self).last() == (if out.replaced {
                old(self).last()
            } else {
                out.notification.id
            }),
            ({
                let kept = if out.replaced {
                    remove_id(old(self).notifications(), replaces_id)
                } else {
                    old(self).notifications()
                };
                let all = kept.push(out.notification@);
                &&& final(self).notifications() == all.skip(excess(all))
                &&& out.evicted@ == ids_of(all.take(excess(all)))
            }),
            final(self).dnd_on() == old(self).dnd_on(),
    {
        let ghost start = self.held@;
        let mut replaced = false;
        if replaces_id != 0 {
            match self.find(replaces_id) {
                Some(at) => {
                    let ghost before = self.held@;
                    self.held.remove(at);
                    proof {
                        assert(held_view(self.held@) =~= held_view(before).remove(at as int));
                        lemma_ids_ok_remove(before, at as int);
                        let ids = ids_of(held_view(before));
                        assert(ids[at as int] == replaces_id);
                        if ids_of(held_view(self.held@)).contains(replaces_id) {
                            let k = choose|k: int|
                                0 <= k < ids.remove(at as int).len() && ids.remove(at as int)[k]
                                    == replaces_id;
                            let ok = if k < at { k } else { k + 1 };
                            assert(ids[ok] == replaces_id);
                        }
                    }
                    replaced = true;
                },
                None => {},
            }
        }
        let ghost kept = held_view(self.held@);
        let id = if replaced {
            replaces_id
        } else {
            self.next_id()
        };
        let notification = Notification { id, arrived_ms: now_ms, content };
        let copy = notification.duplicate();
        let ghost before_push = self.held@;
        self.held.push(notification);
        proof {
            lemma_ids_ok_push(before_push, notification);
            assert(held_view(self.held@) =~= kept.push(notification@));
        }
        let ghost all = held_view(self.held@);
        let mut evicted: Vec<u32> = Vec::new();
        if self.held.len() > CAPACITY {
            let ghost before = self.held@;
            let oldest = self.held.remove(0);
            evicted.push(oldest.id);
            proof {
                lemma_ids_ok_remove(before, 0);
                assert(held_view(self.held@) =~= all.skip(1));
                assert(evicted@ =~= ids_of(all.take(1)));
            }
        } else {
            proof {
                assert(all.skip(0) =~= all);
                assert(evicted@ =~= ids_of(all.take(0)));
            }
        }
        Outcome { notification: copy, replaced, evicted }
    }

    pub fn set_dnd(&mut self, on: bool)
        requires
            old(self).wf(),
        ensures
            final(self).wf(),
            final(self).dnd_on() == on,
            final(self).notifications() == old(self).notifications(),
            final(self).last() == old(self).last(),
    {
        self.dnd = on;
    }
}

} // verus!

verus! {

/// The popup's time: 0 (until closed) for a critical notification and for an expire timeout
/// of 0; `DEFAULT_TIMEOUT_MS` when the application asks for none (any negative value); its
/// own time otherwise.
pub open spec fn timeout_spec(expire_timeout: i32, urgency: Urgency) -> u32 {
    if urgency == Urgency::Critical || expire_timeout == 0 {
        0
    } else if expire_timeout < 0 {
        DEFAULT_TIMEOUT_MS
    } else {
        expire_timeout as u32
    }
}

pub fn timeout_ms(expire_timeout: i32, urgency: Urgency) -> (t: u32)
    ensures
        t == timeout_spec(expire_timeout, urgency),
{
    if urgency == Urgency::Critical || expire_timeout == 0 {
        0
    } else if expire_timeout < 0 {
        DEFAULT_TIMEOUT_MS
    } else {
        expire_timeout as u32
    }
}

/// The popup's end is counted, from its arrival and its timeout, only for a notification
/// that is not critical, with a timeout, while do not disturb is off; the end must then fit
/// in a `u64`.
pub open spec fn popup_end_fits(n: NotificationView, dnd: bool) -> bool {
    (n.content.urgency != Urgency::Critical && !dnd && n.content.timeout_ms != 0) ==> n.arrived_ms
        + n.content.timeout_ms <= u64::MAX
}

/// What remains of the popup at `now_ms`: `u32::MAX` while it waits for the user, 0 once it
/// has ended. Do not disturb ends every popup but a critical one's.
pub open spec fn popup_spec(n: NotificationView, now_ms: u64, dnd: bool) -> u32 {
    if n.content.urgency == Urgency::Critical {
        u32::MAX
    } else if dnd {
        0
    } else if n.content.timeout_ms == 0 {
        u32::MAX
    } else {
        let end = n.arrived_ms + n.content.timeout_ms;
        let left = if end > now_ms {
            end - now_ms
        } else {
            0
        };
        if left <= u32::MAX {
            left as u32
        } else {
            (u32::MAX - 1) as u32
        }
    }
}

/// What remains of the popup at `now_ms`: `u32::MAX` while it waits for the user, 0 once it
/// has ended and the notification lives in the list only. Do not disturb ends every popup
/// but a critical one's. The bar owns the pause under the pointer, not this count.
pub fn popup_ms_left(notification: &Notification, now_ms: u64, dnd: bool) -> (left: u32)
    requires
        popup_end_fits(notification@, dnd),
    ensures
        left == popup_spec(notification@, now_ms, dnd),
{
    let content = &notification.content;
    if content.urgency == Urgency::Critical {
        return u32::MAX;
    }
    if dnd {
        return 0;
    }
    if content.timeout_ms == 0 {
        return u32::MAX;
    }
    let end = notification.arrived_ms + content.timeout_ms as u64;
    let left = if end > now_ms {
        end - now_ms
    } else {
        0
    };
    if left <= u32::MAX as u64 {
        left as u32
    } else {
        u32::MAX - 1
    }
}

} // verus!

verus! {

proof fn lemma_free_from_free(last: u32, ids: Seq<u32>, k: nat)
    requires
        ids.no_duplicates(),
        ids.len() <= CAPACITY,
        !ids.contains(0u32),
        1 <= k <= CAPACITY + 2,
        forall|j: int| 1 <= j < k ==> #[trigger] taken(ids, after(last, j)),
    ensures
        !taken(ids, free_from(last, ids, k)),
    decreases CAPACITY + 2 - k,
{
    if taken(ids, after(last, k as int)) {
        assert forall|j: int| 1 <= j <= k implies #[trigger] taken(ids, after(last, j)) by {
            if j < k {
                assert(taken(ids, after(last, j)));
            }
        }
        lemma_some_candidate_free(last, ids, k);
        lemma_free_from_free(last, ids, k + 1);
    }
}

/// The id a new notification gets is never 0 and never one still held.
pub proof fn new_ids_are_fresh(last: u32, ids: Seq<u32>)
    requires
        ids.no_duplicates(),
        ids.len() <= CAPACITY,
        !ids.contains(0u32),
    ensures
        next_free(last, ids) != 0,
        !ids.contains(next_free(last, ids)),
{
    lemma_free_from_free(last, ids, 1);
}

/// After `notify` the store holds at most `CAPACITY` notifications, and the one just
/// notified is held, the newest.
pub proof fn the_newest_is_held_within_the_capacity(kept: Seq<NotificationView>, n: NotificationView)
    requires
        kept.len() <= CAPACITY,
    ensures
        ({
            let all = kept.push(n);
            &&& all.skip(excess(all)).len() <= CAPACITY
            &&& all.skip(excess(all)).len() > 0
            &&& all.skip(excess(all)).last() == n
        }),
{
}

/// `held` without the notification `id` when it is held is one shorter.
proof fn lemma_remove_id_len(held: Seq<NotificationView>, id: u32)
    requires
        ids_of(held).contains(id),
    ensures
        remove_id(held, id).len() == held.len() - 1,
{
    let k = choose|k: int| 0 <= k < ids_of(held).len() && ids_of(held)[k] == id;
    assert(held[k].id == id);
}

/// A replace pushes nothing out: the notification it replaces leaves as the new one comes.
pub proof fn a_replace_pushes_out_nothing(held: Seq<NotificationView>, id: u32, n: NotificationView)
    requires
        held.len() <= CAPACITY,
        ids_of(held).contains(id),
    ensures
        excess(remove_id(held, id).push(n)) == 0,
{
    lemma_remove_id_len(held, id);
}

/// A closed notification is gone: no notification of its id is left.
pub proof fn closed_is_gone(held: Seq<NotificationView>, id: u32)
    requires
        ids_of(held).no_duplicates(),
    ensures
        !ids_of(remove_id(held, id)).contains(id),
{
    match position_of(held, id) {
        Some(i) => {
            let rest = held.remove(i);
            if ids_of(rest).contains(id) {
                let k = choose|k: int| 0 <= k < ids_of(rest).len() && ids_of(rest)[k] == id;
                let ok = if k < i { k } else { k + 1 };
                assert(ids_of(held)[ok] == id);
                assert(ids_of(held)[i] == id);
            }
        },
        None => {
            if ids_of(held).contains(id) {
                let k = choose|k: int| 0 <= k < ids_of(held).len() && ids_of(held)[k] == id;
                assert(held[k].id == id);
            }
        },
    }
}

/// A critical notification stays until it is closed, whatever timeout it asked for; so does
/// one that asked for 0. Any other keeps its own time, or the default one when it asked for
/// none.
pub proof fn a_critical_popup_stays_until_closed(expire_timeout: i32, urgency: Urgency)
    ensures
        timeout_spec(expire_timeout, Urgency::Critical) == 0,
        timeout_spec(0, urgency) == 0,
        urgency != Urgency::Critical && expire_timeout < 0 ==> timeout_spec(expire_timeout, urgency)
            == DEFAULT_TIMEOUT_MS,
        urgency != Urgency::Critical && expire_timeout > 0 ==> timeout_spec(expire_timeout, urgency)
            == expire_timeout,
{
}

} // verus!
