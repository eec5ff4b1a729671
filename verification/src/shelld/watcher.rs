//! The registry of org.kde.StatusNotifierWatcher. An item registers with a bus name, or with
//! an object path; it leaves when the owner of its bus name disappears. The host is the bar.

use vstd::prelude::*;

verus! {

pub const MAX_ITEMS: usize = 64;

/// (item id as announced, the bus name whose owner keeps it registered), and the hosts.
#[derive(Debug)]
pub struct Registry {
    items: Vec<(String, String)>,
    hosts: Vec<String>,
}

#[derive(Debug, PartialEq, Eq, Structural)]
pub enum Added {
    New,
    Known,
    Full,
}

#[derive(Debug, Default, PartialEq, Eq)]
pub struct Lost {
    pub items: Vec<String>,
    pub last_host_gone: bool,
}

/// The registry as values: the items with their owners, oldest first, and the hosts.
pub struct RegistryView {
    pub items: Seq<(Seq<char>, Seq<char>)>,
    pub hosts: Seq<Seq<char>>,
}

pub open spec fn pairs_view(items: Seq<(String, String)>) -> Seq<(Seq<char>, Seq<char>)> {
    items.map_values(|pair: (String, String)| (pair.0@, pair.1@))
}

pub open spec fn strings_view(items: Seq<String>) -> Seq<Seq<char>> {
    items.map_values(|s: String| s@)
}

proof fn lemma_pairs_view_push(items: Seq<(String, String)>, pair: (String, String))
    ensures
        pairs_view(items.push(pair)) == pairs_view(items).push((pair.0@, pair.1@)),
{
    assert(pairs_view(items.push(pair)) =~= pairs_view(items).push((pair.0@, pair.1@)));
}

proof fn lemma_strings_view_push(items: Seq<String>, s: String)
    ensures
        strings_view(items.push(s)) == strings_view(items).push(s@),
{
    assert(strings_view(items.push(s)) =~= strings_view(items).push(s@));
}

/// The ids of `items`, oldest first.
pub open spec fn item_ids(items: Seq<(Seq<char>, Seq<char>)>) -> Seq<Seq<char>> {
    items.map_values(|pair: (Seq<char>, Seq<char>)| pair.0)
}

/// Whether an (id, owner) pair is kept alive by `name`.
pub open spec fn owned_by(name: Seq<char>) -> spec_fn((Seq<char>, Seq<char>)) -> bool {
    |pair: (Seq<char>, Seq<char>)| pair.1 == name
}

/// Whether an (id, owner) pair is kept alive by another name than `name`.
pub open spec fn owned_elsewhere(name: Seq<char>) -> spec_fn((Seq<char>, Seq<char>)) -> bool {
    |pair: (Seq<char>, Seq<char>)| pair.1 != name
}

/// Whether a host is another name than `name`.
pub open spec fn other_than(name: Seq<char>) -> spec_fn(Seq<char>) -> bool {
    |host: Seq<char>| host != name
}

/// Whether an item with `id` is registered.
pub open spec fn has_item(items: Seq<(Seq<char>, Seq<char>)>, id: Seq<char>) -> bool {
    exists|i: int| 0 <= i < items.len() && #[trigger] items[i].0 == id
}

/// What every registry keeps: at most `MAX_ITEMS` items, no id registered twice.
pub open spec fn items_ok(items: Seq<(Seq<char>, Seq<char>)>) -> bool {
    &&& items.len() <= MAX_ITEMS
    &&& item_ids(items).no_duplicates()
}

impl View for Registry {
    type V = RegistryView;

    closed spec fn view(&self) -> RegistryView {
        RegistryView { items: pairs_view(self.items@), hosts: strings_view(self.hosts@) }
    }
}

impl Default for Registry {
    fn default() -> (r: Registry)
        ensures
            r@.items == Seq::<(Seq<char>, Seq<char>)>::empty(),
            r@.hosts == Seq::<Seq<char>>::empty(),
    {
        let r = Registry { items: Vec::new(), hosts: Vec::new() };
        assert(r@.items =~= Seq::<(Seq<char>, Seq<char>)>::empty());
        assert(r@.hosts =~= Seq::<Seq<char>>::empty());
        r
    }
}

/// Whether two strings hold the same characters.
fn same(a: &String, b: &String) -> (r: bool)
    ensures
        r == (a@ == b@),
{
    a.eq(b)
}

impl Registry {
    /// An empty registry.
    pub fn new() -> (r: Registry)
        ensures
            r@.items == Seq::<(Seq<char>, Seq<char>)>::empty(),
            r@.hosts == Seq::<Seq<char>>::empty(),
            items_ok(r@.items),
    {
        let r = Registry::default();
        assert(item_ids(r@.items) =~= Seq::<Seq<char>>::empty());
        r
    }

    /// `New` when the item was added, `Known` when an item of that id is there already (the
    /// owner it registered with stays), `Full` when `MAX_ITEMS` are registered.
    pub fn add_item(&mut self, id: String, name: String) -> (added: Added)
        ensures
            added == (if has_item(old(self)@.items, id@) {
                Added::Known
            } else if old(self)@.items.len() >= MAX_ITEMS {
                Added::Full
            } else {
                Added::New
            }),
            final(self)@.items == (if added == Added::New {
                old(self)@.items.push((id@, name@))
            } else {
                old(self)@.items
            }),
            final(self)@.hosts == old(self)@.hosts,
            items_ok(old(self)@.items) ==> items_ok(final(self)@.items),
    {
        proof {
            if items_ok(self@.items) {
                the_cap_holds_and_ids_stay_apart(self@.items, id@, name@);
            }
        }
        let mut i: usize = 0;
        while i < self.items.len()
            invariant
                i <= self.items@.len(),
                forall|j: int| 0 <= j < i ==> self.items@[j].0@ != id@,
            decreases self.items.len() - i,
        {
            if same(&self.items[i].0, &id) {
                assert(self@.items[i as int].0 == id@);
                return Added::Known;
            }
            i = i + 1;
        }
        assert(!has_item(self@.items, id@)) by {
            assert forall|j: int| 0 <= j < self@.items.len() implies self@.items[j].0 != id@ by {
                assert(self@.items[j].0 == self.items@[j].0@);
            }
        }
        if self.items.len() >= MAX_ITEMS {
            return Added::Full;
        }
        let ghost before = self.items@;
        self.items.push((id, name));
        assert(self@.items =~= pairs_view(before).push((id@, name@)));
        Added::New
    }

    /// True when this is the first host.
    pub fn add_host(&mut self, name: String) -> (first: bool)
        ensures
            first == (old(self)@.hosts.len() == 0),
            final(self)@.hosts == (if old(self)@.hosts.contains(name@) {
                old(self)@.hosts
            } else {
                old(self)@.hosts.push(name@)
            }),
            final(self)@.items == old(self)@.items,
    {
        let first = self.hosts.len() == 0;
        let mut i: usize = 0;
        while i < self.hosts.len()
            invariant
                i <= self.hosts@.len(),
                first == (self.hosts@.len() == 0),
                forall|j: int| 0 <= j < i ==> self.hosts@[j]@ != name@,
            decreases self.hosts.len() - i,
        {
            if same(&self.hosts[i], &name) {
                assert(self@.hosts[i as int] == name@);
                return first;
            }
            i = i + 1;
        }
        assert(!self@.hosts.contains(name@)) by {
            assert forall|j: int| 0 <= j < self@.hosts.len() implies self@.hosts[j] != name@ by {
                assert(self@.hosts[j] == self.hosts@[j]@);
            }
        }
        let ghost before = self.hosts@;
        self.hosts.push(name);
        assert(self@.hosts =~= strings_view(before).push(name@));
        first
    }

    /// The ids of the registered items, oldest first.
    pub fn items(&self) -> (ids: Vec<String>)
        ensures
            strings_view(ids@) == item_ids(self@.items),
    {
        let mut ids: Vec<String> = Vec::new();
        let mut i: usize = 0;
        while i < self.items.len()
            invariant
                i <= self.items@.len(),
                strings_view(ids@) == item_ids(self@.items).take(i as int),
            decreases self.items.len() - i,
        {
            let ghost before = ids@;
            ids.push(self.items[i].0.clone());
            proof {
                lemma_strings_view_push(before, self.items@[i as int].0);
                assert(item_ids(self@.items).take(i as int + 1) =~= item_ids(self@.items).take(
                    i as int,
                ).push(self.items@[i as int].0@));
            }
            i = i + 1;
        }
        assert(item_ids(self@.items).take(self.items@.len() as int) =~= item_ids(self@.items));
        ids
    }

    pub fn has_host(&self) -> (b: bool)
        ensures
            b == (self@.hosts.len() > 0),
    {
        self.hosts.len() > 0
    }

    /// Everything `name` held: the items it kept alive, oldest first, and whether the last
    /// host left with it.
    pub fn name_lost(&mut self, name: &str) -> (lost: Lost)
        ensures
            final(self)@.items == old(self)@.items.filter(owned_elsewhere(name@)),
            strings_view(lost.items@) == item_ids(old(self)@.items.filter(owned_by(name@))),
            final(self)@.hosts == old(self)@.hosts.filter(other_than(name@)),
            lost.last_host_gone == (old(self)@.hosts.len() > 0 && final(self)@.hosts.len() == 0),
            items_ok(old(self)@.items) ==> items_ok(final(self)@.items),
    {
        proof {
            if items_ok(self@.items) {
                losing_a_name_keeps_the_cap_and_ids_apart(self@.items, name@);
            }
        }
        let owner = name.to_owned();
        let ghost keep_item = owned_elsewhere(name@);
        let ghost lose_item = owned_by(name@);
        let ghost all = self@.items;
        let mut kept: Vec<(String, String)> = Vec::new();
        let mut gone: Vec<String> = Vec::new();
        let mut i: usize = 0;
        while i < self.items.len()
            invariant
                all == pairs_view(self.items@),
                owner@ == name@,
                keep_item == owned_elsewhere(name@),
                lose_item == owned_by(name@),
                i <= self.items@.len(),
                pairs_view(kept@) == all.take(i as int).filter(keep_item),
                strings_view(gone@) == item_ids(all.take(i as int).filter(lose_item)),
            decreases self.items.len() - i,
        {
            let ghost prefix = all.take(i as int);
            proof {
                assert(all.take(i as int + 1) == prefix.push(all[i as int]));
                prefix.lemma_filter_push(all[i as int], keep_item);
                prefix.lemma_filter_push(all[i as int], lose_item);
            }
            let (id, holder) = (&self.items[i].0, &self.items[i].1);
            assert(all[i as int] == (self.items@[i as int].0@, self.items@[i as int].1@));
            if same(holder, &owner) {
                let ghost before = gone@;
                gone.push(id.clone());
                proof {
                    lemma_strings_view_push(before, self.items@[i as int].0);
                    assert(item_ids(prefix.filter(lose_item).push(all[i as int])) =~= item_ids(
                        prefix.filter(lose_item),
                    ).push(all[i as int].0));
                }
            } else {
                let ghost before = kept@;
                kept.push((id.clone(), holder.clone()));
                proof {
                    lemma_pairs_view_push(before, (self.items@[i as int].0, self.items@[i as int].1));
                }
            }
            i = i + 1;
        }
        assert(all.take(self.items@.len() as int) == all);
        let had_host = self.hosts.len() > 0;
        let ghost hosts = self@.hosts;
        let ghost keep_host = other_than(name@);
        let mut remaining: Vec<String> = Vec::new();
        let mut j: usize = 0;
        while j < self.hosts.len()
            invariant
                hosts == strings_view(self.hosts@),
                owner@ == name@,
                keep_host == other_than(name@),
                j <= self.hosts@.len(),
                strings_view(remaining@) == hosts.take(j as int).filter(keep_host),
            decreases self.hosts.len() - j,
        {
            let ghost prefix = hosts.take(j as int);
            proof {
                assert(hosts.take(j as int + 1) == prefix.push(hosts[j as int]));
                prefix.lemma_filter_push(hosts[j as int], keep_host);
            }
            if !same(&self.hosts[j], &owner) {
                let ghost before = remaining@;
                remaining.push(self.hosts[j].clone());
                proof {
                    lemma_strings_view_push(before, self.hosts@[j as int]);
                }
            }
            j = j + 1;
        }
        assert(hosts.take(self.hosts@.len() as int) == hosts);
        self.items = kept;
        self.hosts = remaining;
        let last_host_gone = had_host && self.hosts.len() == 0;
        Lost { items: gone, last_host_gone }
    }
}

/// The watcher's object: the registry behind it.
#[derive(Debug)]
pub struct Watcher {
    pub registry: Registry,
}

impl Default for Watcher {
    fn default() -> (w: Watcher)
        ensures
            w.registry@.items == Seq::<(Seq<char>, Seq<char>)>::empty(),
            w.registry@.hosts == Seq::<Seq<char>>::empty(),
    {
        Watcher { registry: Registry::new() }
    }
}

/// A character of a path element or a bus name element: an ASCII letter or digit, or `_`.
pub open spec fn word_char(c: char) -> bool {
    ('a' <= c <= 'z') || ('A' <= c <= 'Z') || ('0' <= c <= '9') || c == '_'
}

/// Whether a text is a D-Bus object path, as zvariant reads one: a `/`, then elements of
/// ASCII letters, digits and `_`, separated by single `/`, with no `/` at the end unless
/// the path is `/` alone.
pub open spec fn object_path_ok(text: Seq<char>) -> bool {
    &&& text.len() >= 1
    &&& text[0] == '/'
    &&& forall|i: int| 0 < i < text.len() ==> word_char(#[trigger] text[i]) || text[i] == '/'
    &&& forall|i: int| 0 < i < text.len() && #[trigger] text[i] == '/' ==> text[i - 1] != '/'
    &&& text.len() > 1 ==> text.last() != '/'
}

/// `ObjectPath::try_from` succeeds.
#[verifier::external_body]
fn is_object_path(text: &str) -> (r: bool)
    ensures
        r == object_path_ok(text@),
{
    zvariant::ObjectPath::try_from(text).is_ok()
}

/// A character of a bus name element: an ASCII letter or digit, `_` or `-`.
pub open spec fn name_char(c: char) -> bool {
    word_char(c) || c == '-'
}

/// Elements of `name_char`, at least two, separated by single dots; with `digit_first`
/// false no element starts with a digit.
pub open spec fn dotted_ok(text: Seq<char>, digit_first: bool) -> bool {
    &&& text.len() > 0
    &&& text[0] != '.'
    &&& text.last() != '.'
    &&& exists|i: int| 0 <= i < text.len() && #[trigger] text[i] == '.'
    &&& forall|i: int| 0 <= i < text.len() ==> name_char(#[trigger] text[i]) || text[i] == '.'
    &&& forall|i: int| 0 < i < text.len() && #[trigger] text[i] == '.' ==> text[i - 1] != '.'
    &&& !digit_first ==> forall|i: int|
        0 <= i < text.len() && (i == 0 || text[i - 1] == '.') ==> !('0' <= #[trigger] text[i] <= '9')
}

/// Whether a text is a D-Bus bus name, as zbus reads one: at most 255 characters, and
/// either a unique name (`:` and dotted elements) or a well-known name (dotted elements,
/// none starting with a digit).
pub open spec fn bus_name_ok(text: Seq<char>) -> bool {
    &&& text.len() <= 255
    &&& ((text.len() > 0 && text[0] == ':' && dotted_ok(text.skip(1), true)) || dotted_ok(text, false))
}

/// `BusName::try_from` succeeds.
#[verifier::external_body]
fn is_bus_name(text: &str) -> (r: bool)
    ensures
        r == bus_name_ok(text@),
{
    zbus_names::BusName::try_from(text).is_ok()
}

/// The item `service` names and the bus name whose owner keeps it alive: an object path is
/// the sender's own item, announced as the sender's name and the path; a bus name is its
/// own owner, announced with `/StatusNotifierItem`. Anything else names no item.
pub open spec fn item_spec(service: Seq<char>, sender: Seq<char>) -> Option<(Seq<char>, Seq<char>)> {
    if service.len() > 0 && service[0] == '/' {
        if object_path_ok(service) {
            Some((sender + service, sender))
        } else {
            None
        }
    } else if bus_name_ok(service) {
        Some((service + "/StatusNotifierItem"@, service))
    } else {
        None
    }
}

/// The item `service` names, and the bus name whose owner keeps it alive.
pub fn item(service: &str, sender: &str) -> (r: Option<(String, String)>)
    ensures
        match item_spec(service@, sender@) {
            Some((id, owner)) => r matches Some(p) && p.0@ == id && p.1@ == owner,
            None => r is None,
        },
{
    let v = crate::chars::chars_of(service);
    if v.len() > 0 && v[0] == '/' {
        if !is_object_path(service) {
            return None;
        }
        let mut id = sender.to_owned();
        crate::chars::push_str(&mut id, service);
        Some((id, sender.to_owned()))
    } else {
        if !is_bus_name(service) {
            return None;
        }
        let mut id = service.to_owned();
        crate::chars::push_str(&mut id, "/StatusNotifierItem");
        Some((id, service.to_owned()))
    }
}

} // verus!

verus! {

/// The items after `add_item(id, name)`: a new id is added below the cap, a known id or a
/// full registry leaves them as they are.
pub open spec fn added(items: Seq<(Seq<char>, Seq<char>)>, id: Seq<char>, name: Seq<char>) -> Seq<(Seq<char>, Seq<char>)> {
    if has_item(items, id) || items.len() >= MAX_ITEMS {
        items
    } else {
        items.push((id, name))
    }
}

/// The cap holds, and no id is registered twice.
pub proof fn the_cap_holds_and_ids_stay_apart(items: Seq<(Seq<char>, Seq<char>)>, id: Seq<char>, name: Seq<char>)
    requires
        items.len() <= MAX_ITEMS,
        item_ids(items).no_duplicates(),
    ensures
        added(items, id, name).len() <= MAX_ITEMS,
        item_ids(added(items, id, name)).no_duplicates(),
{
    if !has_item(items, id) && items.len() < MAX_ITEMS {
        let after = items.push((id, name));
        assert forall|i: int, j: int|
            0 <= i < item_ids(after).len() && 0 <= j < item_ids(after).len() && i != j implies item_ids(
            after,
        )[i] != item_ids(after)[j] by {
            if i < items.len() && j < items.len() {
                assert(item_ids(after)[i] == item_ids(items)[i]);
                assert(item_ids(after)[j] == item_ids(items)[j]);
            } else if i < items.len() {
                assert(items[i].0 != id);
            } else if j < items.len() {
                assert(items[j].0 != id);
            }
        }
    }
}

/// A name that loses its owner takes its items with it: none of those left is kept alive
/// by that name, and each is one of those before.
pub proof fn owners_take_their_items(items: Seq<(Seq<char>, Seq<char>)>, name: Seq<char>)
    ensures
        forall|i: int|
            0 <= i < items.filter(owned_elsewhere(name)).len() ==> (#[trigger] items.filter(
                owned_elsewhere(name),
            )[i]).1 != name && items.contains(items.filter(owned_elsewhere(name))[i]),
{
    let kept = items.filter(owned_elsewhere(name));
    items.filter_lemma(owned_elsewhere(name));
    assert forall|i: int| 0 <= i < kept.len() implies items.contains(#[trigger] kept[i]) by {
        assert(kept.contains(kept[i]));
        items.lemma_filter_contains_rev(owned_elsewhere(name), kept[i]);
    }
}

/// The last host leaving is reported once: once it has left there is no host, so another
/// name leaving reports nothing.
pub proof fn the_last_host_leaving_is_reported_once(hosts: Seq<Seq<char>>, first: Seq<char>, second: Seq<char>)
    ensures
        ({
            let after = hosts.filter(other_than(first));
            let last_gone = hosts.len() > 0 && after.len() == 0;
            last_gone ==> !(after.len() > 0 && after.filter(other_than(second)).len() == 0)
        }),
{
}

/// A name that loses its owner leaves a registry that still keeps the cap, with no id
/// registered twice.
pub proof fn losing_a_name_keeps_the_cap_and_ids_apart(items: Seq<(Seq<char>, Seq<char>)>, name: Seq<char>)
    requires
        items_ok(items),
    ensures
        items_ok(items.filter(owned_elsewhere(name))),
    decreases items.len(),
{
    let keep = owned_elsewhere(name);
    items.lemma_filter_len(keep);
    if items.len() == 0 {
        assert(item_ids(items.filter(keep)).len() == 0);
    } else {
        let prefix = items.drop_last();
        let last = items.last();
        assert(items == prefix.push(last));
        assert(item_ids(prefix) == item_ids(items).drop_last());
        losing_a_name_keeps_the_cap_and_ids_apart(prefix, name);
        prefix.lemma_filter_push(last, keep);
        if keep(last) {
            let before = prefix.filter(keep);
            let after = before.push(last);
            assert(item_ids(after) =~= item_ids(before).push(last.0));
            assert forall|i: int| 0 <= i < item_ids(before).len() implies item_ids(before)[i] != last.0 by {
                assert(before.contains(before[i]));
                prefix.lemma_filter_contains_rev(keep, before[i]);
                let k = choose|k: int| 0 <= k < prefix.len() && prefix[k] == before[i];
                assert(item_ids(items)[k] == before[i].0);
                assert(item_ids(items)[items.len() - 1] == last.0);
            }
            assert forall|i: int, j: int|
                0 <= i < item_ids(after).len() && 0 <= j < item_ids(after).len() && i != j implies item_ids(
                after,
            )[i] != item_ids(after)[j] by {
                if i < before.len() && j < before.len() {
                    assert(item_ids(after)[i] == item_ids(before)[i]);
                    assert(item_ids(after)[j] == item_ids(before)[j]);
                } else if i < before.len() {
                    assert(item_ids(after)[i] == item_ids(before)[i]);
                } else if j < before.len() {
                    assert(item_ids(after)[j] == item_ids(before)[j]);
                }
            }
        }
    }
}

} // verus!
